//! A constant-product automated market maker.
//!
//! For each pair of mints (A, B) a pool holds two reserves, prices swaps so
//! that the product of the reserves never falls, charges a proportional fee on
//! the input, and issues LP units against deposits. Four instructions act on a
//! pool: initialize, add liquidity, swap and withdraw.
//!
//! The library decides; it moves no tokens itself. A handler is given the
//! accounts of a call as [`states::AccountView`]s, what was read of each, and
//! the payload. It checks them and answers with a plan: the calls to make to
//! the system and token programs, in order, each with the signature it needs.
//! Once those calls have been made, the plan's `settle` commits the new
//! reserves to the pool record, or leaves the record byte for byte as it was
//! if any of them failed.
//!
//! Every handler's contract gives its outcome exactly, error by error, as a
//! function of its inputs. The laws that hold across handlers
//! (reserves that track the vaults, a product that never falls, shares that
//! never round in the depositor's favour) are proof functions next to the
//! handlers they speak of.

pub mod codec;
pub mod constants;
pub mod entrypoint;
pub mod error;
pub mod helper;
pub mod instructions;
pub mod states;
