//! The pool record and the views a handler has of its accounts.

pub mod account;
pub mod pool;

pub use account::{AccountView, Mint, Pubkey, TokenAccount};
pub use pool::Pool;
