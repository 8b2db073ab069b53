//! The single error channel of the program.

use vstd::prelude::*;

verus! {

/// Why a call failed.
#[derive(Clone, Copy, Debug, PartialEq, Eq, Structural)]
pub enum ProgramError {
    /// The account list is shorter than the handler requires.
    NotEnoughAccountKeys,
    /// A required signer did not sign.
    MissingRequiredSignature,
    /// The depositor did not sign.
    IncorrectAuthority,
    /// An account that must be empty is not.
    AccountAlreadyInitialized,
    /// The system or token program is not the well-known one.
    IncorrectProgramId,
    /// Duplicate mints, or a fee out of range.
    InvalidArgument,
    /// A cross-field mismatch: wrong mint, owner, vault or address, a zero
    /// amount, or no supply to redeem against.
    InvalidAccountData,
    /// Unknown discriminator or wrong payload length.
    InvalidInstructionData,
    /// A checked operation overflowed or divided by zero.
    ArithmeticOverflow,
    /// A slippage bound was not met, or the caller lacks the units.
    InsufficientFunds,
    /// The mint pair of a swap is not the pool's pair.
    IllegalOwner,
    /// An error raised by the runtime or by a collaborating program, kept by
    /// its 64-bit code.
    Foreign(u64),
}

} // verus!
