//! The checks every handler makes.

use vstd::prelude::*;
use crate::constants::TOKEN_PROGRAM_ID;
use crate::error::ProgramError;
use crate::states::account::{pubkey_eq, AccountView, Pubkey};

verus! {

/// The account signed the transaction.
pub fn validate_signer(account: &AccountView) -> (r: Result<(), ProgramError>)
    ensures
        r == if account.is_signer {
            Ok::<(), ProgramError>(())
        } else {
            Err::<(), ProgramError>(ProgramError::MissingRequiredSignature)
        },
{
    if !account.is_signer {
        return Err(ProgramError::MissingRequiredSignature);
    }
    Ok(())
}

/// The account is the token program.
pub fn validate_token_program(token_program: &AccountView) -> (r: Result<(), ProgramError>)
    ensures
        r == if token_program.key == TOKEN_PROGRAM_ID {
            Ok::<(), ProgramError>(())
        } else {
            Err::<(), ProgramError>(ProgramError::IncorrectProgramId)
        },
{
    if !pubkey_eq(&token_program.key, &TOKEN_PROGRAM_ID) {
        return Err(ProgramError::IncorrectProgramId);
    }
    Ok(())
}

/// The payload has exactly the expected length.
pub fn validate_instruction_length(
    instruction: &[u8],
    expected_len: usize,
) -> (r: Result<(), ProgramError>)
    ensures
        r == if instruction.len() == expected_len {
            Ok::<(), ProgramError>(())
        } else {
            Err::<(), ProgramError>(ProgramError::InvalidInstructionData)
        },
{
    if instruction.len() != expected_len {
        return Err(ProgramError::InvalidInstructionData);
    }
    Ok(())
}

/// The two addresses are the same.
pub fn validate_pubkey_match(actual: &Pubkey, expected: &Pubkey) -> (r: Result<(), ProgramError>)
    ensures
        r == if *actual == *expected {
            Ok::<(), ProgramError>(())
        } else {
            Err::<(), ProgramError>(ProgramError::InvalidAccountData)
        },
{
    if !pubkey_eq(actual, expected) {
        return Err(ProgramError::InvalidAccountData);
    }
    Ok(())
}

/// The amount is not zero.
pub fn validate_non_zero(amount: u64) -> (r: Result<(), ProgramError>)
    ensures
        r == if amount != 0 {
            Ok::<(), ProgramError>(())
        } else {
            Err::<(), ProgramError>(ProgramError::InvalidAccountData)
        },
{
    if amount == 0 {
        return Err(ProgramError::InvalidAccountData);
    }
    Ok(())
}

} // verus!
