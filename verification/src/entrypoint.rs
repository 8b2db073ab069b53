//! The dispatcher: one discriminator byte selects the handler.

use vstd::prelude::*;
use crate::error::ProgramError;
use crate::instructions::add_liquidity::{
    add_liquidity_outcome, process_add_liquidity, AddLiquidityPlan,
};
use crate::instructions::initializer::{initialize_outcome, process_initialize, InitializePlan};
use crate::instructions::swap::{process_swap, swap_outcome, SwapPlan};
use crate::instructions::withdraw::{process_withdraw, withdraw_outcome, WithdrawPlan};
use crate::states::account::{AccountView, Pubkey};

verus! {

/// What a call asks for, by handler.
#[derive(Clone, Copy, Debug, PartialEq, Eq)]
pub enum Plan {
    /// Create a pool.
    Initialize(InitializePlan),
    /// Deposit both sides.
    AddLiquidity(AddLiquidityPlan),
    /// Trade one side for the other.
    Swap(SwapPlan),
    /// Redeem LP units.
    Withdraw(WithdrawPlan),
}

/// The outcome of a call: the first byte of the payload selects the handler,
/// which gets the rest of the payload unchanged.
pub open spec fn dispatch(
    program_id: Pubkey,
    accounts: Seq<AccountView>,
    payload: Seq<u8>,
) -> Result<Plan, ProgramError> {
    if payload.len() == 0 {
        Err(ProgramError::InvalidInstructionData)
    } else {
        let body = payload.subrange(1, payload.len() as int);
        if payload[0] == 0 {
            match initialize_outcome(program_id, accounts, body) {
                Ok(plan) => Ok(Plan::Initialize(plan)),
                Err(e) => Err(e),
            }
        } else if payload[0] == 1 {
            match add_liquidity_outcome(accounts, body) {
                Ok(plan) => Ok(Plan::AddLiquidity(plan)),
                Err(e) => Err(e),
            }
        } else if payload[0] == 2 {
            match swap_outcome(accounts, body) {
                Ok(plan) => Ok(Plan::Swap(plan)),
                Err(e) => Err(e),
            }
        } else if payload[0] == 3 {
            match withdraw_outcome(accounts, body) {
                Ok(plan) => Ok(Plan::Withdraw(plan)),
                Err(e) => Err(e),
            }
        } else {
            Err(ProgramError::InvalidInstructionData)
        }
    }
}

/// Dispatches a call to its handler.
pub fn process_instruction(
    program_id: &Pubkey,
    accounts: &[AccountView],
    instruction_data: &[u8],
) -> (r: Result<Plan, ProgramError>)
    ensures
        r == dispatch(*program_id, accounts@, instruction_data@),
{
    if instruction_data.len() == 0 {
        return Err(ProgramError::InvalidInstructionData);
    }
    let discriminator: u8 = instruction_data[0];
    let body = vstd::slice::slice_subrange(instruction_data, 1, instruction_data.len());
    if discriminator == 0 {
        Ok(Plan::Initialize(process_initialize(program_id, accounts, body)?))
    } else if discriminator == 1 {
        Ok(Plan::AddLiquidity(process_add_liquidity(program_id, accounts, body)?))
    } else if discriminator == 2 {
        Ok(Plan::Swap(process_swap(program_id, accounts, body)?))
    } else if discriminator == 3 {
        Ok(Plan::Withdraw(process_withdraw(program_id, accounts, body)?))
    } else {
        Err(ProgramError::InvalidInstructionData)
    }
}

} // verus!
