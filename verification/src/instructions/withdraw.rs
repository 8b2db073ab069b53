//! Withdraw: burn LP shares for a proportional slice of each reserve.

use vstd::prelude::*;
use crate::codec::{le_u64, read_u64};
use crate::constants::TOKEN_PROGRAM_ID;
use crate::error::ProgramError;
use crate::instructions::add_liquidity::{lemma_deposit_share_is_bounded, lp_tokens_for_deposit};
use crate::instructions::cpi::{
    after_calls, lemma_after_three_calls, Burn, Call, Ledger, Signature, Transfer,
};
use crate::instructions::validators::{
    validate_non_zero, validate_pubkey_match, validate_signer, validate_token_program,
};
use crate::states::account::{AccountView, Mint, Pubkey, TokenAccount};
use crate::states::pool::{lemma_decode_of_encode, Pool};

verus! {

/// Payload of a withdraw: three little-endian `u64`.
#[derive(Clone, Copy, Debug, PartialEq, Eq)]
pub struct WithdrawInstructionData {
    /// LP units to burn.
    pub amount_in: u64,
    /// Least A the caller accepts.
    pub min_amount_a: u64,
    /// Least B the caller accepts.
    pub min_amount_b: u64,
}

impl WithdrawInstructionData {
    /// Exact length of the payload.
    pub const LEN: usize = 8 + 8 + 8;

    /// The payload that `bytes` spell.
    pub open spec fn decode(bytes: Seq<u8>) -> Self {
        WithdrawInstructionData {
            amount_in: le_u64(bytes.subrange(0, 8)),
            min_amount_a: le_u64(bytes.subrange(8, 16)),
            min_amount_b: le_u64(bytes.subrange(16, 24)),
        }
    }

    /// Reads the payload; any other length is refused.
    pub fn try_from_bytes(data: &[u8]) -> (r: Result<Self, ProgramError>)
        ensures
            r == if data.len() == Self::LEN {
                Ok::<Self, ProgramError>(Self::decode(data@))
            } else {
                Err::<Self, ProgramError>(ProgramError::InvalidInstructionData)
            },
    {
        if data.len() != Self::LEN {
            return Err(ProgramError::InvalidInstructionData);
        }
        Ok(
            WithdrawInstructionData {
                amount_in: read_u64(data, 0),
                min_amount_a: read_u64(data, 8),
                min_amount_b: read_u64(data, 16),
            },
        )
    }
}

/// The accounts of a withdraw, in the order the call lists them.
#[derive(Clone, Copy, Debug)]
pub struct WithdrawAccounts<'a> {
    /// Who withdraws; must sign.
    pub user: &'a AccountView<'a>,
    /// The pool.
    pub pool: &'a AccountView<'a>,
    /// The pool's LP mint.
    pub lp_mint: &'a AccountView<'a>,
    /// The pool's vault for side A.
    pub vault_a: &'a AccountView<'a>,
    /// The pool's vault for side B.
    pub vault_b: &'a AccountView<'a>,
    /// The user's token account for LP units.
    pub user_lp_token: &'a AccountView<'a>,
    /// The user's token account for side A.
    pub user_token_a: &'a AccountView<'a>,
    /// The user's token account for side B.
    pub user_token_b: &'a AccountView<'a>,
    /// The token program.
    pub token_program: &'a AccountView<'a>,
}

impl<'a> WithdrawAccounts<'a> {
    /// How many accounts a withdraw takes.
    pub const COUNT: usize = 9;

    /// The first nine accounts of the list, by role.
    pub open spec fn of(accounts: Seq<AccountView<'a>>) -> WithdrawAccounts<'a> {
        WithdrawAccounts {
            user: &accounts[0],
            pool: &accounts[1],
            lp_mint: &accounts[2],
            vault_a: &accounts[3],
            vault_b: &accounts[4],
            user_lp_token: &accounts[5],
            user_token_a: &accounts[6],
            user_token_b: &accounts[7],
            token_program: &accounts[8],
        }
    }

    /// Names the accounts of the list; a shorter list is refused, further
    /// accounts are ignored.
    pub fn take(accounts: &'a [AccountView<'a>]) -> (r: Result<WithdrawAccounts<'a>, ProgramError>)
        ensures
            r == if accounts.len() >= Self::COUNT {
                Ok::<WithdrawAccounts<'a>, ProgramError>(Self::of(accounts@))
            } else {
                Err::<WithdrawAccounts<'a>, ProgramError>(ProgramError::NotEnoughAccountKeys)
            },
    {
        if accounts.len() < Self::COUNT {
            return Err(ProgramError::NotEnoughAccountKeys);
        }
        Ok(
            WithdrawAccounts {
                user: &accounts[0],
                pool: &accounts[1],
                lp_mint: &accounts[2],
                vault_a: &accounts[3],
                vault_b: &accounts[4],
                user_lp_token: &accounts[5],
                user_token_a: &accounts[6],
                user_token_b: &accounts[7],
                token_program: &accounts[8],
            },
        )
    }
}

/// What a withdraw asks of the token program, in this order: the burn, then
/// the two payouts, which the pool signs under its seeds.
#[derive(Clone, Copy, Debug, PartialEq, Eq)]
pub struct WithdrawPlan {
    /// Burn the LP units, authorised by the user.
    pub burn: Burn,
    /// Pay A out of vault A, authorised by the pool.
    pub payout_a: Transfer,
    /// Pay B out of vault B, authorised by the pool.
    pub payout_b: Transfer,
    /// Bump of the pool's address.
    pub pool_bump: u8,
    /// First mint of the pool's seeds.
    pub token_a: Pubkey,
    /// Second mint of the pool's seeds.
    pub token_b: Pubkey,
}

/// The share of `reserve` that `amount_in` of `supply` LP units redeems:
/// `amount_in * reserve / supply`, floored; nothing where the product leaves
/// 64 bits or the supply is zero.
pub open spec fn withdraw_amount(amount_in: u64, reserve: u64, supply: u64) -> Option<u64> {
    if amount_in * reserve > u64::MAX || supply == 0 {
        None
    } else {
        Some((amount_in * reserve / supply as int) as u64)
    }
}

/// The share of `reserve` that `amount_in` of `supply` LP units redeems, every
/// step checked.
pub fn quote_withdraw(amount_in: u64, reserve: u64, supply: u64) -> (r: Result<u64, ProgramError>)
    ensures
        r == match withdraw_amount(amount_in, reserve, supply) {
            Some(amount) => Ok::<u64, ProgramError>(amount),
            None => Err::<u64, ProgramError>(ProgramError::ArithmeticOverflow),
        },
{
    amount_in
        .checked_mul(reserve)
        .ok_or(ProgramError::ArithmeticOverflow)?
        .checked_div(supply)
        .ok_or(ProgramError::ArithmeticOverflow)
}

/// What a withdraw decides once the pool, the LP mint and the user's three
/// token accounts have been read: that the user's accounts hold the right
/// mints and are the user's, that the mint and the vaults are the pool's,
/// that there is a supply and the user holds the units, the two shares, that
/// both are positive, meet the user's minimum, and are covered by the
/// reserves.
pub open spec fn withdraw_decision(
    accounts: WithdrawAccounts,
    state: Pool,
    lp_mint: Mint,
    user_lp: TokenAccount,
    user_a: TokenAccount,
    user_b: TokenAccount,
    data: WithdrawInstructionData,
) -> Result<WithdrawPlan, ProgramError> {
    let user = accounts.user.key;
    if user_lp.mint != state.lp_mint || user_a.mint != state.token_a || user_b.mint
        != state.token_b || user_lp.owner != user || user_a.owner != user || user_b.owner != user
        || accounts.lp_mint.key != state.lp_mint || accounts.vault_a.key != state.vault_a
        || accounts.vault_b.key != state.vault_b || lp_mint.supply == 0 {
        Err(ProgramError::InvalidAccountData)
    } else if user_lp.amount < data.amount_in {
        Err(ProgramError::InsufficientFunds)
    } else {
        match (
            withdraw_amount(data.amount_in, state.reserve_a, lp_mint.supply),
            withdraw_amount(data.amount_in, state.reserve_b, lp_mint.supply),
        ) {
            (Some(amount_a), Some(amount_b)) => {
                if amount_a == 0 || amount_b == 0 {
                    Err(ProgramError::InvalidAccountData)
                } else if amount_a < data.min_amount_a || amount_b < data.min_amount_b
                    || state.reserve_a < amount_a || state.reserve_b < amount_b {
                    Err(ProgramError::InsufficientFunds)
                } else {
                    Ok(
                        WithdrawPlan {
                            burn: Burn {
                                account: accounts.user_lp_token.key,
                                mint: accounts.lp_mint.key,
                                authority: user,
                                amount: data.amount_in,
                            },
                            payout_a: Transfer {
                                from: accounts.vault_a.key,
                                to: accounts.user_token_a.key,
                                authority: accounts.pool.key,
                                amount: amount_a,
                            },
                            payout_b: Transfer {
                                from: accounts.vault_b.key,
                                to: accounts.user_token_b.key,
                                authority: accounts.pool.key,
                                amount: amount_b,
                            },
                            pool_bump: state.bump,
                            token_a: state.token_a,
                            token_b: state.token_b,
                        },
                    )
                }
            },
            _ => Err(ProgramError::ArithmeticOverflow),
        }
    }
}

/// What a withdraw reads, in order: the pool record, the LP mint, then the
/// user's LP, A and B token accounts. The first read that failed ends the
/// call with its error.
pub open spec fn withdraw_reads(
    accounts: WithdrawAccounts,
    data: WithdrawInstructionData,
) -> Result<WithdrawPlan, ProgramError> {
    match accounts.pool.data {
        Err(e) => Err(e),
        Ok(bytes) => {
            if bytes.len() != Pool::LEN {
                Err(ProgramError::InvalidAccountData)
            } else {
                match accounts.lp_mint.mint {
                    Err(e) => Err(e),
                    Ok(lp_mint) => match accounts.user_lp_token.token {
                        Err(e) => Err(e),
                        Ok(user_lp) => match accounts.user_token_a.token {
                            Err(e) => Err(e),
                            Ok(user_a) => match accounts.user_token_b.token {
                                Err(e) => Err(e),
                                Ok(user_b) => withdraw_decision(
                                    accounts,
                                    Pool::decode(bytes@),
                                    lp_mint,
                                    user_lp,
                                    user_a,
                                    user_b,
                                    data,
                                ),
                            },
                        },
                    },
                }
            }
        },
    }
}

/// The outcome of a withdraw: the first check that fails gives the error.
pub open spec fn withdraw_outcome(
    accounts: Seq<AccountView>,
    instruction: Seq<u8>,
) -> Result<WithdrawPlan, ProgramError> {
    if accounts.len() < WithdrawAccounts::COUNT {
        Err(ProgramError::NotEnoughAccountKeys)
    } else if !WithdrawAccounts::of(accounts).user.is_signer {
        Err(ProgramError::MissingRequiredSignature)
    } else if WithdrawAccounts::of(accounts).token_program.key != TOKEN_PROGRAM_ID {
        Err(ProgramError::IncorrectProgramId)
    } else if instruction.len() != WithdrawInstructionData::LEN {
        Err(ProgramError::InvalidInstructionData)
    } else if WithdrawInstructionData::decode(instruction).amount_in == 0 {
        Err(ProgramError::InvalidAccountData)
    } else {
        withdraw_reads(WithdrawAccounts::of(accounts), WithdrawInstructionData::decode(instruction))
    }
}

/// The record a withdraw finds in its pool account, where the account holds
/// one.
pub open spec fn withdraw_pool(accounts: Seq<AccountView>) -> Pool {
    Pool::decode(WithdrawAccounts::of(accounts).pool.data->Ok_0@)
}

/// The LP supply a withdraw finds in its LP mint, where the mint could be
/// read.
pub open spec fn withdraw_supply(accounts: Seq<AccountView>) -> u64 {
    WithdrawAccounts::of(accounts).lp_mint.mint->Ok_0.supply
}

/// Decides a withdraw: checks the accounts and the payload, prices the
/// redemption, and answers with the calls to make. Each payout is the floored
/// share `amount_in * reserve / supply` of its reserve, and positive.
pub fn process_withdraw(
    _program_id: &Pubkey,
    accounts: &[AccountView],
    instructions: &[u8],
) -> (r: Result<WithdrawPlan, ProgramError>)
    ensures
        r == withdraw_outcome(accounts@, instructions@),
        r matches Ok(plan) ==> {
            let state = withdraw_pool(accounts@);
            let supply = withdraw_supply(accounts@);
            let data = WithdrawInstructionData::decode(instructions@);
            &&& supply > 0
            &&& plan.burn.amount == data.amount_in
            &&& plan.payout_a.amount == data.amount_in * state.reserve_a / supply as int
            &&& plan.payout_b.amount == data.amount_in * state.reserve_b / supply as int
            &&& plan.payout_a.amount > 0
            &&& plan.payout_b.amount > 0
            &&& plan.payout_a.amount >= data.min_amount_a
            &&& plan.payout_b.amount >= data.min_amount_b
            &&& plan.payout_a.amount <= state.reserve_a
            &&& plan.payout_b.amount <= state.reserve_b
        },
{
    let named = WithdrawAccounts::take(accounts)?;
    validate_signer(named.user)?;
    validate_token_program(named.token_program)?;
    let data = WithdrawInstructionData::try_from_bytes(instructions)?;
    validate_non_zero(data.amount_in)?;

    let pool_state = Pool::load(named.pool.data?)?;
    let lp_mint_acc = named.lp_mint.mint?;
    let user_lp_acc = named.user_lp_token.token?;
    let user_token_a_acc = named.user_token_a.token?;
    let user_token_b_acc = named.user_token_b.token?;

    validate_pubkey_match(&user_lp_acc.mint, &pool_state.lp_mint)?;
    validate_pubkey_match(&user_token_a_acc.mint, &pool_state.token_a)?;
    validate_pubkey_match(&user_token_b_acc.mint, &pool_state.token_b)?;
    validate_pubkey_match(&user_lp_acc.owner, &named.user.key)?;
    validate_pubkey_match(&user_token_a_acc.owner, &named.user.key)?;
    validate_pubkey_match(&user_token_b_acc.owner, &named.user.key)?;
    validate_pubkey_match(&named.lp_mint.key, &pool_state.lp_mint)?;
    validate_pubkey_match(&named.vault_a.key, &pool_state.vault_a)?;
    validate_pubkey_match(&named.vault_b.key, &pool_state.vault_b)?;

    let total_supply = lp_mint_acc.supply;
    if total_supply == 0 {
        return Err(ProgramError::InvalidAccountData);
    }
    if user_lp_acc.amount < data.amount_in {
        return Err(ProgramError::InsufficientFunds);
    }
    let amount_a_out = quote_withdraw(data.amount_in, pool_state.reserve_a, total_supply)?;
    let amount_b_out = quote_withdraw(data.amount_in, pool_state.reserve_b, total_supply)?;
    if amount_a_out == 0 || amount_b_out == 0 {
        return Err(ProgramError::InvalidAccountData);
    }
    if amount_a_out < data.min_amount_a {
        return Err(ProgramError::InsufficientFunds);
    }
    if amount_b_out < data.min_amount_b {
        return Err(ProgramError::InsufficientFunds);
    }
    if pool_state.reserve_a < amount_a_out {
        return Err(ProgramError::InsufficientFunds);
    }
    if pool_state.reserve_b < amount_b_out {
        return Err(ProgramError::InsufficientFunds);
    }
    Ok(
        WithdrawPlan {
            burn: Burn {
                account: named.user_lp_token.key,
                mint: named.lp_mint.key,
                authority: named.user.key,
                amount: data.amount_in,
            },
            payout_a: Transfer {
                from: named.vault_a.key,
                to: named.user_token_a.key,
                authority: named.pool.key,
                amount: amount_a_out,
            },
            payout_b: Transfer {
                from: named.vault_b.key,
                to: named.user_token_b.key,
                authority: named.pool.key,
                amount: amount_b_out,
            },
            pool_bump: pool_state.bump,
            token_a: pool_state.token_a,
            token_b: pool_state.token_b,
        },
    )
}

impl WithdrawPlan {
    /// How the pool signs the payouts.
    pub open spec fn pool_signature(self) -> Signature {
        Signature::Pool { bump: self.pool_bump, token_a: self.token_a, token_b: self.token_b }
    }

    /// The calls of the plan, in the order they are to be made.
    pub open spec fn calls_in_order(self) -> Seq<Call> {
        seq![
            Call::Burn(self.burn, Signature::Transaction),
            Call::Transfer(self.payout_a, self.pool_signature()),
            Call::Transfer(self.payout_b, self.pool_signature()),
        ]
    }

    /// The calls to make, in order: the burn, which the user authorises, then
    /// the two payouts, which the pool signs.
    pub fn calls(&self) -> (calls: [Call; 3])
        ensures
            calls@ == self.calls_in_order(),
    {
        let signature = Signature::Pool {
            bump: self.pool_bump,
            token_a: self.token_a,
            token_b: self.token_b,
        };
        let calls = [
            Call::Burn(self.burn, Signature::Transaction),
            Call::Transfer(self.payout_a, signature),
            Call::Transfer(self.payout_b, signature),
        ];
        assert(calls@ =~= self.calls_in_order());
        calls
    }

    /// The record once both payouts have left the vaults; nothing where a
    /// reserve is smaller than its payout.
    pub open spec fn settled(self, pool: Pool) -> Option<Pool> {
        if pool.reserve_a < self.payout_a.amount || pool.reserve_b < self.payout_b.amount {
            None
        } else {
            Some(
                pool.with_reserves(
                    (pool.reserve_a - self.payout_a.amount) as u64,
                    (pool.reserve_b - self.payout_b.amount) as u64,
                ),
            )
        }
    }

    /// Commits the withdraw to the pool record once the token program has
    /// answered. `outcome` is its answer to the plan's calls: the first error,
    /// or success. On any error the record stays byte for byte as it was.
    pub fn settle(
        &self,
        pool_data: &mut [u8],
        outcome: Result<(), ProgramError>,
    ) -> (r: Result<(), ProgramError>)
        ensures
            r == match outcome {
                Err(e) => Err::<(), ProgramError>(e),
                Ok(_) => {
                    if old(pool_data).len() != Pool::LEN {
                        Err(ProgramError::InvalidAccountData)
                    } else if self.settled(Pool::decode(old(pool_data)@)) is None {
                        Err(ProgramError::ArithmeticOverflow)
                    } else {
                        Ok(())
                    }
                },
            },
            r is Err ==> final(pool_data)@ == old(pool_data)@,
            r is Ok ==> final(pool_data)@ == self.settled(
                Pool::decode(old(pool_data)@),
            )->Some_0.encode(),
            r is Ok ==> Some(Pool::decode(final(pool_data)@)) == self.settled(
                Pool::decode(old(pool_data)@),
            ),
            r is Ok && Pool::decode(old(pool_data)@).well_formed() ==> Pool::decode(
                final(pool_data)@,
            ).well_formed(),
    {
        outcome?;
        let mut pool_state = Pool::load(pool_data)?;
        let reserve_a = pool_state
            .reserve_a
            .checked_sub(self.payout_a.amount)
            .ok_or(ProgramError::ArithmeticOverflow)?;
        let reserve_b = pool_state
            .reserve_b
            .checked_sub(self.payout_b.amount)
            .ok_or(ProgramError::ArithmeticOverflow)?;
        pool_state.reserve_a = reserve_a;
        pool_state.reserve_b = reserve_b;
        proof {
            lemma_decode_of_encode(pool_state);
        }
        pool_state.store(pool_data)
    }
}

/// After a withdraw whose calls the token program carried out and which the
/// pool committed, both reserves have shrunk and are the vaults' balances, if
/// they were before, and the LP supply has shrunk by the units burnt. The
/// user's accounts are taken to be other accounts than the vaults: the token
/// program lets nobody but the pool move a vault's units.
pub proof fn lemma_withdraw_reserves_track_vaults(
    accounts: Seq<AccountView>,
    instruction: Seq<u8>,
    ledger: Ledger,
)
    requires
        withdraw_outcome(accounts, instruction) is Ok,
        ({
            let named = WithdrawAccounts::of(accounts);
            let before = withdraw_pool(accounts);
            &&& before.vault_a != before.vault_b
            &&& named.user_lp_token.key != before.vault_a
            &&& named.user_lp_token.key != before.vault_b
            &&& named.user_token_a.key != before.vault_a
            &&& named.user_token_a.key != before.vault_b
            &&& named.user_token_b.key != before.vault_a
            &&& named.user_token_b.key != before.vault_b
            &&& ledger.balances[before.vault_a] == before.reserve_a
            &&& ledger.balances[before.vault_b] == before.reserve_b
        }),
    ensures
        ({
            let before = withdraw_pool(accounts);
            let plan = withdraw_outcome(accounts, instruction)->Ok_0;
            let moved = after_calls(ledger, plan.calls_in_order());
            &&& plan.settled(before) is Some
            &&& moved.balances[before.vault_a] == plan.settled(before)->Some_0.reserve_a
            &&& moved.balances[before.vault_b] == plan.settled(before)->Some_0.reserve_b
            &&& moved.supply[before.lp_mint] == ledger.supply[before.lp_mint] - plan.burn.amount
            &&& plan.settled(before)->Some_0.reserve_a < before.reserve_a
            &&& plan.settled(before)->Some_0.reserve_b < before.reserve_b
        }),
{
    let plan = withdraw_outcome(accounts, instruction)->Ok_0;
    lemma_after_three_calls(
        ledger,
        Call::Burn(plan.burn, Signature::Transaction),
        Call::Transfer(plan.payout_a, plan.pool_signature()),
        Call::Transfer(plan.payout_b, plan.pool_signature()),
    );
}

/// A withdraw keeps the supply of LP units anchored, as long as no more
/// units are burnt than exist: burning all of them empties both reserves, and
/// burning fewer leaves a reserve and a supply.
pub proof fn lemma_withdraw_keeps_supply_anchor(accounts: Seq<AccountView>, instruction: Seq<u8>)
    requires
        withdraw_outcome(accounts, instruction) is Ok,
        withdraw_outcome(accounts, instruction)->Ok_0.burn.amount <= withdraw_supply(accounts),
    ensures
        ({
            let before = withdraw_pool(accounts);
            let plan = withdraw_outcome(accounts, instruction)->Ok_0;
            &&& plan.settled(before) is Some
            &&& plan.settled(before)->Some_0.anchors(withdraw_supply(accounts) - plan.burn.amount)
        }),
{
    let before = withdraw_pool(accounts);
    let plan = withdraw_outcome(accounts, instruction)->Ok_0;
    let supply = withdraw_supply(accounts) as int;
    let amount_in = plan.burn.amount as int;
    let ra = before.reserve_a as int;
    let rb = before.reserve_b as int;
    if amount_in == supply {
        assert(amount_in * ra / supply == ra && amount_in * rb / supply == rb)
            by (nonlinear_arith)
            requires
                amount_in == supply,
                supply > 0,
        ;
    } else {
        assert(amount_in * ra / supply < ra) by (nonlinear_arith)
            requires
                0 < amount_in < supply,
                0 < ra,
        ;
    }
}

/// Depositing and then redeeming exactly the LP units the deposit earned
/// gives back at most what was deposited, on either side: floor rounding is
/// never in the depositor's favour.
pub proof fn lemma_deposit_then_withdraw_returns_at_most(
    amount_a: u64,
    amount_b: u64,
    reserve_a: u64,
    reserve_b: u64,
    supply: u64,
)
    requires
        lp_tokens_for_deposit(amount_a, amount_b, reserve_a, reserve_b, supply) is Some,
        reserve_a + amount_a <= u64::MAX,
        reserve_b + amount_b <= u64::MAX,
        supply + lp_tokens_for_deposit(amount_a, amount_b, reserve_a, reserve_b, supply)->Some_0
            <= u64::MAX,
        withdraw_amount(
            lp_tokens_for_deposit(amount_a, amount_b, reserve_a, reserve_b, supply)->Some_0,
            (reserve_a + amount_a) as u64,
            (supply + lp_tokens_for_deposit(
                amount_a,
                amount_b,
                reserve_a,
                reserve_b,
                supply,
            )->Some_0) as u64,
        ) is Some,
        withdraw_amount(
            lp_tokens_for_deposit(amount_a, amount_b, reserve_a, reserve_b, supply)->Some_0,
            (reserve_b + amount_b) as u64,
            (supply + lp_tokens_for_deposit(
                amount_a,
                amount_b,
                reserve_a,
                reserve_b,
                supply,
            )->Some_0) as u64,
        ) is Some,
    ensures
        ({
            let lp = lp_tokens_for_deposit(amount_a, amount_b, reserve_a, reserve_b, supply)->Some_0;
            &&& withdraw_amount(lp, (reserve_a + amount_a) as u64, (supply + lp) as u64)->Some_0
                <= amount_a
            &&& withdraw_amount(lp, (reserve_b + amount_b) as u64, (supply + lp) as u64)->Some_0
                <= amount_b
        }),
{
    let lp = lp_tokens_for_deposit(amount_a, amount_b, reserve_a, reserve_b, supply)->Some_0 as int;
    let (a, b, ra, rb, s) = (
        amount_a as int,
        amount_b as int,
        reserve_a as int,
        reserve_b as int,
        supply as int,
    );
    if reserve_a == 0 && reserve_b == 0 {
        assert(lp * (ra + a) <= a * (s + lp)) by (nonlinear_arith)
            requires
                ra == 0,
                0 <= a,
                0 <= s,
                0 <= lp,
        ;
        assert(lp * (rb + b) <= b * (s + lp)) by (nonlinear_arith)
            requires
                rb == 0,
                0 <= b,
                0 <= s,
                0 <= lp,
        ;
    } else {
        lemma_deposit_share_is_bounded(amount_a, amount_b, reserve_a, reserve_b, supply);
        assert(lp * (ra + a) <= a * (s + lp)) by (nonlinear_arith)
            requires
                lp * ra <= a * s,
        ;
        assert(lp * (rb + b) <= b * (s + lp)) by (nonlinear_arith)
            requires
                lp * rb <= b * s,
        ;
    }
    assert(lp * (ra + a) / (s + lp) <= a) by (nonlinear_arith)
        requires
            lp * (ra + a) <= a * (s + lp),
            0 < s + lp,
            0 <= a,
    ;
    assert(lp * (rb + b) / (s + lp) <= b) by (nonlinear_arith)
        requires
            lp * (rb + b) <= b * (s + lp),
            0 < s + lp,
            0 <= b,
    ;
}

} // verus!
