//! Swap: trade one side for the other under the constant-product rule.

use vstd::prelude::*;
use crate::codec::{le_u64, read_u64};
use crate::constants::FEE_DENOMINATOR;
use crate::constants::TOKEN_PROGRAM_ID;
use crate::error::ProgramError;
use crate::instructions::cpi::{
    after_calls, lemma_after_two_calls, Call, Ledger, Signature, Transfer,
};
use crate::instructions::validators::{
    validate_non_zero, validate_pubkey_match, validate_signer, validate_token_program,
};
use crate::states::account::{pubkey_eq, AccountView, Pubkey, TokenAccount};
use crate::states::pool::{lemma_decode_of_encode, Pool};

verus! {

/// Payload of a swap: two little-endian `u64`.
#[derive(Clone, Copy, Debug, PartialEq, Eq)]
pub struct SwapInstructionData {
    /// Units of the input side the user gives.
    pub amount_in: u64,
    /// Least units of the output side the user accepts.
    pub min_amount_out: u64,
}

impl SwapInstructionData {
    /// Exact length of the payload.
    pub const LEN: usize = 8 + 8;

    /// The payload that `bytes` spell.
    pub open spec fn decode(bytes: Seq<u8>) -> Self {
        SwapInstructionData {
            amount_in: le_u64(bytes.subrange(0, 8)),
            min_amount_out: le_u64(bytes.subrange(8, 16)),
        }
    }

    /// Reads the payload; any other length is refused.
    pub fn try_from_bytes(data: &[u8]) -> (r: Result<Self, ProgramError>)
        ensures
            r == if data.len() == Self::LEN {
                Ok::<Self, ProgramError>(Self::decode(data@))
            } else {
                Err::<Self, ProgramError>(ProgramError::InvalidInstructionData)
            },
    {
        if data.len() != Self::LEN {
            return Err(ProgramError::InvalidInstructionData);
        }
        Ok(SwapInstructionData { amount_in: read_u64(data, 0), min_amount_out: read_u64(data, 8) })
    }
}

/// The accounts of a swap, in the order the call lists them.
#[derive(Clone, Copy, Debug)]
pub struct SwapAccounts<'a> {
    /// Who swaps; must sign.
    pub user: &'a AccountView<'a>,
    /// The pool.
    pub pool: &'a AccountView<'a>,
    /// Mint of the side given.
    pub input_mint: &'a AccountView<'a>,
    /// Mint of the side taken.
    pub output_mint: &'a AccountView<'a>,
    /// The pool's vault for the side given.
    pub input_vault: &'a AccountView<'a>,
    /// The pool's vault for the side taken.
    pub output_vault: &'a AccountView<'a>,
    /// The user's token account for the side given.
    pub user_input_account: &'a AccountView<'a>,
    /// The user's token account for the side taken.
    pub user_output_account: &'a AccountView<'a>,
    /// The token program.
    pub token_program: &'a AccountView<'a>,
}

impl<'a> SwapAccounts<'a> {
    /// How many accounts a swap takes.
    pub const COUNT: usize = 9;

    /// The first nine accounts of the list, by role.
    pub open spec fn of(accounts: Seq<AccountView<'a>>) -> SwapAccounts<'a> {
        SwapAccounts {
            user: &accounts[0],
            pool: &accounts[1],
            input_mint: &accounts[2],
            output_mint: &accounts[3],
            input_vault: &accounts[4],
            output_vault: &accounts[5],
            user_input_account: &accounts[6],
            user_output_account: &accounts[7],
            token_program: &accounts[8],
        }
    }

    /// Names the accounts of the list; a shorter list is refused, further
    /// accounts are ignored.
    pub fn take(accounts: &'a [AccountView<'a>]) -> (r: Result<SwapAccounts<'a>, ProgramError>)
        ensures
            r == if accounts.len() >= Self::COUNT {
                Ok::<SwapAccounts<'a>, ProgramError>(Self::of(accounts@))
            } else {
                Err::<SwapAccounts<'a>, ProgramError>(ProgramError::NotEnoughAccountKeys)
            },
    {
        if accounts.len() < Self::COUNT {
            return Err(ProgramError::NotEnoughAccountKeys);
        }
        Ok(
            SwapAccounts {
                user: &accounts[0],
                pool: &accounts[1],
                input_mint: &accounts[2],
                output_mint: &accounts[3],
                input_vault: &accounts[4],
                output_vault: &accounts[5],
                user_input_account: &accounts[6],
                user_output_account: &accounts[7],
                token_program: &accounts[8],
            },
        )
    }
}

/// What a swap asks of the token program, in this order: the user's deposit
/// into the input vault, then the payout from the output vault, which the pool
/// signs under its seeds.
#[derive(Clone, Copy, Debug, PartialEq, Eq)]
pub struct SwapPlan {
    /// The user pays the input side into its vault.
    pub deposit: Transfer,
    /// The pool pays the output side out of its vault.
    pub payout: Transfer,
    /// Whether side A is given and side B taken.
    pub is_a_to_b: bool,
    /// Bump of the pool's address.
    pub pool_bump: u8,
    /// First mint of the pool's seeds.
    pub token_a: Pubkey,
    /// Second mint of the pool's seeds.
    pub token_b: Pubkey,
}

/// The input that is left to trade after the fee:
/// `amount_in * (10000 - fee_rate) / 10000`, floored; nothing where the fee is
/// above the denominator or the product leaves 64 bits.
pub open spec fn swap_net_amount(amount_in: u64, fee_rate: u16) -> Option<u64> {
    if fee_rate > FEE_DENOMINATOR || amount_in * (FEE_DENOMINATOR - fee_rate) > u64::MAX {
        None
    } else {
        Some((amount_in * (FEE_DENOMINATOR - fee_rate) / FEE_DENOMINATOR as int) as u64)
    }
}

/// The constant-product quote: `reserve_out * net / (reserve_in + net)`,
/// floored, with `net` the input after the fee; nothing where a step leaves 64
/// bits or the divisor is zero.
pub open spec fn swap_amount_out(
    amount_in: u64,
    reserve_in: u64,
    reserve_out: u64,
    fee_rate: u16,
) -> Option<u64> {
    match swap_net_amount(amount_in, fee_rate) {
        None => None,
        Some(net) => {
            if reserve_out * net > u64::MAX || reserve_in + net > u64::MAX || reserve_in + net == 0 {
                None
            } else {
                Some((reserve_out * net / (reserve_in + net)) as u64)
            }
        },
    }
}

/// Quotes a swap of `amount_in` against the two reserves, every step checked.
pub fn quote_swap(
    amount_in: u64,
    reserve_in: u64,
    reserve_out: u64,
    fee_rate: u16,
) -> (r: Result<u64, ProgramError>)
    ensures
        r == match swap_amount_out(amount_in, reserve_in, reserve_out, fee_rate) {
            Some(amount) => Ok::<u64, ProgramError>(amount),
            None => Err::<u64, ProgramError>(ProgramError::ArithmeticOverflow),
        },
{
    let keep = FEE_DENOMINATOR
        .checked_sub(fee_rate as u64)
        .ok_or(ProgramError::ArithmeticOverflow)?;
    let amount_in_with_fee = amount_in
        .checked_mul(keep)
        .ok_or(ProgramError::ArithmeticOverflow)?
        .checked_div(FEE_DENOMINATOR)
        .ok_or(ProgramError::ArithmeticOverflow)?;
    let numerator = reserve_out
        .checked_mul(amount_in_with_fee)
        .ok_or(ProgramError::ArithmeticOverflow)?;
    let denominator = reserve_in
        .checked_add(amount_in_with_fee)
        .ok_or(ProgramError::ArithmeticOverflow)?;
    numerator.checked_div(denominator).ok_or(ProgramError::ArithmeticOverflow)
}

/// Which way a swap goes: `true` for A to B, `false` for B to A. The mint
/// pair must be the pool's pair in one of its two orders, and the vaults the
/// pool's vaults in the same order.
pub open spec fn swap_direction(accounts: SwapAccounts, state: Pool) -> Result<bool, ProgramError> {
    if accounts.input_mint.key == state.token_a && accounts.output_mint.key == state.token_b {
        if accounts.input_vault.key != state.vault_a || accounts.output_vault.key != state.vault_b {
            Err(ProgramError::InvalidAccountData)
        } else {
            Ok(true)
        }
    } else if accounts.input_mint.key == state.token_b && accounts.output_mint.key == state.token_a {
        if accounts.input_vault.key != state.vault_b || accounts.output_vault.key != state.vault_a {
            Err(ProgramError::InvalidAccountData)
        } else {
            Ok(false)
        }
    } else {
        Err(ProgramError::IllegalOwner)
    }
}

/// What a swap decides once the pool and the user's two token accounts have
/// been read: the direction, that the user's accounts hold the right mints and
/// are the user's, the quote, and that the quote meets the user's minimum.
pub open spec fn swap_decision(
    accounts: SwapAccounts,
    state: Pool,
    user_input: TokenAccount,
    user_output: TokenAccount,
    data: SwapInstructionData,
) -> Result<SwapPlan, ProgramError> {
    match swap_direction(accounts, state) {
        Err(e) => Err(e),
        Ok(is_a_to_b) => {
            let reserve_in = if is_a_to_b {
                state.reserve_a
            } else {
                state.reserve_b
            };
            let reserve_out = if is_a_to_b {
                state.reserve_b
            } else {
                state.reserve_a
            };
            if user_input.mint != accounts.input_mint.key || user_output.mint
                != accounts.output_mint.key || user_input.owner != accounts.user.key
                || user_output.owner != accounts.user.key {
                Err(ProgramError::InvalidAccountData)
            } else {
                match swap_amount_out(data.amount_in, reserve_in, reserve_out, state.fee_rate) {
                    None => Err(ProgramError::ArithmeticOverflow),
                    Some(amount_out) => {
                        if amount_out < data.min_amount_out {
                            Err(ProgramError::InsufficientFunds)
                        } else {
                            Ok(
                                SwapPlan {
                                    deposit: Transfer {
                                        from: accounts.user_input_account.key,
                                        to: accounts.input_vault.key,
                                        authority: accounts.user.key,
                                        amount: data.amount_in,
                                    },
                                    payout: Transfer {
                                        from: accounts.output_vault.key,
                                        to: accounts.user_output_account.key,
                                        authority: accounts.pool.key,
                                        amount: amount_out,
                                    },
                                    is_a_to_b,
                                    pool_bump: state.bump,
                                    token_a: state.token_a,
                                    token_b: state.token_b,
                                },
                            )
                        }
                    },
                }
            }
        },
    }
}

/// What a swap reads, in order: the pool record, then the user's input and
/// output token accounts. The first read that failed ends the call with its
/// error.
pub open spec fn swap_reads(
    accounts: SwapAccounts,
    data: SwapInstructionData,
) -> Result<SwapPlan, ProgramError> {
    match accounts.pool.data {
        Err(e) => Err(e),
        Ok(bytes) => {
            if bytes.len() != Pool::LEN {
                Err(ProgramError::InvalidAccountData)
            } else {
                match accounts.user_input_account.token {
                    Err(e) => Err(e),
                    Ok(user_input) => match accounts.user_output_account.token {
                        Err(e) => Err(e),
                        Ok(user_output) => swap_decision(
                            accounts,
                            Pool::decode(bytes@),
                            user_input,
                            user_output,
                            data,
                        ),
                    },
                }
            }
        },
    }
}

/// The outcome of a swap: the first check that fails gives the error.
pub open spec fn swap_outcome(
    accounts: Seq<AccountView>,
    instruction: Seq<u8>,
) -> Result<SwapPlan, ProgramError> {
    if accounts.len() < SwapAccounts::COUNT {
        Err(ProgramError::NotEnoughAccountKeys)
    } else if !SwapAccounts::of(accounts).user.is_signer {
        Err(ProgramError::MissingRequiredSignature)
    } else if instruction.len() != SwapInstructionData::LEN {
        Err(ProgramError::InvalidInstructionData)
    } else if SwapInstructionData::decode(instruction).amount_in == 0 {
        Err(ProgramError::InvalidAccountData)
    } else if SwapAccounts::of(accounts).token_program.key != TOKEN_PROGRAM_ID {
        Err(ProgramError::IncorrectProgramId)
    } else {
        swap_reads(SwapAccounts::of(accounts), SwapInstructionData::decode(instruction))
    }
}

/// The record a swap finds in its pool account, where the account holds one.
pub open spec fn swap_pool(accounts: Seq<AccountView>) -> Pool {
    Pool::decode(SwapAccounts::of(accounts).pool.data->Ok_0@)
}

/// Decides a swap: checks the accounts and the payload, resolves the
/// direction, quotes the trade, and answers with the calls to make.
pub fn process_swap(
    _program_id: &Pubkey,
    accounts: &[AccountView],
    instructions: &[u8],
) -> (r: Result<SwapPlan, ProgramError>)
    ensures
        r == swap_outcome(accounts@, instructions@),
        r matches Ok(plan) ==> {
            let named = SwapAccounts::of(accounts@);
            let state = swap_pool(accounts@);
            let data = SwapInstructionData::decode(instructions@);
            &&& if plan.is_a_to_b {
                &&& named.input_mint.key == state.token_a
                &&& named.output_mint.key == state.token_b
                &&& Some(plan.payout.amount) == swap_amount_out(
                    data.amount_in,
                    state.reserve_a,
                    state.reserve_b,
                    state.fee_rate,
                )
            } else {
                &&& named.input_mint.key == state.token_b
                &&& named.output_mint.key == state.token_a
                &&& Some(plan.payout.amount) == swap_amount_out(
                    data.amount_in,
                    state.reserve_b,
                    state.reserve_a,
                    state.fee_rate,
                )
            }
            &&& plan.deposit.amount == data.amount_in
            &&& plan.deposit.amount > 0
            &&& plan.payout.amount >= data.min_amount_out
        },
        r is Ok ==> {
            let named = SwapAccounts::of(accounts@);
            let state = swap_pool(accounts@);
            ||| named.input_mint.key == state.token_a && named.output_mint.key == state.token_b
            ||| named.input_mint.key == state.token_b && named.output_mint.key == state.token_a
        },
{
    let named = SwapAccounts::take(accounts)?;
    validate_signer(named.user)?;
    let data = SwapInstructionData::try_from_bytes(instructions)?;
    validate_non_zero(data.amount_in)?;
    validate_token_program(named.token_program)?;

    let pool_state = Pool::load(named.pool.data?)?;
    let user_input_acc = named.user_input_account.token?;
    let user_output_acc = named.user_output_account.token?;

    let (reserve_in, reserve_out, is_a_to_b) = if pubkey_eq(
        &named.input_mint.key,
        &pool_state.token_a,
    ) && pubkey_eq(&named.output_mint.key, &pool_state.token_b) {
        validate_pubkey_match(&named.input_vault.key, &pool_state.vault_a)?;
        validate_pubkey_match(&named.output_vault.key, &pool_state.vault_b)?;
        (pool_state.reserve_a, pool_state.reserve_b, true)
    } else if pubkey_eq(&named.input_mint.key, &pool_state.token_b) && pubkey_eq(
        &named.output_mint.key,
        &pool_state.token_a,
    ) {
        validate_pubkey_match(&named.input_vault.key, &pool_state.vault_b)?;
        validate_pubkey_match(&named.output_vault.key, &pool_state.vault_a)?;
        (pool_state.reserve_b, pool_state.reserve_a, false)
    } else {
        return Err(ProgramError::IllegalOwner);
    };

    validate_pubkey_match(&user_input_acc.mint, &named.input_mint.key)?;
    validate_pubkey_match(&user_output_acc.mint, &named.output_mint.key)?;
    validate_pubkey_match(&user_input_acc.owner, &named.user.key)?;
    validate_pubkey_match(&user_output_acc.owner, &named.user.key)?;

    let amount_out = quote_swap(data.amount_in, reserve_in, reserve_out, pool_state.fee_rate)?;
    if amount_out < data.min_amount_out {
        return Err(ProgramError::InsufficientFunds);
    }
    Ok(
        SwapPlan {
            deposit: Transfer {
                from: named.user_input_account.key,
                to: named.input_vault.key,
                authority: named.user.key,
                amount: data.amount_in,
            },
            payout: Transfer {
                from: named.output_vault.key,
                to: named.user_output_account.key,
                authority: named.pool.key,
                amount: amount_out,
            },
            is_a_to_b,
            pool_bump: pool_state.bump,
            token_a: pool_state.token_a,
            token_b: pool_state.token_b,
        },
    )
}

impl SwapPlan {
    /// How the pool signs the payout.
    pub open spec fn pool_signature(self) -> Signature {
        Signature::Pool { bump: self.pool_bump, token_a: self.token_a, token_b: self.token_b }
    }

    /// The calls of the plan, in the order they are to be made.
    pub open spec fn calls_in_order(self) -> Seq<Call> {
        seq![
            Call::Transfer(self.deposit, Signature::Transaction),
            Call::Transfer(self.payout, self.pool_signature()),
        ]
    }

    /// The calls to make, in order: the deposit, which the user authorises,
    /// then the payout, which the pool signs.
    pub fn calls(&self) -> (calls: [Call; 2])
        ensures
            calls@ == self.calls_in_order(),
    {
        let calls = [
            Call::Transfer(self.deposit, Signature::Transaction),
            Call::Transfer(
                self.payout,
                Signature::Pool {
                    bump: self.pool_bump,
                    token_a: self.token_a,
                    token_b: self.token_b,
                },
            ),
        ];
        assert(calls@ =~= self.calls_in_order());
        calls
    }

    /// The record once the deposit has reached the input vault and the payout
    /// has left the output vault; nothing where a reserve would leave 64 bits.
    pub open spec fn settled(self, pool: Pool) -> Option<Pool> {
        if self.is_a_to_b {
            if pool.reserve_a + self.deposit.amount > u64::MAX || pool.reserve_b
                < self.payout.amount {
                None
            } else {
                Some(
                    pool.with_reserves(
                        (pool.reserve_a + self.deposit.amount) as u64,
                        (pool.reserve_b - self.payout.amount) as u64,
                    ),
                )
            }
        } else {
            if pool.reserve_b + self.deposit.amount > u64::MAX || pool.reserve_a
                < self.payout.amount {
                None
            } else {
                Some(
                    pool.with_reserves(
                        (pool.reserve_a - self.payout.amount) as u64,
                        (pool.reserve_b + self.deposit.amount) as u64,
                    ),
                )
            }
        }
    }

    /// Commits the swap to the pool record once the token program has
    /// answered. `outcome` is its answer to the plan's calls: the first error,
    /// or success. On any error the record stays byte for byte as it was.
    pub fn settle(
        &self,
        pool_data: &mut [u8],
        outcome: Result<(), ProgramError>,
    ) -> (r: Result<(), ProgramError>)
        ensures
            r == match outcome {
                Err(e) => Err::<(), ProgramError>(e),
                Ok(_) => {
                    if old(pool_data).len() != Pool::LEN {
                        Err(ProgramError::InvalidAccountData)
                    } else if self.settled(Pool::decode(old(pool_data)@)) is None {
                        Err(ProgramError::ArithmeticOverflow)
                    } else {
                        Ok(())
                    }
                },
            },
            r is Err ==> final(pool_data)@ == old(pool_data)@,
            r is Ok ==> final(pool_data)@ == self.settled(
                Pool::decode(old(pool_data)@),
            )->Some_0.encode(),
            r is Ok ==> Some(Pool::decode(final(pool_data)@)) == self.settled(
                Pool::decode(old(pool_data)@),
            ),
            r is Ok && Pool::decode(old(pool_data)@).well_formed() ==> Pool::decode(
                final(pool_data)@,
            ).well_formed(),
    {
        outcome?;
        let mut pool_state = Pool::load(pool_data)?;
        if self.is_a_to_b {
            let reserve_a = pool_state
                .reserve_a
                .checked_add(self.deposit.amount)
                .ok_or(ProgramError::ArithmeticOverflow)?;
            let reserve_b = pool_state
                .reserve_b
                .checked_sub(self.payout.amount)
                .ok_or(ProgramError::ArithmeticOverflow)?;
            pool_state.reserve_a = reserve_a;
            pool_state.reserve_b = reserve_b;
        } else {
            let reserve_b = pool_state
                .reserve_b
                .checked_add(self.deposit.amount)
                .ok_or(ProgramError::ArithmeticOverflow)?;
            let reserve_a = pool_state
                .reserve_a
                .checked_sub(self.payout.amount)
                .ok_or(ProgramError::ArithmeticOverflow)?;
            pool_state.reserve_a = reserve_a;
            pool_state.reserve_b = reserve_b;
        }
        proof {
            lemma_decode_of_encode(pool_state);
        }
        pool_state.store(pool_data)
    }
}

/// Floored division: the quotient times the divisor does not exceed the
/// dividend, and lies within one divisor of it.
proof fn lemma_floor_div(x: int, d: int)
    requires
        0 <= x,
        0 < d,
    ensures
        0 <= x / d,
        (x / d) * d <= x,
        x < (x / d + 1) * d,
{
    assert(0 <= x / d && (x / d) * d <= x && x < (x / d + 1) * d) by (nonlinear_arith)
        requires
            0 <= x,
            0 < d,
    ;
}

/// The constant-product rule over the integers: floor rounding and the fee
/// both work for the pool. The output never exceeds the reserve, and stays
/// below it where both reserves are positive; the product of the reserves
/// never falls, and rises where the fee took something and both reserves are
/// positive.
pub proof fn lemma_quote_keeps_product(
    amount_in: int,
    net: int,
    reserve_in: int,
    reserve_out: int,
    amount_out: int,
)
    requires
        0 <= net <= amount_in,
        0 <= reserve_in,
        0 <= reserve_out,
        0 < reserve_in + net,
        amount_out == reserve_out * net / (reserve_in + net),
    ensures
        0 <= amount_out <= reserve_out,
        0 < reserve_in && 0 < reserve_out ==> amount_out < reserve_out,
        (reserve_in + amount_in) * (reserve_out - amount_out) >= reserve_in * reserve_out,
        net < amount_in && 0 < reserve_in && 0 < reserve_out ==> (reserve_in + amount_in) * (
        reserve_out - amount_out) > reserve_in * reserve_out,
{
    let d = reserve_in + net;
    assert(0 <= reserve_out * net) by (nonlinear_arith)
        requires
            0 <= reserve_out,
            0 <= net,
    ;
    lemma_floor_div(reserve_out * net, d);
    assert(amount_out <= reserve_out) by (nonlinear_arith)
        requires
            amount_out * d <= reserve_out * net,
            0 <= net <= d,
            0 < d,
            0 <= reserve_out,
            0 <= amount_out,
    ;
    assert((reserve_in + net) * (reserve_out - amount_out) >= reserve_in * reserve_out)
        by (nonlinear_arith)
        requires
            amount_out * (reserve_in + net) <= reserve_out * net,
    ;
    assert((reserve_in + amount_in) * (reserve_out - amount_out) >= (reserve_in + net) * (
    reserve_out - amount_out)) by (nonlinear_arith)
        requires
            net <= amount_in,
            amount_out <= reserve_out,
    ;
    if 0 < reserve_in && 0 < reserve_out {
        assert(amount_out < reserve_out) by (nonlinear_arith)
            requires
                amount_out * d <= reserve_out * net,
                d == reserve_in + net,
                0 < reserve_in,
                0 < reserve_out,
                0 <= net,
                0 <= amount_out,
        ;
    }
    if net < amount_in && 0 < reserve_in && 0 < reserve_out {
        assert((reserve_in + amount_in) * (reserve_out - amount_out) > (reserve_in + net) * (
        reserve_out - amount_out)) by (nonlinear_arith)
            requires
                net < amount_in,
                amount_out < reserve_out,
        ;
    }
}

/// The fee never adds to the input, takes from every positive input where it
/// is positive, and takes nothing where it is zero.
pub proof fn lemma_net_amount_bounds(amount_in: u64, fee_rate: u16)
    requires
        swap_net_amount(amount_in, fee_rate) is Some,
    ensures
        swap_net_amount(amount_in, fee_rate)->Some_0 <= amount_in,
        fee_rate > 0 && amount_in > 0 ==> swap_net_amount(amount_in, fee_rate)->Some_0 < amount_in,
        fee_rate == 0 ==> swap_net_amount(amount_in, fee_rate)->Some_0 == amount_in,
{
    let keep = FEE_DENOMINATOR - fee_rate;
    assert(0 <= amount_in * keep <= amount_in * 10000) by (nonlinear_arith)
        requires
            0 <= keep <= 10000,
            0 <= amount_in,
    ;
    if fee_rate > 0 && amount_in > 0 {
        assert(amount_in * keep <= amount_in * 10000 - amount_in) by (nonlinear_arith)
            requires
                0 <= keep <= 9999,
                0 < amount_in,
        ;
    }
}

/// For every quoted swap the product of the reserves does not fall:
/// `(reserve_in + amount_in) * (reserve_out - amount_out)` is at least
/// `reserve_in * reserve_out`. With a positive fee, a positive input and two
/// positive reserves it rises. A swap between two positive reserves never
/// drains the output side.
pub proof fn lemma_swap_product_grows(
    amount_in: u64,
    reserve_in: u64,
    reserve_out: u64,
    fee_rate: u16,
)
    requires
        swap_amount_out(amount_in, reserve_in, reserve_out, fee_rate) is Some,
    ensures
        ({
            let amount_out = swap_amount_out(amount_in, reserve_in, reserve_out, fee_rate)->Some_0;
            &&& amount_out <= reserve_out
            &&& reserve_in > 0 && reserve_out > 0 ==> amount_out < reserve_out
            &&& (reserve_in + amount_in) * (reserve_out - amount_out) >= reserve_in * reserve_out
            &&& fee_rate > 0 && amount_in > 0 && reserve_in > 0 && reserve_out > 0 ==> (reserve_in
                + amount_in) * (reserve_out - amount_out) > reserve_in * reserve_out
        }),
{
    lemma_net_amount_bounds(amount_in, fee_rate);
    let net = swap_net_amount(amount_in, fee_rate)->Some_0;
    let amount_out = swap_amount_out(amount_in, reserve_in, reserve_out, fee_rate)->Some_0;
    lemma_quote_keeps_product(
        amount_in as int,
        net as int,
        reserve_in as int,
        reserve_out as int,
        amount_out as int,
    );
}

/// In a pool with equal reserves and no fee a swap returns at most what it
/// takes, and less for every positive input.
pub proof fn lemma_balanced_swap_returns_less(amount_in: u64, reserve: u64)
    requires
        swap_amount_out(amount_in, reserve, reserve, 0) is Some,
    ensures
        swap_amount_out(amount_in, reserve, reserve, 0)->Some_0 <= amount_in,
        amount_in > 0 ==> swap_amount_out(amount_in, reserve, reserve, 0)->Some_0 < amount_in,
{
    lemma_net_amount_bounds(amount_in, 0);
    let x = amount_in as int;
    let r = reserve as int;
    let out = swap_amount_out(amount_in, reserve, reserve, 0)->Some_0 as int;
    assert(0 <= r * x) by (nonlinear_arith)
        requires
            0 <= r,
            0 <= x,
    ;
    lemma_floor_div(r * x, r + x);
    assert(out <= x) by (nonlinear_arith)
        requires
            out * (r + x) <= r * x,
            0 <= r,
            0 <= x,
            0 < r + x,
            0 <= out,
    ;
    if x > 0 {
        assert(out < x) by (nonlinear_arith)
            requires
                out * (r + x) <= r * x,
                0 <= r,
                0 < x,
                0 <= out,
        ;
    }
}

/// After a swap that the token program carried out and the pool committed,
/// the product of the tracked reserves is at least what it was, and larger
/// where the pool charges a fee and held both reserves.
pub proof fn lemma_swap_settles_with_product(accounts: Seq<AccountView>, instruction: Seq<u8>)
    requires
        swap_outcome(accounts, instruction) is Ok,
        swap_outcome(accounts, instruction)->Ok_0.settled(swap_pool(accounts)) is Some,
    ensures
        ({
            let before = swap_pool(accounts);
            let after = swap_outcome(accounts, instruction)->Ok_0.settled(before)->Some_0;
            &&& after.reserve_a * after.reserve_b >= before.reserve_a * before.reserve_b
            &&& before.fee_rate > 0 && before.reserve_a > 0 && before.reserve_b > 0
                ==> after.reserve_a * after.reserve_b > before.reserve_a * before.reserve_b
        }),
{
    let before = swap_pool(accounts);
    let plan = swap_outcome(accounts, instruction)->Ok_0;
    let data = SwapInstructionData::decode(instruction);
    let after = plan.settled(before)->Some_0;
    if plan.is_a_to_b {
        lemma_swap_product_grows(data.amount_in, before.reserve_a, before.reserve_b, before.fee_rate);
    } else {
        lemma_swap_product_grows(data.amount_in, before.reserve_b, before.reserve_a, before.fee_rate);
        assert(after.reserve_a * after.reserve_b == after.reserve_b * after.reserve_a)
            by (nonlinear_arith);
        assert(before.reserve_a * before.reserve_b == before.reserve_b * before.reserve_a)
            by (nonlinear_arith);
    }
}

/// After a swap whose calls the token program carried out and which the pool
/// committed, the tracked reserves are the vaults' balances, if they were
/// before. The user's two accounts are taken to be other accounts than the
/// vaults: the token program lets nobody but the pool move a vault's units.
pub proof fn lemma_swap_reserves_track_vaults(
    accounts: Seq<AccountView>,
    instruction: Seq<u8>,
    ledger: Ledger,
)
    requires
        swap_outcome(accounts, instruction) is Ok,
        swap_outcome(accounts, instruction)->Ok_0.settled(swap_pool(accounts)) is Some,
        ({
            let named = SwapAccounts::of(accounts);
            let before = swap_pool(accounts);
            &&& before.vault_a != before.vault_b
            &&& named.user_input_account.key != before.vault_a
            &&& named.user_input_account.key != before.vault_b
            &&& named.user_output_account.key != before.vault_a
            &&& named.user_output_account.key != before.vault_b
            &&& ledger.balances[before.vault_a] == before.reserve_a
            &&& ledger.balances[before.vault_b] == before.reserve_b
        }),
    ensures
        ({
            let plan = swap_outcome(accounts, instruction)->Ok_0;
            let after = plan.settled(swap_pool(accounts))->Some_0;
            let moved = after_calls(ledger, plan.calls_in_order());
            &&& moved.balances[after.vault_a] == after.reserve_a
            &&& moved.balances[after.vault_b] == after.reserve_b
            &&& moved.supply == ledger.supply
        }),
{
    let plan = swap_outcome(accounts, instruction)->Ok_0;
    lemma_after_two_calls(
        ledger,
        Call::Transfer(plan.deposit, Signature::Transaction),
        Call::Transfer(plan.payout, plan.pool_signature()),
    );
}

/// A swap in a pool that has issued LP units leaves it holding a reserve: the
/// supply, which a swap does not touch, stays anchored.
pub proof fn lemma_swap_keeps_supply_anchor(
    accounts: Seq<AccountView>,
    instruction: Seq<u8>,
    lp_supply: int,
)
    requires
        swap_outcome(accounts, instruction) is Ok,
        swap_outcome(accounts, instruction)->Ok_0.settled(swap_pool(accounts)) is Some,
        swap_pool(accounts).anchors(lp_supply),
        lp_supply > 0,
    ensures
        swap_outcome(accounts, instruction)->Ok_0.settled(swap_pool(accounts))->Some_0.anchors(
            lp_supply,
        ),
{
}

} // verus!
