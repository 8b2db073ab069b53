//! Add liquidity: deposit both sides and receive LP shares.

use vstd::prelude::*;
use crate::codec::{le_u64, read_u64};
use crate::constants::TOKEN_PROGRAM_ID;
use crate::error::ProgramError;
use crate::helper::{floor_sqrt, integer_sqrt, lemma_floor_sqrt_bounds};
use crate::instructions::cpi::{
    after_calls, lemma_after_three_calls, Call, Ledger, MintTo, Signature, Transfer,
};
use crate::instructions::validators::{
    validate_non_zero, validate_pubkey_match, validate_token_program,
};
use crate::states::account::{AccountView, Mint, Pubkey, TokenAccount};
use crate::states::pool::{lemma_decode_of_encode, Pool};

verus! {

/// Payload of a deposit: three little-endian `u64`.
#[derive(Clone, Copy, Debug, PartialEq, Eq)]
pub struct AddLiquidityInstructionData {
    /// Units of side A to deposit.
    pub amount_a: u64,
    /// Units of side B to deposit.
    pub amount_b: u64,
    /// Least LP units the depositor accepts.
    pub min_lp_amount: u64,
}

impl AddLiquidityInstructionData {
    /// Exact length of the payload.
    pub const LEN: usize = 8 + 8 + 8;

    /// The payload that `bytes` spell.
    pub open spec fn decode(bytes: Seq<u8>) -> Self {
        AddLiquidityInstructionData {
            amount_a: le_u64(bytes.subrange(0, 8)),
            amount_b: le_u64(bytes.subrange(8, 16)),
            min_lp_amount: le_u64(bytes.subrange(16, 24)),
        }
    }

    /// Reads the payload; any other length is refused.
    pub fn try_from_bytes(data: &[u8]) -> (r: Result<Self, ProgramError>)
        ensures
            r == if data.len() == Self::LEN {
                Ok::<Self, ProgramError>(Self::decode(data@))
            } else {
                Err::<Self, ProgramError>(ProgramError::InvalidInstructionData)
            },
    {
        if data.len() != Self::LEN {
            return Err(ProgramError::InvalidInstructionData);
        }
        Ok(
            AddLiquidityInstructionData {
                amount_a: read_u64(data, 0),
                amount_b: read_u64(data, 8),
                min_lp_amount: read_u64(data, 16),
            },
        )
    }
}

/// The accounts of a deposit, in the order the call lists them.
#[derive(Clone, Copy, Debug)]
pub struct AddLiquidityAccounts<'a> {
    /// Who deposits; must sign.
    pub user: &'a AccountView<'a>,
    /// The pool.
    pub pool: &'a AccountView<'a>,
    /// The pool's LP mint.
    pub lp_mint: &'a AccountView<'a>,
    /// The pool's vault for side A.
    pub vault_a: &'a AccountView<'a>,
    /// The pool's vault for side B.
    pub vault_b: &'a AccountView<'a>,
    /// The user's token account for side A.
    pub user_token_a: &'a AccountView<'a>,
    /// The user's token account for side B.
    pub user_token_b: &'a AccountView<'a>,
    /// The user's token account for LP units.
    pub user_lp_token: &'a AccountView<'a>,
    /// The token program.
    pub token_program: &'a AccountView<'a>,
}

impl<'a> AddLiquidityAccounts<'a> {
    /// How many accounts a deposit takes.
    pub const COUNT: usize = 9;

    /// The first nine accounts of the list, by role.
    pub open spec fn of(accounts: Seq<AccountView<'a>>) -> AddLiquidityAccounts<'a> {
        AddLiquidityAccounts {
            user: &accounts[0],
            pool: &accounts[1],
            lp_mint: &accounts[2],
            vault_a: &accounts[3],
            vault_b: &accounts[4],
            user_token_a: &accounts[5],
            user_token_b: &accounts[6],
            user_lp_token: &accounts[7],
            token_program: &accounts[8],
        }
    }

    /// Names the accounts of the list; a shorter list is refused, further
    /// accounts are ignored.
    pub fn take(
        accounts: &'a [AccountView<'a>],
    ) -> (r: Result<AddLiquidityAccounts<'a>, ProgramError>)
        ensures
            r == if accounts.len() >= Self::COUNT {
                Ok::<AddLiquidityAccounts<'a>, ProgramError>(Self::of(accounts@))
            } else {
                Err::<AddLiquidityAccounts<'a>, ProgramError>(ProgramError::NotEnoughAccountKeys)
            },
    {
        if accounts.len() < Self::COUNT {
            return Err(ProgramError::NotEnoughAccountKeys);
        }
        Ok(
            AddLiquidityAccounts {
                user: &accounts[0],
                pool: &accounts[1],
                lp_mint: &accounts[2],
                vault_a: &accounts[3],
                vault_b: &accounts[4],
                user_token_a: &accounts[5],
                user_token_b: &accounts[6],
                user_lp_token: &accounts[7],
                token_program: &accounts[8],
            },
        )
    }
}

/// What a deposit asks of the token program, in this order: the two deposits,
/// authorised by the user, then the mint of LP units, which the pool signs
/// under its seeds.
#[derive(Clone, Copy, Debug, PartialEq, Eq)]
pub struct AddLiquidityPlan {
    /// The user pays A into vault A.
    pub deposit_a: Transfer,
    /// The user pays B into vault B.
    pub deposit_b: Transfer,
    /// The pool mints LP units to the user.
    pub mint_lp: MintTo,
    /// Bump of the pool's address.
    pub pool_bump: u8,
    /// First mint of the pool's seeds.
    pub token_a: Pubkey,
    /// Second mint of the pool's seeds.
    pub token_b: Pubkey,
}

/// The smaller of two numbers.
pub open spec fn min_of(x: int, y: int) -> int {
    if x <= y {
        x
    } else {
        y
    }
}

/// The LP units a deposit earns. Into an empty pool: the floor of the square
/// root of `amount_a * amount_b`. Otherwise the smaller of
/// `amount_a * supply / reserve_a` and `amount_b * supply / reserve_b`, each
/// floored. Nothing where a product leaves 64 bits or a divisor is zero.
pub open spec fn lp_tokens_for_deposit(
    amount_a: u64,
    amount_b: u64,
    reserve_a: u64,
    reserve_b: u64,
    supply: u64,
) -> Option<u64> {
    if reserve_a == 0 && reserve_b == 0 {
        if amount_a * amount_b > u64::MAX {
            None
        } else {
            Some(floor_sqrt((amount_a * amount_b) as nat) as u64)
        }
    } else if amount_a * supply > u64::MAX || reserve_a == 0 || amount_b * supply > u64::MAX
        || reserve_b == 0 {
        None
    } else {
        Some(
            min_of(amount_a * supply / reserve_a as int, amount_b * supply / reserve_b as int) as u64,
        )
    }
}

/// Prices a deposit against the reserves and the LP supply, every step
/// checked.
pub fn quote_deposit(
    amount_a: u64,
    amount_b: u64,
    reserve_a: u64,
    reserve_b: u64,
    supply: u64,
) -> (r: Result<u64, ProgramError>)
    ensures
        r == match lp_tokens_for_deposit(amount_a, amount_b, reserve_a, reserve_b, supply) {
            Some(amount) => Ok::<u64, ProgramError>(amount),
            None => Err::<u64, ProgramError>(ProgramError::ArithmeticOverflow),
        },
{
    if reserve_a == 0 && reserve_b == 0 {
        let product = amount_a.checked_mul(amount_b).ok_or(ProgramError::ArithmeticOverflow)?;
        Ok(integer_sqrt(product))
    } else {
        let a = amount_a
            .checked_mul(supply)
            .ok_or(ProgramError::ArithmeticOverflow)?
            .checked_div(reserve_a)
            .ok_or(ProgramError::ArithmeticOverflow)?;
        let b = amount_b
            .checked_mul(supply)
            .ok_or(ProgramError::ArithmeticOverflow)?
            .checked_div(reserve_b)
            .ok_or(ProgramError::ArithmeticOverflow)?;
        if a <= b {
            Ok(a)
        } else {
            Ok(b)
        }
    }
}

/// What a deposit decides once the pool, the LP mint and the user's three
/// token accounts have been read: that the mint and the vaults are the
/// pool's, that the user's accounts hold the right mints, the LP units, and
/// that they meet the user's minimum.
pub open spec fn add_liquidity_decision(
    accounts: AddLiquidityAccounts,
    state: Pool,
    lp_mint: Mint,
    user_a: TokenAccount,
    user_b: TokenAccount,
    user_lp: TokenAccount,
    data: AddLiquidityInstructionData,
) -> Result<AddLiquidityPlan, ProgramError> {
    if accounts.lp_mint.key != state.lp_mint || accounts.vault_a.key != state.vault_a
        || accounts.vault_b.key != state.vault_b || user_a.mint != state.token_a || user_b.mint
        != state.token_b || user_lp.mint != state.lp_mint {
        Err(ProgramError::InvalidAccountData)
    } else {
        match lp_tokens_for_deposit(
            data.amount_a,
            data.amount_b,
            state.reserve_a,
            state.reserve_b,
            lp_mint.supply,
        ) {
            None => Err(ProgramError::ArithmeticOverflow),
            Some(lp_tokens) => {
                if lp_tokens < data.min_lp_amount {
                    Err(ProgramError::InsufficientFunds)
                } else {
                    Ok(
                        AddLiquidityPlan {
                            deposit_a: Transfer {
                                from: accounts.user_token_a.key,
                                to: accounts.vault_a.key,
                                authority: accounts.user.key,
                                amount: data.amount_a,
                            },
                            deposit_b: Transfer {
                                from: accounts.user_token_b.key,
                                to: accounts.vault_b.key,
                                authority: accounts.user.key,
                                amount: data.amount_b,
                            },
                            mint_lp: MintTo {
                                mint: accounts.lp_mint.key,
                                account: accounts.user_lp_token.key,
                                mint_authority: accounts.pool.key,
                                amount: lp_tokens,
                            },
                            pool_bump: state.bump,
                            token_a: state.token_a,
                            token_b: state.token_b,
                        },
                    )
                }
            },
        }
    }
}

/// What a deposit reads, in order: the pool record, the LP mint, then the
/// user's A, B and LP token accounts. The first read that failed ends the
/// call with its error.
pub open spec fn add_liquidity_reads(
    accounts: AddLiquidityAccounts,
    data: AddLiquidityInstructionData,
) -> Result<AddLiquidityPlan, ProgramError> {
    match accounts.pool.data {
        Err(e) => Err(e),
        Ok(bytes) => {
            if bytes.len() != Pool::LEN {
                Err(ProgramError::InvalidAccountData)
            } else {
                match accounts.lp_mint.mint {
                    Err(e) => Err(e),
                    Ok(lp_mint) => match accounts.user_token_a.token {
                        Err(e) => Err(e),
                        Ok(user_a) => match accounts.user_token_b.token {
                            Err(e) => Err(e),
                            Ok(user_b) => match accounts.user_lp_token.token {
                                Err(e) => Err(e),
                                Ok(user_lp) => add_liquidity_decision(
                                    accounts,
                                    Pool::decode(bytes@),
                                    lp_mint,
                                    user_a,
                                    user_b,
                                    user_lp,
                                    data,
                                ),
                            },
                        },
                    },
                }
            }
        },
    }
}

/// The outcome of a deposit: the first check that fails gives the error.
pub open spec fn add_liquidity_outcome(
    accounts: Seq<AccountView>,
    instruction: Seq<u8>,
) -> Result<AddLiquidityPlan, ProgramError> {
    if accounts.len() < AddLiquidityAccounts::COUNT {
        Err(ProgramError::NotEnoughAccountKeys)
    } else if !AddLiquidityAccounts::of(accounts).user.is_signer {
        Err(ProgramError::IncorrectAuthority)
    } else if instruction.len() != AddLiquidityInstructionData::LEN {
        Err(ProgramError::InvalidInstructionData)
    } else if AddLiquidityInstructionData::decode(instruction).amount_a == 0
        || AddLiquidityInstructionData::decode(instruction).amount_b == 0 {
        Err(ProgramError::InvalidAccountData)
    } else if AddLiquidityAccounts::of(accounts).token_program.key != TOKEN_PROGRAM_ID {
        Err(ProgramError::IncorrectProgramId)
    } else {
        add_liquidity_reads(
            AddLiquidityAccounts::of(accounts),
            AddLiquidityInstructionData::decode(instruction),
        )
    }
}

/// The record a deposit finds in its pool account, where the account holds
/// one.
pub open spec fn add_liquidity_pool(accounts: Seq<AccountView>) -> Pool {
    Pool::decode(AddLiquidityAccounts::of(accounts).pool.data->Ok_0@)
}

/// The LP supply a deposit finds in its LP mint, where the mint could be
/// read.
pub open spec fn add_liquidity_supply(accounts: Seq<AccountView>) -> u64 {
    AddLiquidityAccounts::of(accounts).lp_mint.mint->Ok_0.supply
}

/// Decides a deposit: checks the accounts and the payload, prices the LP
/// units, and answers with the calls to make.
pub fn process_add_liquidity(
    _program_id: &Pubkey,
    accounts: &[AccountView],
    instruction: &[u8],
) -> (r: Result<AddLiquidityPlan, ProgramError>)
    ensures
        r == add_liquidity_outcome(accounts@, instruction@),
        r matches Ok(plan) ==> {
            let state = add_liquidity_pool(accounts@);
            let data = AddLiquidityInstructionData::decode(instruction@);
            &&& plan.deposit_a.amount == data.amount_a
            &&& plan.deposit_b.amount == data.amount_b
            &&& plan.deposit_a.amount > 0
            &&& plan.deposit_b.amount > 0
            &&& Some(plan.mint_lp.amount) == lp_tokens_for_deposit(
                data.amount_a,
                data.amount_b,
                state.reserve_a,
                state.reserve_b,
                add_liquidity_supply(accounts@),
            )
            &&& plan.mint_lp.amount >= data.min_lp_amount
        },
{
    let named = AddLiquidityAccounts::take(accounts)?;
    if !named.user.is_signer {
        return Err(ProgramError::IncorrectAuthority);
    }
    let data = AddLiquidityInstructionData::try_from_bytes(instruction)?;
    validate_non_zero(data.amount_a)?;
    validate_non_zero(data.amount_b)?;
    validate_token_program(named.token_program)?;

    let pool_state = Pool::load(named.pool.data?)?;
    let lp_mint_acc = named.lp_mint.mint?;
    let user_token_a_acc = named.user_token_a.token?;
    let user_token_b_acc = named.user_token_b.token?;
    let user_lp_token_acc = named.user_lp_token.token?;

    validate_pubkey_match(&named.lp_mint.key, &pool_state.lp_mint)?;
    validate_pubkey_match(&named.vault_a.key, &pool_state.vault_a)?;
    validate_pubkey_match(&named.vault_b.key, &pool_state.vault_b)?;
    validate_pubkey_match(&user_token_a_acc.mint, &pool_state.token_a)?;
    validate_pubkey_match(&user_token_b_acc.mint, &pool_state.token_b)?;
    validate_pubkey_match(&user_lp_token_acc.mint, &pool_state.lp_mint)?;

    let lp_tokens_to_mint = quote_deposit(
        data.amount_a,
        data.amount_b,
        pool_state.reserve_a,
        pool_state.reserve_b,
        lp_mint_acc.supply,
    )?;
    if lp_tokens_to_mint < data.min_lp_amount {
        return Err(ProgramError::InsufficientFunds);
    }
    Ok(
        AddLiquidityPlan {
            deposit_a: Transfer {
                from: named.user_token_a.key,
                to: named.vault_a.key,
                authority: named.user.key,
                amount: data.amount_a,
            },
            deposit_b: Transfer {
                from: named.user_token_b.key,
                to: named.vault_b.key,
                authority: named.user.key,
                amount: data.amount_b,
            },
            mint_lp: MintTo {
                mint: named.lp_mint.key,
                account: named.user_lp_token.key,
                mint_authority: named.pool.key,
                amount: lp_tokens_to_mint,
            },
            pool_bump: pool_state.bump,
            token_a: pool_state.token_a,
            token_b: pool_state.token_b,
        },
    )
}

impl AddLiquidityPlan {
    /// How the pool signs the mint of LP units.
    pub open spec fn pool_signature(self) -> Signature {
        Signature::Pool { bump: self.pool_bump, token_a: self.token_a, token_b: self.token_b }
    }

    /// The calls of the plan, in the order they are to be made.
    pub open spec fn calls_in_order(self) -> Seq<Call> {
        seq![
            Call::Transfer(self.deposit_a, Signature::Transaction),
            Call::Transfer(self.deposit_b, Signature::Transaction),
            Call::MintTo(self.mint_lp, self.pool_signature()),
        ]
    }

    /// The calls to make, in order: the two deposits, which the user
    /// authorises, then the mint of LP units, which the pool signs.
    pub fn calls(&self) -> (calls: [Call; 3])
        ensures
            calls@ == self.calls_in_order(),
    {
        let calls = [
            Call::Transfer(self.deposit_a, Signature::Transaction),
            Call::Transfer(self.deposit_b, Signature::Transaction),
            Call::MintTo(
                self.mint_lp,
                Signature::Pool {
                    bump: self.pool_bump,
                    token_a: self.token_a,
                    token_b: self.token_b,
                },
            ),
        ];
        assert(calls@ =~= self.calls_in_order());
        calls
    }

    /// The record once both deposits have reached the vaults; nothing where a
    /// reserve would leave 64 bits.
    pub open spec fn settled(self, pool: Pool) -> Option<Pool> {
        if pool.reserve_a + self.deposit_a.amount > u64::MAX || pool.reserve_b
            + self.deposit_b.amount > u64::MAX {
            None
        } else {
            Some(
                pool.with_reserves(
                    (pool.reserve_a + self.deposit_a.amount) as u64,
                    (pool.reserve_b + self.deposit_b.amount) as u64,
                ),
            )
        }
    }

    /// Commits the deposit to the pool record once the token program has
    /// answered. `outcome` is its answer to the plan's calls: the first error,
    /// or success. On any error the record stays byte for byte as it was.
    pub fn settle(
        &self,
        pool_data: &mut [u8],
        outcome: Result<(), ProgramError>,
    ) -> (r: Result<(), ProgramError>)
        ensures
            r == match outcome {
                Err(e) => Err::<(), ProgramError>(e),
                Ok(_) => {
                    if old(pool_data).len() != Pool::LEN {
                        Err(ProgramError::InvalidAccountData)
                    } else if self.settled(Pool::decode(old(pool_data)@)) is None {
                        Err(ProgramError::ArithmeticOverflow)
                    } else {
                        Ok(())
                    }
                },
            },
            r is Err ==> final(pool_data)@ == old(pool_data)@,
            r is Ok ==> final(pool_data)@ == self.settled(
                Pool::decode(old(pool_data)@),
            )->Some_0.encode(),
            r is Ok ==> Some(Pool::decode(final(pool_data)@)) == self.settled(
                Pool::decode(old(pool_data)@),
            ),
            r is Ok && Pool::decode(old(pool_data)@).well_formed() ==> Pool::decode(
                final(pool_data)@,
            ).well_formed(),
    {
        outcome?;
        let mut pool_state = Pool::load(pool_data)?;
        let reserve_a = pool_state
            .reserve_a
            .checked_add(self.deposit_a.amount)
            .ok_or(ProgramError::ArithmeticOverflow)?;
        let reserve_b = pool_state
            .reserve_b
            .checked_add(self.deposit_b.amount)
            .ok_or(ProgramError::ArithmeticOverflow)?;
        pool_state.reserve_a = reserve_a;
        pool_state.reserve_b = reserve_b;
        proof {
            lemma_decode_of_encode(pool_state);
        }
        pool_state.store(pool_data)
    }
}

/// If `x / s <= y / r` as fractions, then also floored.
proof fn lemma_share_floors(x: int, s: int, y: int, r: int)
    requires
        0 <= x,
        0 < s,
        0 <= y,
        0 < r,
        x * r <= y * s,
    ensures
        x / s <= y / r,
{
    let q = x / s;
    assert(0 <= q && q * s <= x) by (nonlinear_arith)
        requires
            0 <= x,
            0 < s,
            q == x / s,
    ;
    assert(q * r <= y) by (nonlinear_arith)
        requires
            q * s <= x,
            x * r <= y * s,
            0 < s,
            0 < r,
            0 <= q,
    ;
    assert(q <= y / r) by (nonlinear_arith)
        requires
            q * r <= y,
            0 < r,
    ;
}

/// A deposit into a pool that already holds reserves earns no larger a share
/// of the LP supply than it adds to either reserve:
/// `lp / supply <= amount_a / reserve_a` and `lp / supply <= amount_b /
/// reserve_b`, as fractions and floored. The supply thus grows by the factor
/// `1 + lp / supply`, which is at most `1 + amount_a / reserve_a` and at most
/// `1 + amount_b / reserve_b`.
pub proof fn lemma_deposit_share_is_bounded(
    amount_a: u64,
    amount_b: u64,
    reserve_a: u64,
    reserve_b: u64,
    supply: u64,
)
    requires
        !(reserve_a == 0 && reserve_b == 0),
        lp_tokens_for_deposit(amount_a, amount_b, reserve_a, reserve_b, supply) is Some,
    ensures
        ({
            let lp = lp_tokens_for_deposit(amount_a, amount_b, reserve_a, reserve_b, supply)->Some_0;
            &&& reserve_a > 0
            &&& reserve_b > 0
            &&& lp * reserve_a <= amount_a * supply
            &&& lp * reserve_b <= amount_b * supply
            &&& supply > 0 ==> {
                &&& (supply + lp) / supply as int == 1 + lp / supply
                &&& lp / supply <= amount_a / reserve_a
                &&& lp / supply <= amount_b / reserve_b
            }
        }),
{
    let lp = lp_tokens_for_deposit(amount_a, amount_b, reserve_a, reserve_b, supply)->Some_0 as int;
    let (a, b, ra, rb, s) = (
        amount_a as int,
        amount_b as int,
        reserve_a as int,
        reserve_b as int,
        supply as int,
    );
    assert(0 <= a * s && 0 <= b * s) by (nonlinear_arith)
        requires
            0 <= a,
            0 <= b,
            0 <= s,
    ;
    assert((a * s / ra) * ra <= a * s && 0 <= a * s / ra) by (nonlinear_arith)
        requires
            0 <= a * s,
            0 < ra,
    ;
    assert((b * s / rb) * rb <= b * s && 0 <= b * s / rb) by (nonlinear_arith)
        requires
            0 <= b * s,
            0 < rb,
    ;
    assert(lp * ra <= a * s) by (nonlinear_arith)
        requires
            0 <= lp <= a * s / ra,
            (a * s / ra) * ra <= a * s,
            0 < ra,
    ;
    assert(lp * rb <= b * s) by (nonlinear_arith)
        requires
            0 <= lp <= b * s / rb,
            (b * s / rb) * rb <= b * s,
            0 < rb,
    ;
    if s > 0 {
        lemma_share_floors(lp, s, a, ra);
        lemma_share_floors(lp, s, b, rb);
        assert((s + lp) / s == 1 + lp / s) by (nonlinear_arith)
            requires
                0 < s,
                0 <= lp,
        ;
    }
}

/// After a deposit whose calls the token program carried out and which the
/// pool committed, both reserves have grown and are the vaults' balances, if
/// they were before, and the LP supply has grown by the units minted. The
/// user's accounts are taken to be other accounts than the vaults: the token
/// program lets nobody but the pool move a vault's units.
pub proof fn lemma_deposit_reserves_track_vaults(
    accounts: Seq<AccountView>,
    instruction: Seq<u8>,
    ledger: Ledger,
)
    requires
        add_liquidity_outcome(accounts, instruction) is Ok,
        add_liquidity_outcome(accounts, instruction)->Ok_0.settled(
            add_liquidity_pool(accounts),
        ) is Some,
        ({
            let named = AddLiquidityAccounts::of(accounts);
            let before = add_liquidity_pool(accounts);
            &&& before.vault_a != before.vault_b
            &&& named.user_token_a.key != before.vault_a
            &&& named.user_token_a.key != before.vault_b
            &&& named.user_token_b.key != before.vault_a
            &&& named.user_token_b.key != before.vault_b
            &&& named.user_lp_token.key != before.vault_a
            &&& named.user_lp_token.key != before.vault_b
            &&& ledger.balances[before.vault_a] == before.reserve_a
            &&& ledger.balances[before.vault_b] == before.reserve_b
        }),
    ensures
        ({
            let before = add_liquidity_pool(accounts);
            let plan = add_liquidity_outcome(accounts, instruction)->Ok_0;
            let after = plan.settled(before)->Some_0;
            let moved = after_calls(ledger, plan.calls_in_order());
            &&& moved.balances[after.vault_a] == after.reserve_a
            &&& moved.balances[after.vault_b] == after.reserve_b
            &&& moved.supply[before.lp_mint] == ledger.supply[before.lp_mint] + plan.mint_lp.amount
            &&& after.reserve_a > before.reserve_a
            &&& after.reserve_b > before.reserve_b
        }),
{
    let plan = add_liquidity_outcome(accounts, instruction)->Ok_0;
    lemma_after_three_calls(
        ledger,
        Call::Transfer(plan.deposit_a, Signature::Transaction),
        Call::Transfer(plan.deposit_b, Signature::Transaction),
        Call::MintTo(plan.mint_lp, plan.pool_signature()),
    );
}

/// A deposit keeps the supply of LP units anchored: afterwards the pool holds
/// reserves and the supply, grown by the units minted, is positive. Into an
/// empty pool at least one unit is minted.
pub proof fn lemma_deposit_keeps_supply_anchor(accounts: Seq<AccountView>, instruction: Seq<u8>)
    requires
        add_liquidity_outcome(accounts, instruction) is Ok,
        add_liquidity_outcome(accounts, instruction)->Ok_0.settled(
            add_liquidity_pool(accounts),
        ) is Some,
        add_liquidity_pool(accounts).anchors(add_liquidity_supply(accounts) as int),
    ensures
        ({
            let before = add_liquidity_pool(accounts);
            let plan = add_liquidity_outcome(accounts, instruction)->Ok_0;
            &&& plan.settled(before)->Some_0.anchors(
                add_liquidity_supply(accounts) + plan.mint_lp.amount,
            )
            &&& before.reserve_a == 0 && before.reserve_b == 0 ==> plan.mint_lp.amount >= 1
        }),
{
    let before = add_liquidity_pool(accounts);
    let data = AddLiquidityInstructionData::decode(instruction);
    if before.reserve_a == 0 && before.reserve_b == 0 {
        let product = (data.amount_a * data.amount_b) as nat;
        assert(product >= 1) by (nonlinear_arith)
            requires
                product == data.amount_a * data.amount_b,
                data.amount_a >= 1,
                data.amount_b >= 1,
        ;
        lemma_floor_sqrt_bounds(product);
    }
}

} // verus!
