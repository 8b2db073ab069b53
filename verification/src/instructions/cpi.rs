//! The cross-program calls a handler asks for, as plain values, and what the
//! token program holds once it has carried them out.

use vstd::prelude::*;
use crate::states::account::Pubkey;
use crate::states::pool::Pool;

verus! {

/// Move `amount` units from one token account to another.
#[derive(Clone, Copy, Debug, PartialEq, Eq)]
pub struct Transfer {
    /// The account debited.
    pub from: Pubkey,
    /// The account credited.
    pub to: Pubkey,
    /// Who authorises the debit.
    pub authority: Pubkey,
    /// The units moved.
    pub amount: u64,
}

/// Mint `amount` new units into a token account.
#[derive(Clone, Copy, Debug, PartialEq, Eq)]
pub struct MintTo {
    /// The mint whose supply grows.
    pub mint: Pubkey,
    /// The account credited.
    pub account: Pubkey,
    /// The mint's authority.
    pub mint_authority: Pubkey,
    /// The units minted.
    pub amount: u64,
}

/// Burn `amount` units out of a token account.
#[derive(Clone, Copy, Debug, PartialEq, Eq)]
pub struct Burn {
    /// The account debited.
    pub account: Pubkey,
    /// The mint whose supply shrinks.
    pub mint: Pubkey,
    /// Who authorises the burn.
    pub authority: Pubkey,
    /// The units burnt.
    pub amount: u64,
}

/// Create an account through the system program, funded to rent exemption.
#[derive(Clone, Copy, Debug, PartialEq, Eq)]
pub struct CreateAccount {
    /// Who pays.
    pub from: Pubkey,
    /// The account created.
    pub to: Pubkey,
    /// Bytes of data to allocate.
    pub space: u64,
    /// The program that will own the account.
    pub owner: Pubkey,
}

/// Initialise a freshly created mint.
#[derive(Clone, Copy, Debug, PartialEq, Eq)]
pub struct InitializeMint2 {
    /// The mint.
    pub mint: Pubkey,
    /// Its decimals.
    pub decimals: u8,
    /// Who may mint.
    pub mint_authority: Pubkey,
    /// Who may freeze accounts, if anyone.
    pub freeze_authority: Option<Pubkey>,
}

/// Who signs a call, besides the signers of the transaction.
#[derive(Clone, Copy, Debug, PartialEq, Eq)]
pub enum Signature {
    /// Nobody: a signer of the transaction authorises the call.
    Transaction,
    /// The program, for a pool's address, under the pool's seed tuple.
    Pool {
        /// Bump of the pool's address.
        bump: u8,
        /// First mint of the tuple.
        token_a: Pubkey,
        /// Second mint of the tuple.
        token_b: Pubkey,
    },
    /// The program, for an LP mint's address, under the LP mint's seed tuple.
    LpMint {
        /// Bump of the LP mint's address.
        bump: u8,
        /// The pool of the tuple.
        pool: Pubkey,
    },
}

/// One step of a plan.
#[derive(Clone, Copy, Debug, PartialEq, Eq)]
pub enum Call {
    /// Create an account through the system program.
    CreateAccount(CreateAccount, Signature),
    /// Write a pool record into the pool account.
    WriteRecord(Pool),
    /// Initialise a mint through the token program.
    InitializeMint2(InitializeMint2),
    /// Move units through the token program.
    Transfer(Transfer, Signature),
    /// Mint units through the token program.
    MintTo(MintTo, Signature),
    /// Burn units through the token program.
    Burn(Burn, Signature),
}

/// What the token program holds: the units in each token account, and the
/// units each mint has issued.
pub struct Ledger {
    /// Units held, by token account.
    pub balances: Map<Pubkey, int>,
    /// Units issued, by mint.
    pub supply: Map<Pubkey, int>,
}

/// The ledger after a transfer that the token program accepted.
pub open spec fn after_transfer(ledger: Ledger, t: Transfer) -> Ledger {
    if t.from == t.to {
        ledger
    } else {
        Ledger {
            balances: ledger.balances.insert(t.from, ledger.balances[t.from] - t.amount).insert(
                t.to,
                ledger.balances[t.to] + t.amount,
            ),
            supply: ledger.supply,
        }
    }
}

/// The ledger after a mint that the token program accepted.
pub open spec fn after_mint_to(ledger: Ledger, m: MintTo) -> Ledger {
    Ledger {
        balances: ledger.balances.insert(m.account, ledger.balances[m.account] + m.amount),
        supply: ledger.supply.insert(m.mint, ledger.supply[m.mint] + m.amount),
    }
}

/// The ledger after a burn that the token program accepted.
pub open spec fn after_burn(ledger: Ledger, b: Burn) -> Ledger {
    Ledger {
        balances: ledger.balances.insert(b.account, ledger.balances[b.account] - b.amount),
        supply: ledger.supply.insert(b.mint, ledger.supply[b.mint] - b.amount),
    }
}

/// The ledger after one call that was accepted. Calls that move no units
/// leave it as it is.
pub open spec fn after_call(ledger: Ledger, call: Call) -> Ledger {
    match call {
        Call::Transfer(t, _) => after_transfer(ledger, t),
        Call::MintTo(m, _) => after_mint_to(ledger, m),
        Call::Burn(b, _) => after_burn(ledger, b),
        _ => ledger,
    }
}

/// The ledger after a sequence of calls, each accepted, carried out in order.
pub open spec fn after_calls(ledger: Ledger, calls: Seq<Call>) -> Ledger
    decreases calls.len(),
{
    if calls.len() == 0 {
        ledger
    } else {
        after_call(after_calls(ledger, calls.drop_last()), calls.last())
    }
}

/// Two calls in order: the second acts on what the first left.
pub proof fn lemma_after_two_calls(ledger: Ledger, first: Call, second: Call)
    ensures
        after_calls(ledger, seq![first, second]) == after_call(after_call(ledger, first), second),
{
    assert(seq![first, second].drop_last() =~= seq![first]);
    assert(seq![first].drop_last() =~= Seq::<Call>::empty());
    reveal_with_fuel(after_calls, 3);
}

/// Three calls in order: each acts on what the one before left.
pub proof fn lemma_after_three_calls(ledger: Ledger, first: Call, second: Call, third: Call)
    ensures
        after_calls(ledger, seq![first, second, third]) == after_call(
            after_call(after_call(ledger, first), second),
            third,
        ),
{
    assert(seq![first, second, third].drop_last() =~= seq![first, second]);
    lemma_after_two_calls(ledger, first, second);
    reveal_with_fuel(after_calls, 2);
}

} // verus!
