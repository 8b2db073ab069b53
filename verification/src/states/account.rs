//! What a handler sees of the accounts it is given.

use vstd::prelude::*;
use crate::error::ProgramError;

verus! {

/// A 32-byte account address.
pub type Pubkey = [u8; 32];

/// What the token program reports of a token account.
#[derive(Clone, Copy, Debug, PartialEq, Eq)]
pub struct TokenAccount {
    /// The mint the account holds units of.
    pub mint: Pubkey,
    /// Who may move the units.
    pub owner: Pubkey,
    /// The units held.
    pub amount: u64,
}

/// What the token program reports of a mint.
#[derive(Clone, Copy, Debug, PartialEq, Eq)]
pub struct Mint {
    /// The units in circulation.
    pub supply: u64,
}

/// One account of a call, as read before the handler decides.
///
/// `data`, `token` and `mint` each hold what the attempt to read the account
/// that way gave: its bytes, its state as a token account, its state as a
/// mint, or the error the read ended in. A handler looks only at the readings
/// it needs, in its own order.
#[derive(Clone, Copy, Debug)]
pub struct AccountView<'a> {
    /// The account's address.
    pub key: Pubkey,
    /// Whether the account signed the transaction.
    pub is_signer: bool,
    /// Length of the account's data, as the runtime reports it.
    pub data_len: usize,
    /// The account's data.
    pub data: Result<&'a [u8], ProgramError>,
    /// The account read as a token account.
    pub token: Result<TokenAccount, ProgramError>,
    /// The account read as a mint.
    pub mint: Result<Mint, ProgramError>,
}

/// Whether two addresses are the same.
pub fn pubkey_eq(a: &Pubkey, b: &Pubkey) -> (same: bool)
    ensures
        same == (*a == *b),
{
    let mut i: usize = 0;
    while i < 32
        invariant
            i <= 32,
            forall|j: int| 0 <= j < i ==> a[j] == b[j],
        decreases 32 - i,
    {
        if a[i] != b[i] {
            return false;
        }
        i += 1;
    }
    assert(*a =~= *b);
    true
}

} // verus!
