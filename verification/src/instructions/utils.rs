//! The seed tuples of the two derived addresses, and the pool's signing data.

use vstd::prelude::*;
use crate::constants::{LP_MINT_SEED, POOL_SEED};
use crate::error::ProgramError;
use crate::states::account::{AccountView, Pubkey};
use crate::states::pool::Pool;

verus! {

/// One seed of a derived address.
#[derive(Clone, Copy, Debug)]
pub struct Seed<'a> {
    /// The seed's bytes.
    pub bytes: &'a [u8],
}

/// The seeds under which the program signs for one derived address.
#[derive(Clone, Copy, Debug)]
pub struct Signer<'a, 'b> {
    /// The seeds, in order.
    pub seeds: &'a [Seed<'b>],
}

/// The bytes of each seed, in order.
pub open spec fn seed_bytes(seeds: Seq<Seed>) -> Seq<Seq<u8>> {
    Seq::new(seeds.len(), |i: int| seeds[i].bytes@)
}

/// The seed tuple of a pool's address: `pool`, the two mints, the bump.
pub open spec fn pool_seeds(bump: u8, token_a: Pubkey, token_b: Pubkey) -> Seq<Seq<u8>> {
    seq![POOL_SEED@, token_a@, token_b@, seq![bump]]
}

/// The seed tuple of an LP mint's address: `lp_mint`, the pool, the bump.
pub open spec fn lp_mint_seeds(bump: u8, pool: Pubkey) -> Seq<Seq<u8>> {
    seq![LP_MINT_SEED@, pool@, seq![bump]]
}

/// The seeds of the pool's address. The mints are taken in the order given:
/// the pool of (A, B) is not the pool of (B, A).
pub fn create_pool_seed<'a>(
    pool_bump: &'a [u8; 1],
    token_a: &'a Pubkey,
    token_b: &'a Pubkey,
) -> (seeds: [Seed<'a>; 4])
    ensures
        seed_bytes(seeds@) == pool_seeds(pool_bump[0], *token_a, *token_b),
{
    let seeds = [
        Seed { bytes: POOL_SEED.as_slice() },
        Seed { bytes: token_a.as_slice() },
        Seed { bytes: token_b.as_slice() },
        Seed { bytes: pool_bump.as_slice() },
    ];
    proof {
        assert(pool_bump@ =~= seq![pool_bump[0]]);
        assert(seed_bytes(seeds@) =~= pool_seeds(pool_bump[0], *token_a, *token_b));
    }
    seeds
}

/// The seeds of the LP mint's address.
pub fn create_lp_mint_seed<'a>(
    lp_mint_bump: &'a [u8; 1],
    pool: &'a Pubkey,
) -> (seeds: [Seed<'a>; 3])
    ensures
        seed_bytes(seeds@) == lp_mint_seeds(lp_mint_bump[0], *pool),
{
    let seeds = [
        Seed { bytes: LP_MINT_SEED.as_slice() },
        Seed { bytes: pool.as_slice() },
        Seed { bytes: lp_mint_bump.as_slice() },
    ];
    proof {
        assert(lp_mint_bump@ =~= seq![lp_mint_bump[0]]);
        assert(seed_bytes(seeds@) =~= lp_mint_seeds(lp_mint_bump[0], *pool));
    }
    seeds
}

/// The signer that replays the pool's seeds.
pub fn create_pool_signer<'a, 'b>(pool_seed: &'a [Seed<'b>; 4]) -> (signer: Signer<'a, 'b>)
    ensures
        signer.seeds@ == pool_seed@,
{
    Signer { seeds: pool_seed.as_slice() }
}

/// What the pool signs under, read from the pool account: the bump and the
/// two mints.
pub fn load_pool_data(pool: &AccountView) -> (r: Result<(u8, Pubkey, Pubkey), ProgramError>)
    ensures
        r == match pool.data {
            Err(e) => Err::<(u8, Pubkey, Pubkey), ProgramError>(e),
            Ok(bytes) => if bytes.len() != Pool::LEN {
                Err(ProgramError::InvalidAccountData)
            } else {
                Ok(
                    (
                        Pool::decode(bytes@).bump,
                        Pool::decode(bytes@).token_a,
                        Pool::decode(bytes@).token_b,
                    ),
                )
            },
        },
{
    let pool_state = Pool::load(pool.data?)?;
    Ok((pool_state.bump, pool_state.token_a, pool_state.token_b))
}

} // verus!
