//! Seeds, well-known addresses and limits.

use vstd::prelude::*;
use crate::states::Pubkey;

verus! {

/// The ASCII bytes of `pool`: first seed of a pool's address.
pub const POOL_SEED: [u8; 4] = [0x70, 0x6f, 0x6f, 0x6c];

/// The ASCII bytes of `lp_mint`: first seed of an LP mint's address.
pub const LP_MINT_SEED: [u8; 7] = [0x6c, 0x70, 0x5f, 0x6d, 0x69, 0x6e, 0x74];

/// Address of the system program.
pub const SYSTEM_PROGRAM_ID: Pubkey = [
    0, 0, 0, 0, 0, 0, 0, 0, 0, 0, 0, 0, 0, 0, 0, 0,
    0, 0, 0, 0, 0, 0, 0, 0, 0, 0, 0, 0, 0, 0, 0, 0,
];

/// Address of the token program.
pub const TOKEN_PROGRAM_ID: Pubkey = [
    6, 221, 246, 225, 215, 101, 161, 147, 217, 203, 225, 70, 206, 235, 121, 172,
    28, 180, 133, 237, 95, 91, 55, 145, 58, 140, 245, 133, 126, 255, 0, 169,
];

/// Denominator of the swap fee: fees are in basis points.
pub const FEE_DENOMINATOR: u64 = 10_000;

/// Largest fee a pool may charge, in basis points.
pub const MAX_FEE_RATE: u16 = 10_000;

/// Decimals of every LP mint.
pub const LP_MINT_DECIMALS: u8 = 6;

/// Size in bytes of a mint account of the token program.
pub const MINT_LEN: u64 = 82;

} // verus!
