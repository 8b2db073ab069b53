//! The pool record and its byte image.

use vstd::prelude::*;
use crate::codec::{
    lemma_bytes_of_le_u16, lemma_bytes_of_le_u64, lemma_le_u16_of_bytes, lemma_le_u64_of_bytes,
    read_pubkey, read_u16, read_u64, u16_le_bytes, u64_le_bytes, write_bytes, write_u16,
    write_u64,
};
use crate::constants::MAX_FEE_RATE;
use crate::error::ProgramError;
use crate::states::account::Pubkey;

verus! {

/// The state of one pool: the only record the program owns.
#[derive(Clone, Copy, Debug, PartialEq, Eq)]
pub struct Pool {
    /// The pool's own address, which signs for the vaults and the LP mint.
    pub authority: Pubkey,
    /// Mint of side A.
    pub token_a: Pubkey,
    /// Mint of side B.
    pub token_b: Pubkey,
    /// Mint of the LP share token.
    pub lp_mint: Pubkey,
    /// Token account that holds the A reserve.
    pub vault_a: Pubkey,
    /// Token account that holds the B reserve.
    pub vault_b: Pubkey,
    /// The A reserve the program tracks.
    pub reserve_a: u64,
    /// The B reserve the program tracks.
    pub reserve_b: u64,
    /// Swap fee in basis points.
    pub fee_rate: u16,
    /// Bump of the pool's address.
    pub bump: u8,
    /// Bump of the LP mint's address.
    pub lp_mint_bump: u8,
    /// Reserved.
    pub padding: [u8; 4],
}

impl Pool {
    /// Size of the byte image.
    pub const LEN: usize = 32 + 32 + 32 + 32 + 32 + 32 + 8 + 8 + 2 + 1 + 1 + 4;

    /// The byte image: the fields in order, integers little-endian.
    pub open spec fn encode(self) -> Seq<u8> {
        self.authority@ + self.token_a@ + self.token_b@ + self.lp_mint@ + self.vault_a@
            + self.vault_b@ + u64_le_bytes(self.reserve_a) + u64_le_bytes(self.reserve_b)
            + u16_le_bytes(self.fee_rate) + seq![self.bump, self.lp_mint_bump] + self.padding@
    }

    /// The record a byte image of `LEN` bytes stands for.
    pub open spec fn decode(bytes: Seq<u8>) -> Pool {
        choose|p: Pool| p.encode() == bytes
    }

    /// What holds of the record after every successful call: two different
    /// mints, a fee within range, the reserved bytes zero.
    pub open spec fn well_formed(self) -> bool {
        &&& self.token_a != self.token_b
        &&& self.fee_rate <= MAX_FEE_RATE
        &&& self.padding@ == seq![0u8, 0u8, 0u8, 0u8]
    }

    /// The anchor between the reserves and the supply of LP units: an empty
    /// pool has issued none, any other pool has issued some.
    pub open spec fn anchors(self, lp_supply: int) -> bool {
        if self.reserve_a == 0 && self.reserve_b == 0 {
            lp_supply == 0
        } else {
            lp_supply > 0
        }
    }

    /// The record with other reserves.
    pub open spec fn with_reserves(self, reserve_a: u64, reserve_b: u64) -> Pool {
        Pool { reserve_a, reserve_b, ..self }
    }

    /// Sets every field.
    pub fn set_inner_full(
        &mut self,
        authority: Pubkey,
        token_a: Pubkey,
        token_b: Pubkey,
        lp_mint: Pubkey,
        vault_a: Pubkey,
        vault_b: Pubkey,
        reserve_a: u64,
        reserve_b: u64,
        fee_rate: u16,
        bump: u8,
        lp_mint_bump: u8,
        padding: [u8; 4],
    )
        ensures
            *final(self) == (Pool {
                authority,
                token_a,
                token_b,
                lp_mint,
                vault_a,
                vault_b,
                reserve_a,
                reserve_b,
                fee_rate,
                bump,
                lp_mint_bump,
                padding,
            }),
    {
        self.authority = authority;
        self.token_a = token_a;
        self.token_b = token_b;
        self.lp_mint = lp_mint;
        self.vault_a = vault_a;
        self.vault_b = vault_b;
        self.reserve_a = reserve_a;
        self.reserve_b = reserve_b;
        self.fee_rate = fee_rate;
        self.bump = bump;
        self.lp_mint_bump = lp_mint_bump;
        self.padding = padding;
    }

    /// Reads a record from its byte image. Any length but `LEN` is refused;
    /// every image of `LEN` bytes is the image of exactly one record, which
    /// is returned.
    pub fn load(data: &[u8]) -> (r: Result<Pool, ProgramError>)
        ensures
            data.len() != Pool::LEN ==> r == Err::<Pool, ProgramError>(
                ProgramError::InvalidAccountData,
            ),
            data.len() == Pool::LEN ==> r == Ok::<Pool, ProgramError>(Pool::decode(data@)),
            data.len() == Pool::LEN ==> Pool::decode(data@).encode() == data@,
    {
        if data.len() != Pool::LEN {
            return Err(ProgramError::InvalidAccountData);
        }
        let mut padding = [0u8; 4];
        padding[0] = data[212];
        padding[1] = data[213];
        padding[2] = data[214];
        padding[3] = data[215];
        let pool = Pool {
            authority: read_pubkey(data, 0),
            token_a: read_pubkey(data, 32),
            token_b: read_pubkey(data, 64),
            lp_mint: read_pubkey(data, 96),
            vault_a: read_pubkey(data, 128),
            vault_b: read_pubkey(data, 160),
            reserve_a: read_u64(data, 192),
            reserve_b: read_u64(data, 200),
            fee_rate: read_u16(data, 208),
            bump: data[210],
            lp_mint_bump: data[211],
            padding,
        };
        proof {
            lemma_bytes_of_le_u64(data@.subrange(192, 200));
            lemma_bytes_of_le_u64(data@.subrange(200, 208));
            lemma_bytes_of_le_u16(data@.subrange(208, 210));
            assert(pool.padding@ =~= data@.subrange(212, 216));
            assert(pool.encode() =~= data@);
            lemma_decode_of_encode(pool);
        }
        Ok(pool)
    }

    /// Writes the record's byte image over `data`, in place. Any length but
    /// `LEN` is refused and nothing is written.
    pub fn store(&self, data: &mut [u8]) -> (r: Result<(), ProgramError>)
        ensures
            old(data).len() != Pool::LEN ==> r == Err::<(), ProgramError>(
                ProgramError::InvalidAccountData,
            ) && final(data)@ == old(data)@,
            old(data).len() == Pool::LEN ==> r == Ok::<(), ProgramError>(()) && final(data)@
                == self.encode(),
    {
        if data.len() != Pool::LEN {
            return Err(ProgramError::InvalidAccountData);
        }
        write_bytes(data, 0, self.authority.as_slice());
        write_bytes(data, 32, self.token_a.as_slice());
        write_bytes(data, 64, self.token_b.as_slice());
        write_bytes(data, 96, self.lp_mint.as_slice());
        write_bytes(data, 128, self.vault_a.as_slice());
        write_bytes(data, 160, self.vault_b.as_slice());
        write_u64(data, 192, self.reserve_a);
        write_u64(data, 200, self.reserve_b);
        write_u16(data, 208, self.fee_rate);
        data[210] = self.bump;
        data[211] = self.lp_mint_bump;
        write_bytes(data, 212, self.padding.as_slice());
        assert(data@ =~= self.encode());
        Ok(())
    }
}

/// Where each field lies in the byte image.
pub proof fn lemma_encode_layout(p: Pool)
    ensures
        p.encode().len() == Pool::LEN,
        p.encode().subrange(0, 32) == p.authority@,
        p.encode().subrange(32, 64) == p.token_a@,
        p.encode().subrange(64, 96) == p.token_b@,
        p.encode().subrange(96, 128) == p.lp_mint@,
        p.encode().subrange(128, 160) == p.vault_a@,
        p.encode().subrange(160, 192) == p.vault_b@,
        p.encode().subrange(192, 200) == u64_le_bytes(p.reserve_a),
        p.encode().subrange(200, 208) == u64_le_bytes(p.reserve_b),
        p.encode().subrange(208, 210) == u16_le_bytes(p.fee_rate),
        p.encode()[210] == p.bump,
        p.encode()[211] == p.lp_mint_bump,
        p.encode().subrange(212, 216) == p.padding@,
{
    let e = p.encode();
    assert(e.subrange(0, 32) =~= p.authority@);
    assert(e.subrange(32, 64) =~= p.token_a@);
    assert(e.subrange(64, 96) =~= p.token_b@);
    assert(e.subrange(96, 128) =~= p.lp_mint@);
    assert(e.subrange(128, 160) =~= p.vault_a@);
    assert(e.subrange(160, 192) =~= p.vault_b@);
    assert(e.subrange(192, 200) =~= u64_le_bytes(p.reserve_a));
    assert(e.subrange(200, 208) =~= u64_le_bytes(p.reserve_b));
    assert(e.subrange(208, 210) =~= u16_le_bytes(p.fee_rate));
    assert(e.subrange(212, 216) =~= p.padding@);
}

/// Two records with the same byte image are the same record.
pub proof fn lemma_encode_injective(p: Pool, q: Pool)
    requires
        p.encode() == q.encode(),
    ensures
        p == q,
{
    lemma_encode_layout(p);
    lemma_encode_layout(q);
    assert(p.authority =~= q.authority);
    assert(p.token_a =~= q.token_a);
    assert(p.token_b =~= q.token_b);
    assert(p.lp_mint =~= q.lp_mint);
    assert(p.vault_a =~= q.vault_a);
    assert(p.vault_b =~= q.vault_b);
    assert(p.padding =~= q.padding);
    lemma_le_u64_of_bytes(p.reserve_a);
    lemma_le_u64_of_bytes(q.reserve_a);
    lemma_le_u64_of_bytes(p.reserve_b);
    lemma_le_u64_of_bytes(q.reserve_b);
    lemma_le_u16_of_bytes(p.fee_rate);
    lemma_le_u16_of_bytes(q.fee_rate);
}

/// Decoding the byte image of a record gives the record back.
pub proof fn lemma_decode_of_encode(p: Pool)
    ensures
        Pool::decode(p.encode()) == p,
{
    lemma_encode_injective(Pool::decode(p.encode()), p);
}

} // verus!
