use amm_pinocchio::constants::{
    FEE_DENOMINATOR, LP_MINT_DECIMALS, LP_MINT_SEED, MAX_FEE_RATE, MINT_LEN, POOL_SEED,
    SYSTEM_PROGRAM_ID, TOKEN_PROGRAM_ID,
};

#[test]
fn seeds_are_the_ascii_strings() {
    assert_eq!(&POOL_SEED[..], "pool".as_bytes());
    assert_eq!(&LP_MINT_SEED[..], "lp_mint".as_bytes());
    assert_eq!(POOL_SEED.len(), 4);
    assert_eq!(LP_MINT_SEED.len(), 7);
}

#[test]
fn token_program_id_is_the_token_program() {
    assert_eq!(TOKEN_PROGRAM_ID, pinocchio_token::ID);
}

#[test]
fn system_program_id_is_the_system_program() {
    assert_eq!(SYSTEM_PROGRAM_ID, pinocchio_system::ID);
    assert_eq!(SYSTEM_PROGRAM_ID, [0u8; 32]);
}

#[test]
fn mint_len_is_the_token_program_mint_length() {
    assert_eq!(MINT_LEN as usize, pinocchio_token::state::Mint::LEN);
}

#[test]
fn fee_limits() {
    assert_eq!(FEE_DENOMINATOR, 10_000);
    assert_eq!(MAX_FEE_RATE, 10_000);
    assert_eq!(LP_MINT_DECIMALS, 6);
}
