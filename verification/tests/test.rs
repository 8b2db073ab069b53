use amm_pinocchio::error::ProgramError;
use amm_pinocchio::states::pool::Pool;

fn sample_pool() -> Pool {
    Pool {
        authority: [0x11; 32],
        token_a: [0x03; 32],
        token_b: [0x02; 32],
        lp_mint: [0x44; 32],
        vault_a: [0x05; 32],
        vault_b: [0x09; 32],
        reserve_a: 0x0102_0304_0506_0708,
        reserve_b: 110_000,
        fee_rate: 0x1234,
        bump: 254,
        lp_mint_bump: 253,
        padding: [0; 4],
    }
}

#[test]
fn test_pool_size() {
    println!("Size of Pool::LEN = {} bytes", Pool::LEN);
    println!(
        "Size of mem::size_of = {} bytes",
        core::mem::size_of::<Pool>()
    );
    assert_eq!(Pool::LEN, core::mem::size_of::<Pool>());
}

#[test]
fn pool_len_is_216() {
    assert_eq!(Pool::LEN, 216);
}

#[test]
fn pool_store_lays_fields_out_in_order() {
    let pool = sample_pool();
    let mut image = [0xffu8; 216];
    assert_eq!(pool.store(&mut image), Ok(()));
    assert_eq!(&image[0..32], &[0x11u8; 32][..]);
    assert_eq!(&image[32..64], &[0x03u8; 32][..]);
    assert_eq!(&image[64..96], &[0x02u8; 32][..]);
    assert_eq!(&image[96..128], &[0x44u8; 32][..]);
    assert_eq!(&image[128..160], &[0x05u8; 32][..]);
    assert_eq!(&image[160..192], &[0x09u8; 32][..]);
    assert_eq!(
        &image[192..200],
        &[0x08u8, 0x07, 0x06, 0x05, 0x04, 0x03, 0x02, 0x01][..]
    );
    assert_eq!(&image[200..208], &110_000u64.to_le_bytes()[..]);
    assert_eq!(&image[208..210], &[0x34u8, 0x12][..]);
    assert_eq!(image[210], 254);
    assert_eq!(image[211], 253);
    assert_eq!(&image[212..216], &[0u8; 4][..]);
}

#[test]
fn pool_load_reads_what_store_wrote() {
    let pool = sample_pool();
    let mut image = [0u8; 216];
    pool.store(&mut image).unwrap();
    assert_eq!(Pool::load(&image), Ok(pool));
}

#[test]
fn pool_load_then_store_is_byte_identical() {
    let mut image = [0u8; 216];
    for (i, byte) in image.iter_mut().enumerate() {
        *byte = (i * 7 + 3) as u8;
    }
    let pool = Pool::load(&image).unwrap();
    assert_eq!(pool.padding, [image[212], image[213], image[214], image[215]]);
    let mut again = [0u8; 216];
    pool.store(&mut again).unwrap();
    assert_eq!(&again[..], &image[..]);
}

#[test]
fn pool_load_reads_little_endian_integers() {
    let mut image = [0u8; 216];
    image[192] = 0x40;
    image[193] = 0x0d;
    image[194] = 0x03;
    image[200] = 0xff;
    image[207] = 0x80;
    image[208] = 30;
    let pool = Pool::load(&image).unwrap();
    assert_eq!(pool.reserve_a, 200_000);
    assert_eq!(pool.reserve_b, 0x8000_0000_0000_00ff);
    assert_eq!(pool.fee_rate, 30);
}

#[test]
fn pool_load_refuses_other_lengths() {
    assert_eq!(Pool::load(&[0u8; 215]), Err(ProgramError::InvalidAccountData));
    assert_eq!(Pool::load(&[0u8; 217]), Err(ProgramError::InvalidAccountData));
    assert_eq!(Pool::load(&[]), Err(ProgramError::InvalidAccountData));
}

#[test]
fn pool_store_refuses_other_lengths_and_writes_nothing() {
    let pool = sample_pool();
    let mut short = [0xabu8; 215];
    assert_eq!(pool.store(&mut short), Err(ProgramError::InvalidAccountData));
    assert_eq!(&short[..], &[0xabu8; 215][..]);
    let mut long = [0xabu8; 217];
    assert_eq!(pool.store(&mut long), Err(ProgramError::InvalidAccountData));
    assert_eq!(&long[..], &[0xabu8; 217][..]);
}

#[test]
fn pool_set_inner_full_sets_every_field() {
    let mut pool = sample_pool();
    pool.set_inner_full(
        [1; 32],
        [2; 32],
        [3; 32],
        [4; 32],
        [5; 32],
        [6; 32],
        7,
        8,
        9,
        10,
        11,
        [12, 13, 14, 15],
    );
    assert_eq!(
        pool,
        Pool {
            authority: [1; 32],
            token_a: [2; 32],
            token_b: [3; 32],
            lp_mint: [4; 32],
            vault_a: [5; 32],
            vault_b: [6; 32],
            reserve_a: 7,
            reserve_b: 8,
            fee_rate: 9,
            bump: 10,
            lp_mint_bump: 11,
            padding: [12, 13, 14, 15],
        }
    );
}
