use amm_pinocchio::constants::{SYSTEM_PROGRAM_ID, TOKEN_PROGRAM_ID};
use amm_pinocchio::entrypoint::{process_instruction, Plan};
use amm_pinocchio::error::ProgramError;
use amm_pinocchio::instructions::cpi::{Call, CreateAccount, InitializeMint2, Signature};
use amm_pinocchio::instructions::initializer::{
    process_initialize, InitializeAccounts, InitializeInstructionData, InitializePlan,
};
use amm_pinocchio::states::account::{AccountView, Mint, TokenAccount};
use amm_pinocchio::states::pool::Pool;

const PROGRAM_ID: [u8; 32] = [0x0f; 32];
const AUTHORITY: [u8; 32] = [0x01; 32];
const POOL: [u8; 32] = [0x0b; 32];
const TOKEN_A: [u8; 32] = [0x03; 32];
const TOKEN_B: [u8; 32] = [0x02; 32];
const LP_MINT: [u8; 32] = [0x0c; 32];
const VAULT_A: [u8; 32] = [0x05; 32];
const VAULT_B: [u8; 32] = [0x06; 32];
const POOL_BUMP: u8 = 254;
const LP_MINT_BUMP: u8 = 253;

fn parse_payload(data: &[u8]) -> Result<InitializeInstructionData, ProgramError> {
    InitializeInstructionData::try_from_bytes(data)
}

fn plain(key: [u8; 32]) -> AccountView<'static> {
    AccountView {
        key,
        is_signer: false,
        data_len: 0,
        data: Ok(&[]),
        token: Err(ProgramError::InvalidAccountData),
        mint: Err(ProgramError::InvalidAccountData),
    }
}

fn signer(key: [u8; 32]) -> AccountView<'static> {
    AccountView { is_signer: true, ..plain(key) }
}

fn with_token(key: [u8; 32], mint: [u8; 32], owner: [u8; 32], amount: u64) -> AccountView<'static> {
    AccountView {
        data_len: 165,
        token: Ok(TokenAccount { mint, owner, amount }),
        ..plain(key)
    }
}

fn with_mint(key: [u8; 32], supply: u64) -> AccountView<'static> {
    AccountView { data_len: 82, mint: Ok(Mint { supply }), ..plain(key) }
}

/// authority, pool, mint A, mint B, LP mint, vault A, vault B, system
/// program, token program.
fn accounts() -> [AccountView<'static>; 9] {
    [
        signer(AUTHORITY),
        plain(POOL),
        with_mint(TOKEN_A, 100_000_000),
        with_mint(TOKEN_B, 200_000_000),
        plain(LP_MINT),
        with_token(VAULT_A, TOKEN_A, POOL, 0),
        with_token(VAULT_B, TOKEN_B, POOL, 0),
        plain(SYSTEM_PROGRAM_ID),
        plain(TOKEN_PROGRAM_ID),
    ]
}

fn payload(fee_rate: u16) -> Vec<u8> {
    let mut data = Vec::new();
    data.extend_from_slice(&fee_rate.to_le_bytes());
    data.push(POOL_BUMP);
    data.push(LP_MINT_BUMP);
    data
}

#[test]
fn test_instruction_data_parsing() {
    let cases = [
        ([100, 0, 254, 255], 100u16, 254u8, 255u8),
        ([244, 1, 253, 252], 500u16, 253u8, 252u8),
        ([16, 39, 251, 250], 10_000u16, 251u8, 250u8),
    ];

    for (input, expected_fee, expected_pool_bump, expected_lp_bump) in cases {
        let ix_data = parse_payload(&input).unwrap();
        assert_eq!(ix_data.fee_rate, expected_fee);
        assert_eq!(ix_data.pool_bump, expected_pool_bump);
        assert_eq!(ix_data.lp_mint_bump, expected_lp_bump);
    }
}

#[test]
fn test_instruction_data_parsing_with_insufficient_data() {
    let data = [30];
    let result = parse_payload(&data);
    assert!(result.is_err());
}

#[test]
fn test_parsing_with_extra_bytes() {
    let data = [50, 0, 253, 254, 255, 255];
    let result = parse_payload(&data[..4]);
    assert!(result.is_ok());
    let ix_data = result.unwrap();
    assert_eq!(ix_data.fee_rate, 50);
    assert_eq!(ix_data.pool_bump, 253);
    assert_eq!(ix_data.lp_mint_bump, 254);
}

#[test]
fn parsing_refuses_extra_bytes() {
    let data = [50, 0, 253, 254, 255, 255];
    assert_eq!(parse_payload(&data), Err(ProgramError::InvalidInstructionData));
    assert_eq!(parse_payload(&data[..5]), Err(ProgramError::InvalidInstructionData));
    assert_eq!(parse_payload(&[]), Err(ProgramError::InvalidInstructionData));
    assert_eq!(InitializeInstructionData::LEN, 4);
}

#[test]
fn test_initialize_success() {
    let fee_rate: u16 = 30;

    let mut data = vec![0u8];
    data.extend_from_slice(&fee_rate.to_le_bytes());
    data.push(POOL_BUMP);
    data.push(LP_MINT_BUMP);

    let result = process_instruction(&PROGRAM_ID, &accounts(), &data);

    assert!(!result.is_err());
    match result.unwrap() {
        Plan::Initialize(plan) => {
            assert_eq!(plan.verify_addresses(Some(POOL), Some(LP_MINT)), Ok(()));
        }
        other => panic!("not an initialize: {:?}", other),
    }
}

#[test]
fn initialize_writes_the_first_record_and_creates_the_lp_mint() {
    let plan = process_initialize(&PROGRAM_ID, &accounts(), &payload(30)).unwrap();
    assert_eq!(
        plan,
        InitializePlan {
            create_pool: CreateAccount {
                from: AUTHORITY,
                to: POOL,
                space: 216,
                owner: PROGRAM_ID,
            },
            record: Pool {
                authority: POOL,
                token_a: TOKEN_A,
                token_b: TOKEN_B,
                lp_mint: LP_MINT,
                vault_a: VAULT_A,
                vault_b: VAULT_B,
                reserve_a: 0,
                reserve_b: 0,
                fee_rate: 30,
                bump: POOL_BUMP,
                lp_mint_bump: LP_MINT_BUMP,
                padding: [0; 4],
            },
            create_lp_mint: CreateAccount {
                from: AUTHORITY,
                to: LP_MINT,
                space: 82,
                owner: TOKEN_PROGRAM_ID,
            },
            initialize_lp_mint: InitializeMint2 {
                mint: LP_MINT,
                decimals: 6,
                mint_authority: POOL,
                freeze_authority: None,
            },
        }
    );
    let mut image = [0xffu8; 216];
    assert_eq!(plan.record.store(&mut image), Ok(()));
    assert_eq!(Pool::load(&image), Ok(plan.record));
}

#[test]
fn initialize_refuses_equal_mints() {
    let mut accounts = accounts();
    accounts[3] = with_mint(TOKEN_A, 200_000_000);
    accounts[6] = with_token(VAULT_B, TOKEN_A, POOL, 0);
    assert_eq!(
        process_initialize(&PROGRAM_ID, &accounts, &payload(30)),
        Err(ProgramError::InvalidArgument)
    );
}

#[test]
fn initialize_refuses_a_fee_above_the_denominator() {
    assert_eq!(
        process_initialize(&PROGRAM_ID, &accounts(), &payload(10_001)),
        Err(ProgramError::InvalidArgument)
    );
    assert_eq!(
        process_initialize(&PROGRAM_ID, &accounts(), &payload(u16::MAX)),
        Err(ProgramError::InvalidArgument)
    );
    assert!(process_initialize(&PROGRAM_ID, &accounts(), &payload(10_000)).is_ok());
    assert!(process_initialize(&PROGRAM_ID, &accounts(), &payload(0)).is_ok());
}

#[test]
fn initialize_refuses_addresses_that_the_seeds_do_not_derive() {
    let plan = process_initialize(&PROGRAM_ID, &accounts(), &payload(30)).unwrap();
    let other = [0x77u8; 32];
    assert_eq!(plan.verify_addresses(Some(POOL), Some(LP_MINT)), Ok(()));
    for (pool, lp_mint) in [
        (Some(other), Some(LP_MINT)),
        (Some(POOL), Some(other)),
        (Some(LP_MINT), Some(POOL)),
        (None, Some(LP_MINT)),
        (Some(POOL), None),
        (None, None),
    ] {
        assert_eq!(
            plan.verify_addresses(pool, lp_mint),
            Err(ProgramError::InvalidAccountData)
        );
    }
}

#[test]
fn initialize_needs_nine_accounts() {
    let accounts = accounts();
    for n in 0..9 {
        assert_eq!(
            process_initialize(&PROGRAM_ID, &accounts[..n], &payload(30)),
            Err(ProgramError::NotEnoughAccountKeys)
        );
    }
}

#[test]
fn initialize_needs_the_authority_signature() {
    let mut accounts = accounts();
    accounts[0] = plain(AUTHORITY);
    assert_eq!(
        process_initialize(&PROGRAM_ID, &accounts, &payload(30)),
        Err(ProgramError::MissingRequiredSignature)
    );
}

#[test]
fn initialize_refuses_accounts_that_already_hold_data() {
    let mut accounts = accounts();
    accounts[1].data_len = 216;
    assert_eq!(
        process_initialize(&PROGRAM_ID, &accounts, &payload(30)),
        Err(ProgramError::AccountAlreadyInitialized)
    );
    let mut accounts = self::accounts();
    accounts[4].data_len = 82;
    assert_eq!(
        process_initialize(&PROGRAM_ID, &accounts, &payload(30)),
        Err(ProgramError::AccountAlreadyInitialized)
    );
}

#[test]
fn initialize_needs_the_system_and_token_programs() {
    let mut accounts = accounts();
    accounts[7] = plain(TOKEN_PROGRAM_ID);
    assert_eq!(
        process_initialize(&PROGRAM_ID, &accounts, &payload(30)),
        Err(ProgramError::IncorrectProgramId)
    );
    let mut accounts = self::accounts();
    accounts[8] = plain(SYSTEM_PROGRAM_ID);
    assert_eq!(
        process_initialize(&PROGRAM_ID, &accounts, &payload(30)),
        Err(ProgramError::IncorrectProgramId)
    );
}

#[test]
fn initialize_payload_length_is_exact() {
    let mut long = payload(30);
    long.push(0);
    assert_eq!(
        process_initialize(&PROGRAM_ID, &accounts(), &long),
        Err(ProgramError::InvalidInstructionData)
    );
    assert_eq!(
        process_initialize(&PROGRAM_ID, &accounts(), &payload(30)[..3]),
        Err(ProgramError::InvalidInstructionData)
    );
}

#[test]
fn initialize_passes_failed_vault_reads_on_in_order() {
    let mut accounts = accounts();
    accounts[6].token = Err(ProgramError::Foreign(7));
    assert_eq!(
        process_initialize(&PROGRAM_ID, &accounts, &payload(30)),
        Err(ProgramError::Foreign(7))
    );
    accounts[5].token = Err(ProgramError::Foreign(6));
    assert_eq!(
        process_initialize(&PROGRAM_ID, &accounts, &payload(30)),
        Err(ProgramError::Foreign(6))
    );
}

#[test]
fn initialize_needs_empty_vaults_of_the_right_mints() {
    let wrong = [
        (5, with_token(VAULT_A, TOKEN_B, POOL, 0)),
        (5, with_token(VAULT_A, TOKEN_A, POOL, 1)),
        (6, with_token(VAULT_B, TOKEN_A, POOL, 0)),
        (6, with_token(VAULT_B, TOKEN_B, POOL, 1)),
    ];
    for (slot, account) in wrong {
        let mut accounts = accounts();
        accounts[slot] = account;
        assert_eq!(
            process_initialize(&PROGRAM_ID, &accounts, &payload(30)),
            Err(ProgramError::InvalidAccountData)
        );
    }
}

#[test]
fn initialize_accounts_are_named_in_the_order_listed() {
    let accounts = accounts();
    let named = InitializeAccounts::take(&accounts).unwrap();
    assert_eq!(named.authority.key, AUTHORITY);
    assert_eq!(named.pool.key, POOL);
    assert_eq!(named.token_a.key, TOKEN_A);
    assert_eq!(named.token_b.key, TOKEN_B);
    assert_eq!(named.lp_mint.key, LP_MINT);
    assert_eq!(named.vault_a.key, VAULT_A);
    assert_eq!(named.vault_b.key, VAULT_B);
    assert_eq!(named.system_program.key, SYSTEM_PROGRAM_ID);
    assert_eq!(named.token_program.key, TOKEN_PROGRAM_ID);
    assert_eq!(
        InitializeAccounts::take(&accounts[..8]).err(),
        Some(ProgramError::NotEnoughAccountKeys)
    );
}

#[test]
fn initialize_starts_with_reserves_equal_to_the_empty_vaults() {
    let accounts = accounts();
    let plan = process_initialize(&PROGRAM_ID, &accounts, &payload(30)).unwrap();
    assert_eq!(plan.record.reserve_a, accounts[5].token.unwrap().amount);
    assert_eq!(plan.record.reserve_b, accounts[6].token.unwrap().amount);
    assert_eq!((plan.record.reserve_a, plan.record.reserve_b), (0, 0));
}

#[test]
fn initialize_steps_create_write_create_initialise() {
    let plan = process_initialize(&PROGRAM_ID, &accounts(), &payload(30)).unwrap();
    assert_eq!(
        plan.calls(),
        [
            Call::CreateAccount(
                plan.create_pool,
                Signature::Pool { bump: POOL_BUMP, token_a: TOKEN_A, token_b: TOKEN_B }
            ),
            Call::WriteRecord(plan.record),
            Call::CreateAccount(
                plan.create_lp_mint,
                Signature::LpMint { bump: LP_MINT_BUMP, pool: POOL }
            ),
            Call::InitializeMint2(plan.initialize_lp_mint),
        ]
    );
}
