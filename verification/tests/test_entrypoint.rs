use amm_pinocchio::constants::{SYSTEM_PROGRAM_ID, TOKEN_PROGRAM_ID};
use amm_pinocchio::entrypoint::{process_instruction, Plan};
use amm_pinocchio::error::ProgramError;
use amm_pinocchio::states::account::{AccountView, TokenAccount};

const PROGRAM_ID: [u8; 32] = [0x0f; 32];

fn plain(key: [u8; 32]) -> AccountView<'static> {
    AccountView {
        key,
        is_signer: false,
        data_len: 0,
        data: Ok(&[]),
        token: Err(ProgramError::InvalidAccountData),
        mint: Err(ProgramError::InvalidAccountData),
    }
}

fn vault(key: [u8; 32], mint: [u8; 32]) -> AccountView<'static> {
    AccountView {
        data_len: 165,
        token: Ok(TokenAccount { mint, owner: [0x0b; 32], amount: 0 }),
        ..plain(key)
    }
}

fn initialize_accounts() -> [AccountView<'static>; 9] {
    [
        AccountView { is_signer: true, ..plain([0x01; 32]) },
        plain([0x0b; 32]),
        plain([0x03; 32]),
        plain([0x02; 32]),
        plain([0x0c; 32]),
        vault([0x05; 32], [0x03; 32]),
        vault([0x06; 32], [0x02; 32]),
        plain(SYSTEM_PROGRAM_ID),
        plain(TOKEN_PROGRAM_ID),
    ]
}

#[test]
fn empty_payload_is_refused() {
    assert_eq!(
        process_instruction(&PROGRAM_ID, &initialize_accounts(), &[]),
        Err(ProgramError::InvalidInstructionData)
    );
}

#[test]
fn unknown_discriminators_are_refused() {
    for discriminator in 4..=255u8 {
        assert_eq!(
            process_instruction(&PROGRAM_ID, &initialize_accounts(), &[discriminator, 30, 0, 1, 2]),
            Err(ProgramError::InvalidInstructionData)
        );
    }
}

#[test]
fn discriminator_zero_selects_initialize() {
    match process_instruction(&PROGRAM_ID, &initialize_accounts(), &[0, 30, 0, 254, 253]) {
        Ok(Plan::Initialize(plan)) => {
            assert_eq!(plan.record.fee_rate, 30);
            assert_eq!(plan.record.bump, 254);
            assert_eq!(plan.record.lp_mint_bump, 253);
            assert_eq!(plan.create_pool.owner, PROGRAM_ID);
        }
        other => panic!("not an initialize: {:?}", other),
    }
}

#[test]
fn each_discriminator_reaches_its_own_handler() {
    // No account signed: each handler answers with its own error for that.
    let accounts = [plain([0x01; 32]); 9];
    assert_eq!(
        process_instruction(&PROGRAM_ID, &accounts, &[0]),
        Err(ProgramError::MissingRequiredSignature)
    );
    assert_eq!(
        process_instruction(&PROGRAM_ID, &accounts, &[1]),
        Err(ProgramError::IncorrectAuthority)
    );
    assert_eq!(
        process_instruction(&PROGRAM_ID, &accounts, &[2]),
        Err(ProgramError::MissingRequiredSignature)
    );
    assert_eq!(
        process_instruction(&PROGRAM_ID, &accounts, &[3]),
        Err(ProgramError::MissingRequiredSignature)
    );
}

#[test]
fn the_handler_gets_the_payload_without_the_discriminator() {
    // Four bytes after the discriminator is the exact length of initialize.
    assert!(process_instruction(&PROGRAM_ID, &initialize_accounts(), &[0, 30, 0, 1, 2]).is_ok());
    assert_eq!(
        process_instruction(&PROGRAM_ID, &initialize_accounts(), &[0, 30, 0, 1]),
        Err(ProgramError::InvalidInstructionData)
    );
    assert_eq!(
        process_instruction(&PROGRAM_ID, &initialize_accounts(), &[0, 30, 0, 1, 2, 3]),
        Err(ProgramError::InvalidInstructionData)
    );
}
