use amm_pinocchio::constants::TOKEN_PROGRAM_ID;
use amm_pinocchio::error::ProgramError;
use amm_pinocchio::instructions::validators::{
    validate_instruction_length, validate_non_zero, validate_pubkey_match, validate_signer,
    validate_token_program,
};
use amm_pinocchio::states::account::{pubkey_eq, AccountView};

fn account(key: [u8; 32], is_signer: bool) -> AccountView<'static> {
    AccountView {
        key,
        is_signer,
        data_len: 0,
        data: Ok(&[]),
        token: Err(ProgramError::InvalidAccountData),
        mint: Err(ProgramError::InvalidAccountData),
    }
}

#[test]
fn signer_is_accepted_and_non_signer_refused() {
    assert_eq!(validate_signer(&account([1; 32], true)), Ok(()));
    assert_eq!(
        validate_signer(&account([1; 32], false)),
        Err(ProgramError::MissingRequiredSignature)
    );
}

#[test]
fn token_program_is_recognised_by_its_address() {
    assert_eq!(validate_token_program(&account(TOKEN_PROGRAM_ID, false)), Ok(()));
    let mut other = TOKEN_PROGRAM_ID;
    other[31] ^= 1;
    assert_eq!(
        validate_token_program(&account(other, false)),
        Err(ProgramError::IncorrectProgramId)
    );
    assert_eq!(
        validate_token_program(&account([0; 32], true)),
        Err(ProgramError::IncorrectProgramId)
    );
}

#[test]
fn instruction_length_must_be_exact() {
    assert_eq!(validate_instruction_length(&[0u8; 16], 16), Ok(()));
    assert_eq!(validate_instruction_length(&[], 0), Ok(()));
    assert_eq!(
        validate_instruction_length(&[0u8; 15], 16),
        Err(ProgramError::InvalidInstructionData)
    );
    assert_eq!(
        validate_instruction_length(&[0u8; 17], 16),
        Err(ProgramError::InvalidInstructionData)
    );
}

#[test]
fn pubkeys_must_match_in_every_byte() {
    let a = [7u8; 32];
    assert_eq!(validate_pubkey_match(&a, &[7u8; 32]), Ok(()));
    for i in 0..32 {
        let mut b = a;
        b[i] = 8;
        assert_eq!(validate_pubkey_match(&a, &b), Err(ProgramError::InvalidAccountData));
        assert!(!pubkey_eq(&a, &b));
    }
    assert!(pubkey_eq(&a, &a));
}

#[test]
fn zero_amount_is_refused() {
    assert_eq!(validate_non_zero(0), Err(ProgramError::InvalidAccountData));
    assert_eq!(validate_non_zero(1), Ok(()));
    assert_eq!(validate_non_zero(u64::MAX), Ok(()));
}
