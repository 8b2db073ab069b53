//! Initialize: create a pool and its LP mint.

use vstd::prelude::*;
use crate::codec::{le_u16, read_u16};
use crate::constants::{
    LP_MINT_DECIMALS, MAX_FEE_RATE, MINT_LEN, SYSTEM_PROGRAM_ID, TOKEN_PROGRAM_ID,
};
use crate::error::ProgramError;
use crate::instructions::cpi::{Call, CreateAccount, InitializeMint2, Signature};
use crate::instructions::validators::{
    validate_pubkey_match, validate_signer, validate_token_program,
};
use crate::states::account::{pubkey_eq, AccountView, Pubkey, TokenAccount};
use crate::states::pool::Pool;

verus! {

/// Payload of an initialize: the fee as a little-endian `u16`, then the two
/// bumps.
#[derive(Clone, Copy, Debug, PartialEq, Eq)]
pub struct InitializeInstructionData {
    /// Swap fee in basis points.
    pub fee_rate: u16,
    /// Bump of the pool's address.
    pub pool_bump: u8,
    /// Bump of the LP mint's address.
    pub lp_mint_bump: u8,
}

impl InitializeInstructionData {
    /// Exact length of the payload.
    pub const LEN: usize = 2 + 1 + 1;

    /// The payload that `bytes` spell.
    pub open spec fn decode(bytes: Seq<u8>) -> Self {
        InitializeInstructionData {
            fee_rate: le_u16(bytes.subrange(0, 2)),
            pool_bump: bytes[2],
            lp_mint_bump: bytes[3],
        }
    }

    /// Reads the payload; any other length is refused.
    pub fn try_from_bytes(data: &[u8]) -> (r: Result<Self, ProgramError>)
        ensures
            r == if data.len() == Self::LEN {
                Ok::<Self, ProgramError>(Self::decode(data@))
            } else {
                Err::<Self, ProgramError>(ProgramError::InvalidInstructionData)
            },
    {
        if data.len() != Self::LEN {
            return Err(ProgramError::InvalidInstructionData);
        }
        Ok(
            InitializeInstructionData {
                fee_rate: read_u16(data, 0),
                pool_bump: data[2],
                lp_mint_bump: data[3],
            },
        )
    }
}

/// The accounts of an initialize, in the order the call lists them.
#[derive(Clone, Copy, Debug)]
pub struct InitializeAccounts<'a> {
    /// Who creates the pool and pays for its accounts; must sign.
    pub authority: &'a AccountView<'a>,
    /// The pool account, not yet created.
    pub pool: &'a AccountView<'a>,
    /// Mint of side A.
    pub token_a: &'a AccountView<'a>,
    /// Mint of side B.
    pub token_b: &'a AccountView<'a>,
    /// The LP mint account, not yet created.
    pub lp_mint: &'a AccountView<'a>,
    /// Token account that will hold the A reserve.
    pub vault_a: &'a AccountView<'a>,
    /// Token account that will hold the B reserve.
    pub vault_b: &'a AccountView<'a>,
    /// The system program.
    pub system_program: &'a AccountView<'a>,
    /// The token program.
    pub token_program: &'a AccountView<'a>,
}

impl<'a> InitializeAccounts<'a> {
    /// How many accounts an initialize takes.
    pub const COUNT: usize = 9;

    /// The first nine accounts of the list, by role.
    pub open spec fn of(accounts: Seq<AccountView<'a>>) -> InitializeAccounts<'a> {
        InitializeAccounts {
            authority: &accounts[0],
            pool: &accounts[1],
            token_a: &accounts[2],
            token_b: &accounts[3],
            lp_mint: &accounts[4],
            vault_a: &accounts[5],
            vault_b: &accounts[6],
            system_program: &accounts[7],
            token_program: &accounts[8],
        }
    }

    /// Names the accounts of the list; a shorter list is refused, further
    /// accounts are ignored.
    pub fn take(accounts: &'a [AccountView<'a>]) -> (r: Result<InitializeAccounts<'a>, ProgramError>)
        ensures
            r == if accounts.len() >= Self::COUNT {
                Ok::<InitializeAccounts<'a>, ProgramError>(Self::of(accounts@))
            } else {
                Err::<InitializeAccounts<'a>, ProgramError>(ProgramError::NotEnoughAccountKeys)
            },
    {
        if accounts.len() < Self::COUNT {
            return Err(ProgramError::NotEnoughAccountKeys);
        }
        Ok(
            InitializeAccounts {
                authority: &accounts[0],
                pool: &accounts[1],
                token_a: &accounts[2],
                token_b: &accounts[3],
                lp_mint: &accounts[4],
                vault_a: &accounts[5],
                vault_b: &accounts[6],
                system_program: &accounts[7],
                token_program: &accounts[8],
            },
        )
    }
}

/// What an initialize asks for, in this order: create the pool account,
/// signed under the pool's seeds; write the record into it; create the LP mint
/// account, signed under the LP mint's seeds; initialise the LP mint.
#[derive(Clone, Copy, Debug, PartialEq, Eq)]
pub struct InitializePlan {
    /// Create the pool account, owned by this program.
    pub create_pool: CreateAccount,
    /// The first record of the pool: no reserves yet.
    pub record: Pool,
    /// Create the LP mint account, owned by the token program.
    pub create_lp_mint: CreateAccount,
    /// Initialise the LP mint under the pool's authority.
    pub initialize_lp_mint: InitializeMint2,
}

/// The first record of a pool and the calls that create it.
pub open spec fn initialize_plan(
    program_id: Pubkey,
    accounts: InitializeAccounts,
    data: InitializeInstructionData,
) -> InitializePlan {
    InitializePlan {
        create_pool: CreateAccount {
            from: accounts.authority.key,
            to: accounts.pool.key,
            space: Pool::LEN as u64,
            owner: program_id,
        },
        record: Pool {
            authority: accounts.pool.key,
            token_a: accounts.token_a.key,
            token_b: accounts.token_b.key,
            lp_mint: accounts.lp_mint.key,
            vault_a: accounts.vault_a.key,
            vault_b: accounts.vault_b.key,
            reserve_a: 0,
            reserve_b: 0,
            fee_rate: data.fee_rate,
            bump: data.pool_bump,
            lp_mint_bump: data.lp_mint_bump,
            padding: [0u8, 0u8, 0u8, 0u8],
        },
        create_lp_mint: CreateAccount {
            from: accounts.authority.key,
            to: accounts.lp_mint.key,
            space: MINT_LEN,
            owner: TOKEN_PROGRAM_ID,
        },
        initialize_lp_mint: InitializeMint2 {
            mint: accounts.lp_mint.key,
            decimals: LP_MINT_DECIMALS,
            mint_authority: accounts.pool.key,
            freeze_authority: None,
        },
    }
}

/// What an initialize decides once both vaults have been read: each must
/// hold the mint of its side and no units.
pub open spec fn initialize_decision(
    program_id: Pubkey,
    accounts: InitializeAccounts,
    vault_a: TokenAccount,
    vault_b: TokenAccount,
    data: InitializeInstructionData,
) -> Result<InitializePlan, ProgramError> {
    if vault_a.mint != accounts.token_a.key || vault_a.amount != 0 || vault_b.mint
        != accounts.token_b.key || vault_b.amount != 0 {
        Err(ProgramError::InvalidAccountData)
    } else {
        Ok(initialize_plan(program_id, accounts, data))
    }
}

/// What an initialize reads, in order: vault A, then vault B. The first read
/// that failed ends the call with its error.
pub open spec fn initialize_reads(
    program_id: Pubkey,
    accounts: InitializeAccounts,
    data: InitializeInstructionData,
) -> Result<InitializePlan, ProgramError> {
    match accounts.vault_a.token {
        Err(e) => Err(e),
        Ok(vault_a) => match accounts.vault_b.token {
            Err(e) => Err(e),
            Ok(vault_b) => initialize_decision(program_id, accounts, vault_a, vault_b, data),
        },
    }
}

/// The outcome of an initialize: the first check that fails gives the error.
pub open spec fn initialize_outcome(
    program_id: Pubkey,
    accounts: Seq<AccountView>,
    instruction: Seq<u8>,
) -> Result<InitializePlan, ProgramError> {
    let named = InitializeAccounts::of(accounts);
    if accounts.len() < InitializeAccounts::COUNT {
        Err(ProgramError::NotEnoughAccountKeys)
    } else if !named.authority.is_signer {
        Err(ProgramError::MissingRequiredSignature)
    } else if named.pool.data_len != 0 {
        Err(ProgramError::AccountAlreadyInitialized)
    } else if named.token_a.key == named.token_b.key {
        Err(ProgramError::InvalidArgument)
    } else if named.lp_mint.data_len != 0 {
        Err(ProgramError::AccountAlreadyInitialized)
    } else if named.system_program.key != SYSTEM_PROGRAM_ID || named.token_program.key
        != TOKEN_PROGRAM_ID {
        Err(ProgramError::IncorrectProgramId)
    } else if instruction.len() != InitializeInstructionData::LEN {
        Err(ProgramError::InvalidInstructionData)
    } else if InitializeInstructionData::decode(instruction).fee_rate > MAX_FEE_RATE {
        Err(ProgramError::InvalidArgument)
    } else {
        initialize_reads(program_id, named, InitializeInstructionData::decode(instruction))
    }
}

/// Decides an initialize: checks the accounts and the payload, and answers
/// with the pool's first record and the calls that create the pool and its LP
/// mint. Equal mints and a fee above the limit are refused. The two derived
/// addresses are checked by [`InitializePlan::verify_addresses`], before
/// anything is created.
pub fn process_initialize(
    program_id: &Pubkey,
    accounts: &[AccountView],
    instruction: &[u8],
) -> (r: Result<InitializePlan, ProgramError>)
    ensures
        r == initialize_outcome(*program_id, accounts@, instruction@),
        r matches Ok(plan) ==> {
            &&& plan.record.well_formed()
            &&& plan.record.authority == InitializeAccounts::of(accounts@).pool.key
            &&& plan.record.reserve_a == 0
            &&& plan.record.reserve_b == 0
            &&& plan.record.anchors(0)
            &&& InitializeAccounts::of(accounts@).vault_a.token->Ok_0.amount
                == plan.record.reserve_a
            &&& InitializeAccounts::of(accounts@).vault_b.token->Ok_0.amount
                == plan.record.reserve_b
            &&& plan.record.fee_rate == InitializeInstructionData::decode(instruction@).fee_rate
        },
        r is Ok ==> {
            &&& InitializeAccounts::of(accounts@).token_a.key != InitializeAccounts::of(
                accounts@,
            ).token_b.key
            &&& InitializeInstructionData::decode(instruction@).fee_rate <= MAX_FEE_RATE
        },
{
    let named = InitializeAccounts::take(accounts)?;
    validate_signer(named.authority)?;
    if named.pool.data_len != 0 {
        return Err(ProgramError::AccountAlreadyInitialized);
    }
    if pubkey_eq(&named.token_a.key, &named.token_b.key) {
        return Err(ProgramError::InvalidArgument);
    }
    if named.lp_mint.data_len != 0 {
        return Err(ProgramError::AccountAlreadyInitialized);
    }
    if !pubkey_eq(&named.system_program.key, &SYSTEM_PROGRAM_ID) {
        return Err(ProgramError::IncorrectProgramId);
    }
    validate_token_program(named.token_program)?;
    let data = InitializeInstructionData::try_from_bytes(instruction)?;
    if data.fee_rate > MAX_FEE_RATE {
        return Err(ProgramError::InvalidArgument);
    }
    let vault_a_account = named.vault_a.token?;
    let vault_b_account = named.vault_b.token?;

    validate_pubkey_match(&vault_a_account.mint, &named.token_a.key)?;
    if vault_a_account.amount != 0 {
        return Err(ProgramError::InvalidAccountData);
    }
    validate_pubkey_match(&vault_b_account.mint, &named.token_b.key)?;
    if vault_b_account.amount != 0 {
        return Err(ProgramError::InvalidAccountData);
    }
    Ok(
        InitializePlan {
            create_pool: CreateAccount {
                from: named.authority.key,
                to: named.pool.key,
                space: Pool::LEN as u64,
                owner: *program_id,
            },
            record: Pool {
                authority: named.pool.key,
                token_a: named.token_a.key,
                token_b: named.token_b.key,
                lp_mint: named.lp_mint.key,
                vault_a: named.vault_a.key,
                vault_b: named.vault_b.key,
                reserve_a: 0,
                reserve_b: 0,
                fee_rate: data.fee_rate,
                bump: data.pool_bump,
                lp_mint_bump: data.lp_mint_bump,
                padding: [0u8, 0u8, 0u8, 0u8],
            },
            create_lp_mint: CreateAccount {
                from: named.authority.key,
                to: named.lp_mint.key,
                space: MINT_LEN,
                owner: TOKEN_PROGRAM_ID,
            },
            initialize_lp_mint: InitializeMint2 {
                mint: named.lp_mint.key,
                decimals: LP_MINT_DECIMALS,
                mint_authority: named.pool.key,
                freeze_authority: None,
            },
        },
    )
}

impl InitializePlan {
    /// How the pool account signs its own creation.
    pub open spec fn pool_signature(self) -> Signature {
        Signature::Pool {
            bump: self.record.bump,
            token_a: self.record.token_a,
            token_b: self.record.token_b,
        }
    }

    /// How the LP mint account signs its own creation.
    pub open spec fn lp_mint_signature(self) -> Signature {
        Signature::LpMint { bump: self.record.lp_mint_bump, pool: self.record.authority }
    }

    /// The steps of the plan, in the order they are to be taken.
    pub open spec fn calls_in_order(self) -> Seq<Call> {
        seq![
            Call::CreateAccount(self.create_pool, self.pool_signature()),
            Call::WriteRecord(self.record),
            Call::CreateAccount(self.create_lp_mint, self.lp_mint_signature()),
            Call::InitializeMint2(self.initialize_lp_mint),
        ]
    }

    /// The steps to take, in order: create the pool account, signed under
    /// the pool's seeds; write the record into it; create the LP mint account,
    /// signed under the LP mint's seeds; initialise the LP mint.
    pub fn calls(&self) -> (calls: [Call; 4])
        ensures
            calls@ == self.calls_in_order(),
    {
        let calls = [
            Call::CreateAccount(
                self.create_pool,
                Signature::Pool {
                    bump: self.record.bump,
                    token_a: self.record.token_a,
                    token_b: self.record.token_b,
                },
            ),
            Call::WriteRecord(self.record),
            Call::CreateAccount(
                self.create_lp_mint,
                Signature::LpMint { bump: self.record.lp_mint_bump, pool: self.record.authority },
            ),
            Call::InitializeMint2(self.initialize_lp_mint),
        ];
        assert(calls@ =~= self.calls_in_order());
        calls
    }

    /// Checks the two addresses that the plan's seeds derive against the
    /// accounts given. `pool_address` is what the pool's seed tuple (`pool`,
    /// the two mints in the record's order, the record's bump) derives under
    /// this program, `lp_mint_address` what the LP mint's tuple (`lp_mint`,
    /// the pool's address, the record's LP bump) derives; each is `None` where
    /// the tuple derives no address. Anything but the pool account and the LP
    /// mint account is refused.
    pub fn verify_addresses(
        &self,
        pool_address: Option<Pubkey>,
        lp_mint_address: Option<Pubkey>,
    ) -> (r: Result<(), ProgramError>)
        ensures
            r == if pool_address == Some(self.record.authority) && lp_mint_address == Some(
                self.record.lp_mint,
            ) {
                Ok::<(), ProgramError>(())
            } else {
                Err::<(), ProgramError>(ProgramError::InvalidAccountData)
            },
    {
        validate_pubkey_match(
            &pool_address.ok_or(ProgramError::InvalidAccountData)?,
            &self.record.authority,
        )?;
        validate_pubkey_match(
            &lp_mint_address.ok_or(ProgramError::InvalidAccountData)?,
            &self.record.lp_mint,
        )
    }
}

} // verus!
