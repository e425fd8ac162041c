use stake_api::account::{AccountData, Config, KeyedAccount, Rent, RewardsPointValue};
use stake_api::builder::{deactivate_stake, delegate_stake, redeem_vote_credits, withdraw, Instruction};
use stake_api::error::{InstructionError, StakeError};
use stake_api::ids::{clock_id, config_id, rent_id, rewards_id, stake_history_id};
use stake_api::instruction::StakeInstruction;
use stake_api::processor;
use stake_api::pubkey::Pubkey;
use stake_api::state::{Authorized, Clock, Lockup};
use stake_api::warmup::StakeHistory;

fn default_account(key: Pubkey, is_signer: bool) -> KeyedAccount {
    KeyedAccount { key, is_signer, lamports: 0, data: AccountData::Empty }
}

fn clock_account(key: Pubkey) -> KeyedAccount {
    KeyedAccount {
        key,
        is_signer: false,
        lamports: 1,
        data: AccountData::Clock(Clock { epoch: 0, unix_timestamp: 0 }),
    }
}

fn rewards_account(key: Pubkey) -> KeyedAccount {
    KeyedAccount {
        key,
        is_signer: false,
        lamports: 1,
        data: AccountData::Rewards(RewardsPointValue { epoch: 0, lamports_per_point: 0 }),
    }
}

fn history_account(key: Pubkey) -> KeyedAccount {
    KeyedAccount {
        key,
        is_signer: false,
        lamports: 1,
        data: AccountData::StakeHistory(StakeHistory { entries: vec![] }),
    }
}

fn config_account(key: Pubkey) -> KeyedAccount {
    KeyedAccount { key, is_signer: false, lamports: 1, data: AccountData::Config(Config::default()) }
}

fn process_instruction(instruction: &Instruction) -> Result<(), InstructionError> {
    let mut accounts: Vec<KeyedAccount> = instruction
        .accounts
        .iter()
        .map(|meta| {
            let mut account = if meta.pubkey == clock_id() {
                clock_account(meta.pubkey)
            } else if meta.pubkey == rewards_id() {
                rewards_account(meta.pubkey)
            } else if meta.pubkey == stake_history_id() {
                history_account(meta.pubkey)
            } else if meta.pubkey == config_id() {
                config_account(meta.pubkey)
            } else if meta.pubkey == rent_id() {
                KeyedAccount {
                    key: meta.pubkey,
                    is_signer: false,
                    lamports: 1,
                    data: AccountData::Rent(Rent::default()),
                }
            } else {
                default_account(meta.pubkey, false)
            };
            account.is_signer = meta.is_signer;
            account
        })
        .collect();
    processor::process_instruction(&Pubkey::default(), &mut accounts, &instruction.data)
}

#[test]
fn test_stake_process_instruction() {
    assert_eq!(
        process_instruction(&redeem_vote_credits(
            &Pubkey::default(),
            &Pubkey::default(),
            &Pubkey::new([9; 32])
        )),
        Err(InstructionError::InvalidAccountData),
    );
    assert_eq!(
        process_instruction(&delegate_stake(
            &Pubkey::default(),
            &Pubkey::default(),
            &Pubkey::default()
        )),
        Err(InstructionError::InvalidAccountData),
    );
    assert_eq!(
        process_instruction(&withdraw(
            &Pubkey::default(),
            &Pubkey::default(),
            &Pubkey::new([7; 32]),
            100
        )),
        Err(InstructionError::InvalidAccountData),
    );
    assert_eq!(
        process_instruction(&deactivate_stake(&Pubkey::default(), &Pubkey::default())),
        Err(InstructionError::InvalidAccountData),
    );
}

#[test]
fn test_stake_process_instruction_decode_bail() {
    // these will not call stake_state, have bogus contents

    // gets the "is_empty()" check
    assert_eq!(
        processor::process_instruction(
            &Pubkey::default(),
            &mut vec![],
            &StakeInstruction::Initialize(Authorized::default(), Lockup::default()).encode(),
        ),
        Err(InstructionError::InvalidInstructionData),
    );

    // gets the first check in delegate, wrong number of accounts
    assert_eq!(
        processor::process_instruction(
            &Pubkey::default(),
            &mut vec![default_account(Pubkey::default(), false)],
            &StakeInstruction::DelegateStake.encode(),
        ),
        Err(InstructionError::InvalidInstructionData),
    );

    // gets the sub-check for number of args
    assert_eq!(
        processor::process_instruction(
            &Pubkey::default(),
            &mut vec![default_account(Pubkey::default(), false)],
            &StakeInstruction::DelegateStake.encode(),
        ),
        Err(InstructionError::InvalidInstructionData),
    );

    // catches the number of args check
    assert_eq!(
        processor::process_instruction(
            &Pubkey::default(),
            &mut vec![
                default_account(Pubkey::default(), false),
                default_account(Pubkey::default(), false),
            ],
            &StakeInstruction::RedeemVoteCredits.encode(),
        ),
        Err(InstructionError::InvalidInstructionData),
    );

    // catches the type of args check
    assert_eq!(
        processor::process_instruction(
            &Pubkey::default(),
            &mut vec![
                default_account(Pubkey::default(), false),
                default_account(Pubkey::default(), false),
                default_account(Pubkey::default(), false),
                default_account(Pubkey::default(), false),
                default_account(Pubkey::default(), false),
            ],
            &StakeInstruction::RedeemVoteCredits.encode(),
        ),
        Err(InstructionError::InvalidArgument),
    );

    // gets the check non-deserialize-able account in delegate_stake
    assert_eq!(
        processor::process_instruction(
            &Pubkey::default(),
            &mut vec![
                default_account(Pubkey::default(), true),
                default_account(Pubkey::default(), false),
                clock_account(clock_id()),
                config_account(config_id()),
            ],
            &StakeInstruction::DelegateStake.encode(),
        ),
        Err(InstructionError::InvalidAccountData),
    );

    // gets the deserialization checks in redeem_vote_credits
    assert_eq!(
        processor::process_instruction(
            &Pubkey::default(),
            &mut vec![
                default_account(Pubkey::default(), false),
                default_account(Pubkey::default(), false),
                default_account(Pubkey::default(), false),
                rewards_account(rewards_id()),
                history_account(stake_history_id()),
            ],
            &StakeInstruction::RedeemVoteCredits.encode(),
        ),
        Err(InstructionError::InvalidAccountData),
    );

    // Tests 3rd keyed account is of correct type (Clock instead of rewards) in withdraw
    assert_eq!(
        processor::process_instruction(
            &Pubkey::default(),
            &mut vec![
                default_account(Pubkey::default(), false),
                default_account(Pubkey::default(), false),
                rewards_account(rewards_id()),
                history_account(stake_history_id()),
            ],
            &StakeInstruction::Withdraw(42).encode(),
        ),
        Err(InstructionError::InvalidArgument),
    );

    // Tests correct number of accounts are provided in withdraw
    assert_eq!(
        processor::process_instruction(
            &Pubkey::default(),
            &mut vec![
                default_account(Pubkey::default(), false),
                rewards_account(clock_id()),
                history_account(stake_history_id()),
            ],
            &StakeInstruction::Withdraw(42).encode(),
        ),
        Err(InstructionError::InvalidInstructionData),
    );

    // Tests 2nd keyed account is of correct type (Clock instead of rewards) in deactivate
    assert_eq!(
        processor::process_instruction(
            &Pubkey::default(),
            &mut vec![default_account(Pubkey::default(), false), rewards_account(rewards_id())],
            &StakeInstruction::Deactivate.encode(),
        ),
        Err(InstructionError::InvalidArgument),
    );

    // Tests correct number of accounts are provided in deactivate
    assert_eq!(
        processor::process_instruction(
            &Pubkey::default(),
            &mut vec![rewards_account(clock_id())],
            &StakeInstruction::Deactivate.encode(),
        ),
        Err(InstructionError::InvalidInstructionData),
    );
}

fn pretty_err(err: InstructionError) -> String {
    if let InstructionError::CustomError(code) = err {
        let specific_error = StakeError::from_code(code).unwrap();
        format!(
            "{:?}: {}::{:?} - {}",
            err,
            StakeError::type_of(),
            specific_error,
            specific_error.message(),
        )
    } else {
        "".to_string()
    }
}

#[test]
fn test_custom_error_decode() {
    assert_eq!(
        "CustomError(0): StakeError::NoCreditsToRedeem - not enough credits to redeem",
        pretty_err(StakeError::NoCreditsToRedeem.into())
    )
}
