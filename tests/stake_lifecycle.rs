use stake_api::account::{AccountData, Config, KeyedAccount, Rent, RewardsPointValue, VoteState};
use stake_api::builder::{self, AccountMeta, Instructions};
use stake_api::error::{InstructionError, StakeError};
use stake_api::ids::{clock_id, config_id, program_id, rent_id, rewards_id, stake_history_id};
use stake_api::instruction::StakeInstruction;
use stake_api::processor::process_instruction;
use stake_api::pubkey::Pubkey;
use stake_api::state::{
    Authorized, Clock, Delegation, Lockup, Meta, Stake, StakeAuthorize, StakeState, EPOCH_MAX,
};
use stake_api::warmup::{StakeHistory, StakeHistoryEntry, DEFAULT_WARMUP_COOLDOWN_RATE_BPS};

fn key(b: u8) -> Pubkey {
    Pubkey::new([b; 32])
}

fn staker() -> Pubkey {
    key(1)
}
fn withdrawer() -> Pubkey {
    key(2)
}
fn custodian() -> Pubkey {
    key(3)
}
fn voter() -> Pubkey {
    key(4)
}
fn stake_key() -> Pubkey {
    key(5)
}

fn account(key: Pubkey, is_signer: bool, lamports: u64, data: AccountData) -> KeyedAccount {
    KeyedAccount { key, is_signer, lamports, data }
}

fn signer(k: Pubkey) -> KeyedAccount {
    account(k, true, 0, AccountData::Empty)
}

fn clock_at(epoch: u64) -> KeyedAccount {
    account(clock_id(), false, 1, AccountData::Clock(Clock { epoch, unix_timestamp: 0 }))
}

fn rent_account() -> KeyedAccount {
    account(rent_id(), false, 1, AccountData::Rent(Rent::default()))
}

fn config_account() -> KeyedAccount {
    account(config_id(), false, 1, AccountData::Config(Config::default()))
}

fn roomy_history(from: u64, to: u64) -> StakeHistory {
    let mut entries = vec![];
    for e in from..to {
        entries.push((e, StakeHistoryEntry { effective: 40_000_000, activating: 7_717_120, deactivating: 0 }));
    }
    StakeHistory { entries }
}

fn history_account(h: StakeHistory) -> KeyedAccount {
    account(stake_history_id(), false, 1, AccountData::StakeHistory(h))
}

fn authorized() -> Authorized {
    Authorized { staker: staker(), withdrawer: withdrawer() }
}

fn lockup_until(epoch: u64) -> Lockup {
    Lockup { unix_timestamp: 0, epoch, custodian: custodian() }
}

fn meta(reserve: u64, lockup: Lockup) -> Meta {
    Meta { rent_exempt_reserve: reserve, authorized: authorized(), lockup }
}

fn delegated(stake: u64, activation: u64, credits: u64) -> Stake {
    Stake {
        delegation: Delegation {
            voter_pubkey: voter(),
            stake,
            activation_epoch: activation,
            deactivation_epoch: EPOCH_MAX,
        },
        credits_observed: credits,
    }
}

fn stake_account(lamports: u64, state: StakeState) -> KeyedAccount {
    account(stake_key(), false, lamports, AccountData::Stake(state))
}

fn state_of(a: &KeyedAccount) -> StakeState {
    match &a.data {
        AccountData::Stake(s) => *s,
        _ => panic!("not a stake account"),
    }
}

// ------------------------------------------------------------------ codec

#[test]
fn wire_form_matches_bincode() {
    assert_eq!(
        StakeInstruction::Withdraw(42).encode(),
        bincode::serialize(&(4u32, 42u64)).unwrap()
    );
    assert_eq!(
        StakeInstruction::Authorize(key(5), StakeAuthorize::Withdrawer).encode(),
        bincode::serialize(&(1u32, [5u8; 32], 1u32)).unwrap()
    );
    let ix = StakeInstruction::Initialize(
        authorized(),
        Lockup { unix_timestamp: -5, epoch: 7, custodian: custodian() },
    );
    assert_eq!(
        ix.encode(),
        bincode::serialize(&(0u32, [1u8; 32], [2u8; 32], -5i64, 7u64, [3u8; 32])).unwrap()
    );
    assert_eq!(StakeInstruction::Deactivate.encode(), vec![5, 0, 0, 0]);
}

#[test]
fn every_variant_round_trips() {
    let all = [
        StakeInstruction::Initialize(authorized(), lockup_until(9)),
        StakeInstruction::Authorize(key(8), StakeAuthorize::Staker),
        StakeInstruction::Authorize(key(8), StakeAuthorize::Withdrawer),
        StakeInstruction::DelegateStake,
        StakeInstruction::RedeemVoteCredits,
        StakeInstruction::Withdraw(u64::MAX),
        StakeInstruction::Deactivate,
    ];
    for ix in all.iter() {
        let bytes = ix.encode();
        let back = StakeInstruction::decode(&bytes).unwrap();
        assert_eq!(back, *ix);
        assert_eq!(back.encode(), bytes);
    }
}

#[test]
fn decode_is_fail_closed() {
    assert_eq!(StakeInstruction::decode(&[]), None);
    assert_eq!(StakeInstruction::decode(&[2, 0, 0]), None);
    assert_eq!(StakeInstruction::decode(&[6, 0, 0, 0]), None);
    assert_eq!(StakeInstruction::decode(&[2, 0, 0, 0, 0]), None);
    assert_eq!(StakeInstruction::decode(&[4, 0, 0, 0, 1, 2, 3]), None);
    let mut bad_role = StakeInstruction::Authorize(key(8), StakeAuthorize::Staker).encode();
    bad_role[36] = 2;
    assert_eq!(StakeInstruction::decode(&bad_role), None);
    assert_eq!(
        process_instruction(&program_id(), &mut vec![stake_account(1, StakeState::Uninitialized)], &[9, 9]),
        Err(InstructionError::InvalidInstructionData)
    );
}

// ------------------------------------------------------------- initialize

#[test]
fn rent_reserve_for_stake_account() {
    assert_eq!(Rent::default().minimum_balance(200), 2_282_880);
}

#[test]
fn initialize_below_reserve_fails() {
    let mut accounts = vec![stake_account(1_000_000, StakeState::Uninitialized), rent_account()];
    let data = StakeInstruction::Initialize(authorized(), Lockup::default()).encode();
    assert_eq!(process_instruction(&program_id(), &mut accounts, &data), Err(InstructionError::InsufficientFunds));
    assert_eq!(state_of(&accounts[0]), StakeState::Uninitialized);
}

#[test]
fn initialize_succeeds_once() {
    let mut accounts = vec![stake_account(10_000_000, StakeState::Uninitialized), rent_account()];
    let data = StakeInstruction::Initialize(authorized(), Lockup::default()).encode();
    assert_eq!(process_instruction(&program_id(), &mut accounts, &data), Ok(()));
    assert_eq!(state_of(&accounts[0]), StakeState::Initialized(meta(2_282_880, Lockup::default())));
    assert_eq!(
        process_instruction(&program_id(), &mut accounts, &data),
        Err(InstructionError::AccountAlreadyInitialized)
    );
}

// -------------------------------------------------------- delegate/warmup

#[test]
fn delegate_then_warm_up() {
    let mut accounts = vec![stake_account(10_000_000, StakeState::Uninitialized), rent_account()];
    let init = StakeInstruction::Initialize(authorized(), Lockup::default()).encode();
    assert_eq!(process_instruction(&program_id(), &mut accounts, &init), Ok(()));

    let mut accounts = vec![
        account(stake_key(), false, 10_000_000, accounts.remove(0).data),
        account(voter(), false, 1, AccountData::Vote(VoteState { credits: 0 })),
        clock_at(10),
        config_account(),
        signer(staker()),
    ];
    assert_eq!(process_instruction(&program_id(), &mut accounts, &StakeInstruction::DelegateStake.encode()), Ok(()));
    let stake = match state_of(&accounts[0]) {
        StakeState::Stake(_, s) => s,
        other => panic!("unexpected {:?}", other),
    };
    assert_eq!(stake.delegation.stake, 7_717_120);
    assert_eq!(stake.delegation.activation_epoch, 10);
    assert_eq!(stake.delegation.deactivation_epoch, EPOCH_MAX);

    let history = roomy_history(10, 14);
    let rate = DEFAULT_WARMUP_COOLDOWN_RATE_BPS;
    assert_eq!(stake.delegation.effective_stake(9, &history, rate, None), 0);
    assert_eq!(stake.delegation.effective_stake(10, &history, rate, None), 0);
    assert_eq!(stake.delegation.effective_stake(14, &history, rate, None), 7_717_120);
}

#[test]
fn delegate_needs_staker_signature() {
    let mut accounts = vec![
        stake_account(10_000_000, StakeState::Initialized(meta(2_282_880, Lockup::default()))),
        account(voter(), false, 1, AccountData::Vote(VoteState { credits: 0 })),
        clock_at(10),
        config_account(),
        signer(withdrawer()),
    ];
    assert_eq!(
        process_instruction(&program_id(), &mut accounts, &StakeInstruction::DelegateStake.encode()),
        Err(InstructionError::MissingRequiredSignature)
    );
}

#[test]
fn redelegation_policy() {
    let m = meta(2_282_880, Lockup::default());
    let run = |state: StakeState, vote: Pubkey| {
        let mut accounts = vec![
            stake_account(10_000_000, state),
            account(vote, false, 1, AccountData::Vote(VoteState { credits: 77 })),
            clock_at(20),
            config_account(),
            signer(staker()),
        ];
        assert_eq!(process_instruction(&program_id(), &mut accounts, &StakeInstruction::DelegateStake.encode()), Ok(()));
        state_of(&accounts[0])
    };
    let active = StakeState::Stake(m, delegated(7_717_120, 10, 5));
    assert_eq!(run(active, voter()), active);
    let moved = run(active, key(9));
    match moved {
        StakeState::Stake(_, s) => {
            assert_eq!(s.delegation.activation_epoch, 20);
            assert_eq!(s.delegation.voter_pubkey, key(9));
            assert_eq!(s.credits_observed, 77);
        },
        other => panic!("unexpected {:?}", other),
    }
    let mut cooling = delegated(7_717_120, 10, 5);
    cooling.delegation.deactivation_epoch = 15;
    match run(StakeState::Stake(m, cooling), voter()) {
        StakeState::Stake(_, s) => {
            assert_eq!(s.delegation.activation_epoch, 20);
            assert_eq!(s.delegation.deactivation_epoch, EPOCH_MAX);
        },
        other => panic!("unexpected {:?}", other),
    }
}

#[test]
fn warmup_is_rate_limited() {
    let d = Delegation { voter_pubkey: voter(), stake: 1000, activation_epoch: 0, deactivation_epoch: EPOCH_MAX };
    let h = StakeHistory {
        entries: (0..10).map(|e| (e, StakeHistoryEntry { effective: 0, activating: 1000, deactivating: 0 })).collect(),
    };
    let rate = DEFAULT_WARMUP_COOLDOWN_RATE_BPS;
    assert_eq!(d.effective_stake(0, &h, rate, None), 0);
    assert_eq!(d.effective_stake(1, &h, rate, None), 250);
    assert_eq!(d.effective_stake(2, &h, rate, None), 500);
    assert_eq!(d.effective_stake(4, &h, rate, None), 1000);
    assert_eq!(d.effective_stake(9, &h, rate, None), 1000);
    // from epoch 2 on the new, slower rate applies: 9% of 1000 per epoch
    assert_eq!(d.effective_stake(3, &h, rate, Some(2)), 590);
}

#[test]
fn warmup_without_history_makes_no_progress() {
    let d = Delegation { voter_pubkey: voter(), stake: 1000, activation_epoch: 3, deactivation_epoch: EPOCH_MAX };
    let empty = StakeHistory { entries: vec![] };
    assert_eq!(d.effective_stake(100, &empty, DEFAULT_WARMUP_COOLDOWN_RATE_BPS, None), 0);
}

#[test]
fn cooldown_is_rate_limited() {
    let d = Delegation { voter_pubkey: voter(), stake: 1000, activation_epoch: 0, deactivation_epoch: 2 };
    let mut entries = vec![(0, StakeHistoryEntry { effective: 0, activating: 4000, deactivating: 0 })];
    for e in 1..10 {
        entries.push((e, StakeHistoryEntry { effective: 0, activating: 0, deactivating: 1000 }));
    }
    let h = StakeHistory { entries };
    let rate = DEFAULT_WARMUP_COOLDOWN_RATE_BPS;
    assert_eq!(d.effective_stake(1, &h, rate, None), 1000);
    assert_eq!(d.effective_stake(2, &h, rate, None), 1000);
    assert_eq!(d.effective_stake(3, &h, rate, None), 750);
    assert_eq!(d.effective_stake(6, &h, rate, None), 0);
}

// ----------------------------------------------------------------- redeem

fn redeem_accounts(credits: u64, pool_lamports: u64) -> Vec<KeyedAccount> {
    vec![
        stake_account(10_000_000, StakeState::Stake(meta(2_282_880, Lockup::default()), delegated(7_717_120, 10, 100))),
        account(voter(), false, 1, AccountData::Vote(VoteState { credits })),
        account(key(6), false, pool_lamports, AccountData::Stake(StakeState::RewardsPool)),
        account(rewards_id(), false, 1, AccountData::Rewards(RewardsPointValue { epoch: 14, lamports_per_point: 2 })),
        history_account(roomy_history(10, 14)),
    ]
}

#[test]
fn redeem_pays_new_credits() {
    let mut accounts = redeem_accounts(150, 1_000_000_000_000);
    assert_eq!(process_instruction(&program_id(), &mut accounts, &StakeInstruction::RedeemVoteCredits.encode()), Ok(()));
    let reward = 50 * 7_717_120 * 2;
    assert_eq!(accounts[0].lamports, 10_000_000 + reward);
    assert_eq!(accounts[2].lamports, 1_000_000_000_000 - reward);
    match state_of(&accounts[0]) {
        StakeState::Stake(_, s) => {
            assert_eq!(s.credits_observed, 150);
            assert_eq!(s.delegation.stake, 7_717_120 + reward);
        },
        other => panic!("unexpected {:?}", other),
    }
}

#[test]
fn redeem_without_credits_changes_nothing() {
    let mut accounts = redeem_accounts(100, 1_000_000_000_000);
    assert_eq!(
        process_instruction(&program_id(), &mut accounts, &StakeInstruction::RedeemVoteCredits.encode()),
        Err(InstructionError::CustomError(0))
    );
    assert_eq!(accounts, redeem_accounts(100, 1_000_000_000_000));
}

#[test]
fn redeem_from_short_pool_fails() {
    let mut accounts = redeem_accounts(150, 1_000);
    assert_eq!(
        process_instruction(&program_id(), &mut accounts, &StakeInstruction::RedeemVoteCredits.encode()),
        Err(InstructionError::RewardsPoolDepleted)
    );
    assert_eq!(accounts, redeem_accounts(150, 1_000));
}

// --------------------------------------------------------------- withdraw

fn withdraw_accounts(lockup: Lockup, with_custodian: bool) -> Vec<KeyedAccount> {
    let mut accounts = vec![
        stake_account(10_000_000, StakeState::Initialized(meta(2_282_880, lockup))),
        clock_at(10),
        history_account(StakeHistory { entries: vec![] }),
        account(key(8), false, 0, AccountData::Empty),
        signer(withdrawer()),
    ];
    if with_custodian {
        accounts.push(signer(custodian()));
    }
    accounts
}

#[test]
fn withdraw_over_limit_fails() {
    let mut accounts = withdraw_accounts(Lockup::default(), false);
    let data = StakeInstruction::Withdraw(10_000_000 - 2_282_880 + 1).encode();
    assert_eq!(process_instruction(&program_id(), &mut accounts, &data), Err(InstructionError::InsufficientFunds));
    assert_eq!(accounts, withdraw_accounts(Lockup::default(), false));

    let mut accounts = withdraw_accounts(Lockup::default(), false);
    let data = StakeInstruction::Withdraw(10_000_000 - 2_282_880).encode();
    assert_eq!(process_instruction(&program_id(), &mut accounts, &data), Ok(()));
    assert_eq!(accounts[0].lamports, 2_282_880);
    assert_eq!(accounts[3].lamports, 10_000_000 - 2_282_880);
}

#[test]
fn withdraw_keeps_effective_stake() {
    let state = StakeState::Stake(meta(2_282_880, Lockup::default()), delegated(7_717_120, 10, 0));
    let build = || {
        vec![
            stake_account(10_000_000, state),
            clock_at(14),
            history_account(roomy_history(10, 14)),
            account(key(8), false, 0, AccountData::Empty),
            signer(withdrawer()),
        ]
    };
    let mut accounts = build();
    assert_eq!(
        process_instruction(&program_id(), &mut accounts, &StakeInstruction::Withdraw(1).encode()),
        Err(InstructionError::InsufficientFunds)
    );
    assert_eq!(accounts, build());
}

#[test]
fn withdraw_during_lockup_needs_custodian() {
    let data = StakeInstruction::Withdraw(1_000).encode();
    let mut accounts = withdraw_accounts(lockup_until(100), false);
    assert_eq!(process_instruction(&program_id(), &mut accounts, &data), Err(InstructionError::CustomError(1)));
    assert_eq!(accounts, withdraw_accounts(lockup_until(100), false));

    let mut accounts = withdraw_accounts(lockup_until(100), true);
    assert_eq!(process_instruction(&program_id(), &mut accounts, &data), Ok(()));
    assert_eq!(accounts[0].lamports, 10_000_000 - 1_000);
    assert_eq!(accounts[3].lamports, 1_000);
}

#[test]
fn withdraw_needs_withdrawer_signature() {
    let mut accounts = withdraw_accounts(Lockup::default(), false);
    accounts[4] = signer(staker());
    assert_eq!(
        process_instruction(&program_id(), &mut accounts, &StakeInstruction::Withdraw(5).encode()),
        Err(InstructionError::MissingRequiredSignature)
    );
}

#[test]
fn emptying_an_account_uninitializes_it() {
    let mut accounts = vec![
        stake_account(500, StakeState::Initialized(meta(0, Lockup::default()))),
        clock_at(10),
        history_account(StakeHistory { entries: vec![] }),
        signer(withdrawer()),
    ];
    assert_eq!(process_instruction(&program_id(), &mut accounts, &StakeInstruction::Withdraw(500).encode()), Ok(()));
    assert_eq!(state_of(&accounts[0]), StakeState::Uninitialized);
    assert_eq!(accounts[0].lamports, 0);
    assert_eq!(accounts[3].lamports, 500);
}

// ------------------------------------------------------- deactivate/authorize

#[test]
fn deactivate_twice_fails() {
    let mut accounts = vec![
        stake_account(10_000_000, StakeState::Stake(meta(2_282_880, Lockup::default()), delegated(7_717_120, 10, 0))),
        clock_at(12),
        signer(staker()),
    ];
    let data = StakeInstruction::Deactivate.encode();
    assert_eq!(process_instruction(&program_id(), &mut accounts, &data), Ok(()));
    match state_of(&accounts[0]) {
        StakeState::Stake(_, s) => assert_eq!(s.delegation.deactivation_epoch, 12),
        other => panic!("unexpected {:?}", other),
    }
    assert_eq!(process_instruction(&program_id(), &mut accounts, &data), Err(InstructionError::StakeAlreadyDeactivated));
}

#[test]
fn authorize_replaces_keys() {
    let mut accounts = vec![
        stake_account(10_000_000, StakeState::Initialized(meta(2_282_880, Lockup::default()))),
        signer(staker()),
    ];
    let data = StakeInstruction::Authorize(key(9), StakeAuthorize::Staker).encode();
    assert_eq!(process_instruction(&program_id(), &mut accounts, &data), Ok(()));
    match state_of(&accounts[0]) {
        StakeState::Initialized(m) => {
            assert_eq!(m.authorized.staker, key(9));
            assert_eq!(m.authorized.withdrawer, withdrawer());
        },
        other => panic!("unexpected {:?}", other),
    }
    // the old staker lost its authority
    assert_eq!(process_instruction(&program_id(), &mut accounts, &data), Err(InstructionError::MissingRequiredSignature));
}

#[test]
fn authorize_withdrawer_respects_lockup() {
    let state = StakeState::Initialized(meta(2_282_880, lockup_until(100)));
    let data = StakeInstruction::Authorize(key(9), StakeAuthorize::Withdrawer).encode();
    let mut accounts = vec![stake_account(10_000_000, state), clock_at(10), signer(withdrawer())];
    assert_eq!(process_instruction(&program_id(), &mut accounts, &data), Err(InstructionError::CustomError(1)));
    let mut accounts = vec![stake_account(10_000_000, state), clock_at(100), signer(withdrawer())];
    assert_eq!(process_instruction(&program_id(), &mut accounts, &data), Ok(()));
    let mut accounts =
        vec![stake_account(10_000_000, state), signer(withdrawer()), signer(custodian())];
    assert_eq!(process_instruction(&program_id(), &mut accounts, &data), Ok(()));
}

// ------------------------------------------------------------------ errors

#[test]
fn error_codes_are_stable() {
    assert_eq!(StakeError::NoCreditsToRedeem.code(), 0);
    assert_eq!(StakeError::LockupInForce.code(), 1);
    assert_eq!(StakeError::from_code(1), Some(StakeError::LockupInForce));
    assert_eq!(StakeError::from_code(2), None);
    assert_eq!(InstructionError::from(StakeError::LockupInForce), InstructionError::CustomError(1));
    assert_eq!(StakeError::LockupInForce.message(), "lockup has not yet expired");
}

// ---------------------------------------------------------------- builders

#[test]
fn authorized_signer_is_appended() {
    let own = builder::metas_for_authorized_signer(&stake_key(), &stake_key(), &vec![]);
    assert_eq!(own, vec![AccountMeta { pubkey: stake_key(), is_signer: true, is_writable: true }]);
    let other = builder::metas_for_authorized_signer(
        &stake_key(),
        &staker(),
        &vec![AccountMeta::new_credit_only(voter(), false)],
    );
    assert_eq!(
        other,
        vec![
            AccountMeta { pubkey: stake_key(), is_signer: false, is_writable: true },
            AccountMeta { pubkey: voter(), is_signer: false, is_writable: false },
            AccountMeta { pubkey: staker(), is_signer: true, is_writable: false },
        ]
    );
}

#[test]
fn withdraw_builder_names_destination_once() {
    let to_self = builder::withdraw(&stake_key(), &withdrawer(), &withdrawer(), 5);
    assert_eq!(to_self.accounts.len(), 4);
    assert_eq!(to_self.accounts[3].pubkey, withdrawer());
    let elsewhere = builder::withdraw(&stake_key(), &withdrawer(), &key(8), 5);
    assert_eq!(elsewhere.accounts.len(), 5);
    assert_eq!(elsewhere.accounts[3].pubkey, key(8));
    assert_eq!(elsewhere.accounts[1].pubkey, clock_id());
    assert_eq!(elsewhere.data, StakeInstruction::Withdraw(5).encode());
    assert_eq!(elsewhere.program_id, program_id());
}

#[test]
fn create_stake_account_instructions() {
    let ixs = builder::create_stake_account_and_delegate_stake(&key(7), &stake_key(), &voter(), &authorized(), 42);
    assert_eq!(ixs.len(), 3);
    assert_eq!(ixs[0].program_id, Pubkey::default());
    assert_eq!(ixs[0].data, bincode::serialize(&(0u32, 42u64, 200u64, program_id().0)).unwrap());
    assert_eq!(ixs[1].accounts[1].pubkey, rent_id());
    assert_eq!(ixs[1].data, StakeInstruction::Initialize(authorized(), Lockup::default()).encode());
    assert_eq!(ixs[2].data, StakeInstruction::DelegateStake.encode());
    assert_eq!(ixs[2].accounts.len(), 5);
    assert_eq!(ixs[2].accounts[4], AccountMeta { pubkey: staker(), is_signer: true, is_writable: false });
}

#[test]
fn instructions_collect_in_order() {
    let mut list = Instructions::constructor();
    list.push(builder::deactivate_stake(&stake_key(), &staker()));
    list.push(builder::withdraw(&stake_key(), &withdrawer(), &key(8), 1));
    let v: Vec<builder::Instruction> = list.into();
    assert_eq!(v.len(), 2);
    assert_eq!(v[0].data, StakeInstruction::Deactivate.encode());
    assert_eq!(v[1].data, StakeInstruction::Withdraw(1).encode());
}

#[test]
fn authorize_builder_names_no_clock() {
    let ix = builder::authorize(&stake_key(), &withdrawer(), &key(9), StakeAuthorize::Withdrawer);
    assert_eq!(
        ix.accounts,
        vec![
            AccountMeta { pubkey: stake_key(), is_signer: false, is_writable: true },
            AccountMeta { pubkey: withdrawer(), is_signer: true, is_writable: false },
        ]
    );
    let own = builder::authorize(&stake_key(), &stake_key(), &key(9), StakeAuthorize::Staker);
    assert_eq!(own.accounts, vec![AccountMeta { pubkey: stake_key(), is_signer: true, is_writable: true }]);

    // under the default lockup, which never blocks, no clock or custodian is needed
    let mut accounts = vec![
        stake_account(10_000_000, StakeState::Initialized(meta(2_282_880, Lockup::default()))),
        signer(withdrawer()),
    ];
    assert_eq!(process_instruction(&program_id(), &mut accounts, &ix.data), Ok(()));
    match state_of(&accounts[0]) {
        StakeState::Initialized(m) => assert_eq!(m.authorized.withdrawer, key(9)),
        other => panic!("unexpected {:?}", other),
    }

    // a lockup that was set blocks when no clock is given, unless the custodian signs
    let locked = StakeState::Initialized(meta(2_282_880, lockup_until(1)));
    let mut accounts = vec![stake_account(10_000_000, locked), signer(withdrawer())];
    assert_eq!(process_instruction(&program_id(), &mut accounts, &ix.data), Err(InstructionError::CustomError(1)));
    let mut accounts = vec![stake_account(10_000_000, locked), signer(withdrawer()), signer(custodian())];
    assert_eq!(process_instruction(&program_id(), &mut accounts, &ix.data), Ok(()));
}

#[test]
fn initialize_names_rent_writable() {
    let ixs = builder::create_stake_account(&key(7), &stake_key(), &authorized(), 42);
    assert_eq!(ixs[1].accounts[1], AccountMeta { pubkey: rent_id(), is_signer: false, is_writable: true });
    assert_eq!(
        ixs,
        builder::create_stake_account_with_lockup(&key(7), &stake_key(), &authorized(), &Lockup::default(), 42)
    );
}
