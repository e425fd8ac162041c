use vstd::prelude::*;

use crate::account::{
    signed, signers_of, AccountData, Config, KeyedAccount, Rent, RewardsPointValue, VoteState,
    STAKE_STATE_SIZE,
};
use crate::error::{custom, InstructionError, StakeError};
use crate::ids::{
    clock_id, config_id, rent_id, rewards_id, spec_clock_id, spec_config_id, spec_rent_id,
    spec_rewards_id, spec_stake_history_id, stake_history_id,
};
use crate::instruction::{spec_decode, StakeInstruction};
use crate::pubkey::Pubkey;
use crate::stake_state::{
    authorize, deactivate, delegate, initialize, redeem, spec_authorize, spec_deactivate,
    spec_delegate, spec_initialize, spec_redeem, spec_withdraw, withdraw, reserve_of, staked_of, lockup_blocks, meta_of,
};
use crate::state::{Authorized, Clock, Lockup, Meta, Stake, StakeAuthorize, StakeState};
use crate::warmup::{
    lemma_warmup_limits, warmup_headroom, StakeHistory, StakeHistoryEntry,
    DEFAULT_WARMUP_COOLDOWN_RATE_BPS,
};
use crate::state::EPOCH_MAX;

verus! {

// ------------------------------------------------------------ reading accounts

pub open spec fn parse_clock(a: KeyedAccount) -> Result<Clock, InstructionError> {
    if a.key@ != spec_clock_id() {
        Err(InstructionError::InvalidArgument)
    } else {
        match a.data {
            AccountData::Clock(c) => Ok(c),
            _ => Err(InstructionError::InvalidAccountData),
        }
    }
}

pub open spec fn parse_rent(a: KeyedAccount) -> Result<Rent, InstructionError> {
    if a.key@ != spec_rent_id() {
        Err(InstructionError::InvalidArgument)
    } else {
        match a.data {
            AccountData::Rent(c) => Ok(c),
            _ => Err(InstructionError::InvalidAccountData),
        }
    }
}

pub open spec fn parse_config(a: KeyedAccount) -> Result<Config, InstructionError> {
    if a.key@ != spec_config_id() {
        Err(InstructionError::InvalidArgument)
    } else {
        match a.data {
            AccountData::Config(c) => Ok(c),
            _ => Err(InstructionError::InvalidAccountData),
        }
    }
}

pub open spec fn parse_rewards(a: KeyedAccount) -> Result<RewardsPointValue, InstructionError> {
    if a.key@ != spec_rewards_id() {
        Err(InstructionError::InvalidArgument)
    } else {
        match a.data {
            AccountData::Rewards(c) => Ok(c),
            _ => Err(InstructionError::InvalidAccountData),
        }
    }
}

pub open spec fn parse_history(a: KeyedAccount) -> Result<
    Seq<(u64, StakeHistoryEntry)>,
    InstructionError,
> {
    if a.key@ != spec_stake_history_id() {
        Err(InstructionError::InvalidArgument)
    } else {
        match a.data {
            AccountData::StakeHistory(h) => Ok(h@),
            _ => Err(InstructionError::InvalidAccountData),
        }
    }
}

pub open spec fn parse_stake(a: KeyedAccount) -> Result<StakeState, InstructionError> {
    match a.data {
        AccountData::Stake(s) => Ok(s),
        _ => Err(InstructionError::InvalidAccountData),
    }
}

pub open spec fn parse_vote(a: KeyedAccount) -> Result<VoteState, InstructionError> {
    match a.data {
        AccountData::Vote(v) => Ok(v),
        _ => Err(InstructionError::InvalidAccountData),
    }
}

fn clock_of(a: &KeyedAccount) -> (r: Result<Clock, InstructionError>)
    ensures
        r == parse_clock(*a),
{
    if !a.key.equals(&clock_id()) {
        return Err(InstructionError::InvalidArgument);
    }
    match &a.data {
        AccountData::Clock(c) => Ok(*c),
        _ => Err(InstructionError::InvalidAccountData),
    }
}

fn rent_of(a: &KeyedAccount) -> (r: Result<Rent, InstructionError>)
    ensures
        r == parse_rent(*a),
{
    if !a.key.equals(&rent_id()) {
        return Err(InstructionError::InvalidArgument);
    }
    match &a.data {
        AccountData::Rent(c) => Ok(*c),
        _ => Err(InstructionError::InvalidAccountData),
    }
}

fn config_of(a: &KeyedAccount) -> (r: Result<Config, InstructionError>)
    ensures
        r == parse_config(*a),
{
    if !a.key.equals(&config_id()) {
        return Err(InstructionError::InvalidArgument);
    }
    match &a.data {
        AccountData::Config(c) => Ok(*c),
        _ => Err(InstructionError::InvalidAccountData),
    }
}

fn rewards_of(a: &KeyedAccount) -> (r: Result<RewardsPointValue, InstructionError>)
    ensures
        r == parse_rewards(*a),
{
    if !a.key.equals(&rewards_id()) {
        return Err(InstructionError::InvalidArgument);
    }
    match &a.data {
        AccountData::Rewards(c) => Ok(*c),
        _ => Err(InstructionError::InvalidAccountData),
    }
}

fn history_of(a: &KeyedAccount) -> (r: Result<&StakeHistory, InstructionError>)
    ensures
        match r {
            Ok(h) => parse_history(*a) == Ok::<Seq<(u64, StakeHistoryEntry)>, InstructionError>(
                h@,
            ),
            Err(e) => parse_history(*a) == Err::<Seq<(u64, StakeHistoryEntry)>, InstructionError>(
                e,
            ),
        },
{
    if !a.key.equals(&stake_history_id()) {
        return Err(InstructionError::InvalidArgument);
    }
    match &a.data {
        AccountData::StakeHistory(h) => Ok(h),
        _ => Err(InstructionError::InvalidAccountData),
    }
}

fn stake_of(a: &KeyedAccount) -> (r: Result<StakeState, InstructionError>)
    ensures
        r == parse_stake(*a),
{
    match &a.data {
        AccountData::Stake(s) => Ok(*s),
        _ => Err(InstructionError::InvalidAccountData),
    }
}

fn vote_of(a: &KeyedAccount) -> (r: Result<VoteState, InstructionError>)
    ensures
        r == parse_vote(*a),
{
    match &a.data {
        AccountData::Vote(v) => Ok(*v),
        _ => Err(InstructionError::InvalidAccountData),
    }
}

/// The keys that signed for an instruction: the stake account's own key if it
/// signed, then each signer among the accounts from position `from` on.
pub open spec fn signers_for(accounts: Seq<KeyedAccount>, from: int) -> Seq<Pubkey> {
    if accounts[0].is_signer {
        seq![accounts[0].key] + signers_of(accounts, from)
    } else {
        signers_of(accounts, from)
    }
}

fn collect_signers(accounts: &Vec<KeyedAccount>, from: usize) -> (r: Vec<Pubkey>)
    requires
        1 <= from <= accounts@.len(),
    ensures
        r@ == signers_for(accounts@, from as int),
{
    let mut out: Vec<Pubkey> = Vec::new();
    if accounts[0].is_signer {
        out.push(accounts[0].key);
    }
    let ghost start = out@;
    let n = accounts.len();
    let mut i: usize = from;
    assert(start + signers_of(accounts@, from as int) == out@ + signers_of(accounts@, i as int));
    while i < n
        invariant
            n == accounts@.len(),
            from <= i <= n,
            start + signers_of(accounts@, from as int) == out@ + signers_of(accounts@, i as int),
        decreases n - i,
    {
        if accounts[i].is_signer {
            let ghost before = out@;
            out.push(accounts[i].key);
            assert(before + signers_of(accounts@, i as int) =~= out@ + signers_of(
                accounts@,
                i + 1,
            ));
        }
        i = i + 1;
    }
    assert(signers_of(accounts@, n as int) == Seq::<Pubkey>::empty());
    assert(out@ =~= out@ + signers_of(accounts@, n as int));
    proof {
        if accounts@[0].is_signer {
            assert(start == seq![accounts@[0].key]);
        } else {
            assert(start =~= Seq::<Pubkey>::empty());
            assert(signers_of(accounts@, from as int) =~= start + signers_of(
                accounts@,
                from as int,
            ));
        }
    }
    out
}

/// `a` holding `state`.
pub open spec fn with_state(a: KeyedAccount, state: StakeState) -> KeyedAccount {
    KeyedAccount { data: AccountData::Stake(state), ..a }
}

/// `a` holding `lamports`.
pub open spec fn with_lamports(a: KeyedAccount, lamports: int) -> KeyedAccount {
    KeyedAccount { lamports: lamports as u64, ..a }
}

/// `r` reports `expected`, and the accounts went from `before` to what it
/// gives, or stayed as they were when it is an error.
pub open spec fn outcome(
    r: Result<(), InstructionError>,
    expected: Result<Seq<KeyedAccount>, InstructionError>,
    before: Seq<KeyedAccount>,
    after: Seq<KeyedAccount>,
) -> bool {
    match expected {
        Ok(accounts) => r is Ok && after == accounts,
        Err(e) => r == Err::<(), InstructionError>(e) && after == before,
    }
}

// ---------------------------------------------------------------- Initialize

/// `Initialize` over `[stake, rent]`.
pub open spec fn spec_process_initialize(
    accts: Seq<KeyedAccount>,
    authorized: Authorized,
    lockup: Lockup,
) -> Result<Seq<KeyedAccount>, InstructionError> {
    if accts.len() < 2 {
        Err(InstructionError::InvalidInstructionData)
    } else {
        match parse_rent(accts[1]) {
            Err(e) => Err(e),
            Ok(rent) => match parse_stake(accts[0]) {
                Err(e) => Err(e),
                Ok(state) => match spec_initialize(
                    state,
                    accts[0].lamports,
                    rent.spec_minimum_balance(STAKE_STATE_SIZE),
                    authorized,
                    lockup,
                ) {
                    Err(e) => Err(e),
                    Ok(s) => Ok(accts.update(0, with_state(accts[0], s))),
                },
            },
        }
    }
}

/// Stores `state` in the first account.
fn store_state(accounts: &mut Vec<KeyedAccount>, state: StakeState)
    requires
        old(accounts)@.len() >= 1,
    ensures
        final(accounts)@ == old(accounts)@.update(0, with_state(old(accounts)@[0], state)),
{
    let a = KeyedAccount {
        key: accounts[0].key,
        is_signer: accounts[0].is_signer,
        lamports: accounts[0].lamports,
        data: AccountData::Stake(state),
    };
    accounts.set(0, a);
}

fn process_initialize(
    accounts: &mut Vec<KeyedAccount>,
    authorized: &Authorized,
    lockup: &Lockup,
) -> (r: Result<(), InstructionError>)
    requires
        old(accounts)@.len() >= 1,
    ensures
        outcome(
            r,
            spec_process_initialize(old(accounts)@, *authorized, *lockup),
            old(accounts)@,
            final(accounts)@,
        ),
{
    if accounts.len() < 2 {
        return Err(InstructionError::InvalidInstructionData);
    }
    let rent = match rent_of(&accounts[1]) {
        Ok(r) => r,
        Err(e) => return Err(e),
    };
    let state = match stake_of(&accounts[0]) {
        Ok(s) => s,
        Err(e) => return Err(e),
    };
    let new_state = match initialize(&state, accounts[0].lamports, &rent, authorized, lockup) {
        Ok(s) => s,
        Err(e) => return Err(e),
    };
    store_state(accounts, new_state);
    Ok(())
}

// ----------------------------------------------------------------- Authorize

/// The clock, when the account after the stake account is the clock sysvar.
pub open spec fn optional_clock(accts: Seq<KeyedAccount>) -> Option<Clock> {
    if accts.len() >= 2 {
        match parse_clock(accts[1]) {
            Ok(c) => Some(c),
            Err(_) => None,
        }
    } else {
        None
    }
}

/// `Authorize` over `[stake, signers..]`: any account may sign. A clock sysvar
/// may stand right after the stake account; a withdrawer change is then checked
/// against the lockup at that clock. Without one the lockup is judged at
/// `clock_origin()` (epoch 0, Unix time 0): a lockup with a positive time or
/// epoch then blocks unless the custodian signs, and the default lockup never
/// does.
pub open spec fn spec_process_authorize(
    accts: Seq<KeyedAccount>,
    new_key: Pubkey,
    role: StakeAuthorize,
) -> Result<Seq<KeyedAccount>, InstructionError> {
    match parse_stake(accts[0]) {
        Err(e) => Err(e),
        Ok(state) => match spec_authorize(
            state,
            signers_for(accts, 1),
            new_key,
            role,
            optional_clock(accts),
        ) {
            Err(e) => Err(e),
            Ok(s) => Ok(accts.update(0, with_state(accts[0], s))),
        },
    }
}

fn process_authorize(accounts: &mut Vec<KeyedAccount>, new_key: &Pubkey, role: StakeAuthorize) -> (r:
    Result<(), InstructionError>)
    requires
        old(accounts)@.len() >= 1,
    ensures
        outcome(
            r,
            spec_process_authorize(old(accounts)@, *new_key, role),
            old(accounts)@,
            final(accounts)@,
        ),
{
    let clock = if accounts.len() >= 2 {
        match clock_of(&accounts[1]) {
            Ok(c) => Some(c),
            Err(_) => None,
        }
    } else {
        None
    };
    let state = match stake_of(&accounts[0]) {
        Ok(s) => s,
        Err(e) => return Err(e),
    };
    let signers = collect_signers(accounts, 1);
    let new_state = match authorize(&state, &signers, new_key, role, &clock) {
        Ok(s) => s,
        Err(e) => return Err(e),
    };
    store_state(accounts, new_state);
    Ok(())
}

// ------------------------------------------------------------- DelegateStake

/// `DelegateStake` over `[stake, vote, clock, config, signers..]`. The config
/// account must be the stake config; its rate is not recorded, since effective
/// stake is computed at the fixed `DEFAULT_WARMUP_COOLDOWN_RATE_BPS`.
pub open spec fn spec_process_delegate(accts: Seq<KeyedAccount>) -> Result<
    Seq<KeyedAccount>,
    InstructionError,
> {
    if accts.len() < 4 {
        Err(InstructionError::InvalidInstructionData)
    } else {
        match parse_clock(accts[2]) {
            Err(e) => Err(e),
            Ok(clock) => match parse_config(accts[3]) {
                Err(e) => Err(e),
                Ok(_) => match parse_stake(accts[0]) {
                    Err(e) => Err(e),
                    Ok(state) => match parse_vote(accts[1]) {
                        Err(e) => Err(e),
                        Ok(vote) => match spec_delegate(
                            state,
                            accts[0].lamports,
                            signers_for(accts, 4),
                            accts[1].key,
                            vote.credits,
                            clock,
                        ) {
                            Err(e) => Err(e),
                            Ok(s) => Ok(accts.update(0, with_state(accts[0], s))),
                        },
                    },
                },
            },
        }
    }
}

fn process_delegate(accounts: &mut Vec<KeyedAccount>) -> (r: Result<(), InstructionError>)
    requires
        old(accounts)@.len() >= 1,
    ensures
        outcome(r, spec_process_delegate(old(accounts)@), old(accounts)@, final(accounts)@),
{
    if accounts.len() < 4 {
        return Err(InstructionError::InvalidInstructionData);
    }
    let clock = match clock_of(&accounts[2]) {
        Ok(c) => c,
        Err(e) => return Err(e),
    };
    match config_of(&accounts[3]) {
        Ok(_) => {},
        Err(e) => return Err(e),
    }
    let state = match stake_of(&accounts[0]) {
        Ok(s) => s,
        Err(e) => return Err(e),
    };
    let vote = match vote_of(&accounts[1]) {
        Ok(v) => v,
        Err(e) => return Err(e),
    };
    let signers = collect_signers(accounts, 4);
    let voter = accounts[1].key;
    let new_state = match delegate(
        &state,
        accounts[0].lamports,
        &signers,
        &voter,
        vote.credits,
        &clock,
    ) {
        Ok(s) => s,
        Err(e) => return Err(e),
    };
    store_state(accounts, new_state);
    Ok(())
}

// --------------------------------------------------------- RedeemVoteCredits

/// `RedeemVoteCredits` over `[stake, vote, rewards pool, rewards, stake history]`,
/// with effective stake at the fixed `DEFAULT_WARMUP_COOLDOWN_RATE_BPS`.
pub open spec fn spec_process_redeem(accts: Seq<KeyedAccount>) -> Result<
    Seq<KeyedAccount>,
    InstructionError,
> {
    if accts.len() < 5 {
        Err(InstructionError::InvalidInstructionData)
    } else {
        match parse_rewards(accts[3]) {
            Err(e) => Err(e),
            Ok(point_value) => match parse_history(accts[4]) {
                Err(e) => Err(e),
                Ok(history) => match parse_stake(accts[0]) {
                    Err(e) => Err(e),
                    Ok(state) => match parse_vote(accts[1]) {
                        Err(e) => Err(e),
                        Ok(vote) => match parse_stake(accts[2]) {
                            Err(e) => Err(e),
                            Ok(pool) => match spec_redeem(
                                state,
                                accts[0].lamports,
                                accts[1].key,
                                vote.credits,
                                pool,
                                accts[2].lamports,
                                point_value,
                                history,
                                DEFAULT_WARMUP_COOLDOWN_RATE_BPS,
                            ) {
                                Err(e) => Err(e),
                                Ok((s, reward)) => Ok(
                                    accts.update(
                                        0,
                                        with_lamports(
                                            with_state(accts[0], s),
                                            accts[0].lamports + reward,
                                        ),
                                    ).update(
                                        2,
                                        with_lamports(accts[2], accts[2].lamports - reward),
                                    ),
                                ),
                            },
                        },
                    },
                },
            },
        }
    }
}

fn process_redeem(accounts: &mut Vec<KeyedAccount>) -> (r: Result<(), InstructionError>)
    requires
        old(accounts)@.len() >= 1,
    ensures
        outcome(r, spec_process_redeem(old(accounts)@), old(accounts)@, final(accounts)@),
{
    if accounts.len() < 5 {
        return Err(InstructionError::InvalidInstructionData);
    }
    let point_value = match rewards_of(&accounts[3]) {
        Ok(p) => p,
        Err(e) => return Err(e),
    };
    let outcome = {
        let history = match history_of(&accounts[4]) {
            Ok(h) => h,
            Err(e) => return Err(e),
        };
        let state = match stake_of(&accounts[0]) {
            Ok(s) => s,
            Err(e) => return Err(e),
        };
        let vote = match vote_of(&accounts[1]) {
            Ok(v) => v,
            Err(e) => return Err(e),
        };
        let pool = match stake_of(&accounts[2]) {
            Ok(s) => s,
            Err(e) => return Err(e),
        };
        redeem(
            &state,
            accounts[0].lamports,
            &accounts[1].key,
            vote.credits,
            &pool,
            accounts[2].lamports,
            &point_value,
            history,
            DEFAULT_WARMUP_COOLDOWN_RATE_BPS,
        )
    };
    let (new_state, reward) = match outcome {
        Ok(x) => x,
        Err(e) => return Err(e),
    };
    let me = KeyedAccount {
        key: accounts[0].key,
        is_signer: accounts[0].is_signer,
        lamports: accounts[0].lamports + reward,
        data: AccountData::Stake(new_state),
    };
    accounts.set(0, me);
    let pool = KeyedAccount {
        key: accounts[2].key,
        is_signer: accounts[2].is_signer,
        lamports: accounts[2].lamports - reward,
        data: AccountData::Stake(StakeState::RewardsPool),
    };
    assert(accounts@[2].data == AccountData::Stake(StakeState::RewardsPool));
    accounts.set(2, pool);
    Ok(())
}

// ------------------------------------------------------------------ Withdraw

/// `Withdraw(amount)` over `[stake, clock, stake history, destination, signers..]`;
/// the destination may itself be the signing withdrawer. Effective stake is
/// computed at the fixed `DEFAULT_WARMUP_COOLDOWN_RATE_BPS`.
pub open spec fn spec_process_withdraw(accts: Seq<KeyedAccount>, amount: u64) -> Result<
    Seq<KeyedAccount>,
    InstructionError,
> {
    if accts.len() < 4 {
        Err(InstructionError::InvalidInstructionData)
    } else {
        match parse_clock(accts[1]) {
            Err(e) => Err(e),
            Ok(clock) => match parse_history(accts[2]) {
                Err(e) => Err(e),
                Ok(history) => match parse_stake(accts[0]) {
                    Err(e) => Err(e),
                    Ok(state) => match spec_withdraw(
                        state,
                        accts[0].key,
                        accts[0].lamports,
                        amount,
                        signers_for(accts, 3),
                        clock,
                        history,
                        DEFAULT_WARMUP_COOLDOWN_RATE_BPS,
                    ) {
                        Err(e) => Err(e),
                        Ok(s) => if accts[3].lamports + amount > u64::MAX {
                            Err(InstructionError::ArithmeticOverflow)
                        } else {
                            Ok(
                                accts.update(
                                    0,
                                    with_lamports(
                                        with_state(accts[0], s),
                                        accts[0].lamports - amount,
                                    ),
                                ).update(3, with_lamports(accts[3], accts[3].lamports + amount)),
                            )
                        },
                    },
                },
            },
        }
    }
}

fn process_withdraw(accounts: &mut Vec<KeyedAccount>, amount: u64) -> (r: Result<
    (),
    InstructionError,
>)
    requires
        old(accounts)@.len() >= 1,
    ensures
        outcome(r, spec_process_withdraw(old(accounts)@, amount), old(accounts)@, final(accounts)@),
{
    if accounts.len() < 4 {
        return Err(InstructionError::InvalidInstructionData);
    }
    let clock = match clock_of(&accounts[1]) {
        Ok(c) => c,
        Err(e) => return Err(e),
    };
    let signers = collect_signers(accounts, 3);
    let outcome = {
        let history = match history_of(&accounts[2]) {
            Ok(h) => h,
            Err(e) => return Err(e),
        };
        let state = match stake_of(&accounts[0]) {
            Ok(s) => s,
            Err(e) => return Err(e),
        };
        withdraw(
            &state,
            &accounts[0].key,
            accounts[0].lamports,
            amount,
            &signers,
            &clock,
            history,
            DEFAULT_WARMUP_COOLDOWN_RATE_BPS,
        )
    };
    let new_state = match outcome {
        Ok(s) => s,
        Err(e) => return Err(e),
    };
    assert(amount <= accounts@[0].lamports);
    if accounts[3].lamports > u64::MAX - amount {
        return Err(InstructionError::ArithmeticOverflow);
    }
    let me = KeyedAccount {
        key: accounts[0].key,
        is_signer: accounts[0].is_signer,
        lamports: accounts[0].lamports - amount,
        data: AccountData::Stake(new_state),
    };
    accounts.set(0, me);
    accounts[3].lamports = accounts[3].lamports + amount;
    Ok(())
}

// ---------------------------------------------------------------- Deactivate

/// `Deactivate` over `[stake, clock, signers..]`.
pub open spec fn spec_process_deactivate(accts: Seq<KeyedAccount>) -> Result<
    Seq<KeyedAccount>,
    InstructionError,
> {
    if accts.len() < 2 {
        Err(InstructionError::InvalidInstructionData)
    } else {
        match parse_clock(accts[1]) {
            Err(e) => Err(e),
            Ok(clock) => match parse_stake(accts[0]) {
                Err(e) => Err(e),
                Ok(state) => match spec_deactivate(state, signers_for(accts, 2), clock) {
                    Err(e) => Err(e),
                    Ok(s) => Ok(accts.update(0, with_state(accts[0], s))),
                },
            },
        }
    }
}

fn process_deactivate(accounts: &mut Vec<KeyedAccount>) -> (r: Result<(), InstructionError>)
    requires
        old(accounts)@.len() >= 1,
    ensures
        outcome(r, spec_process_deactivate(old(accounts)@), old(accounts)@, final(accounts)@),
{
    if accounts.len() < 2 {
        return Err(InstructionError::InvalidInstructionData);
    }
    let clock = match clock_of(&accounts[1]) {
        Ok(c) => c,
        Err(e) => return Err(e),
    };
    let state = match stake_of(&accounts[0]) {
        Ok(s) => s,
        Err(e) => return Err(e),
    };
    let signers = collect_signers(accounts, 2);
    let new_state = match deactivate(&state, &signers, &clock) {
        Ok(s) => s,
        Err(e) => return Err(e),
    };
    store_state(accounts, new_state);
    Ok(())
}

// ---------------------------------------------------------------- dispatcher

/// The effect of the instruction `data` on `accts`: the accounts afterwards, or
/// the error that leaves them untouched.
pub open spec fn spec_process(accts: Seq<KeyedAccount>, data: Seq<u8>) -> Result<
    Seq<KeyedAccount>,
    InstructionError,
> {
    if accts.len() == 0 {
        Err(InstructionError::InvalidInstructionData)
    } else {
        match spec_decode(data) {
            None => Err(InstructionError::InvalidInstructionData),
            Some(StakeInstruction::Initialize(authorized, lockup)) => spec_process_initialize(
                accts,
                authorized,
                lockup,
            ),
            Some(StakeInstruction::Authorize(key, role)) => spec_process_authorize(
                accts,
                key,
                role,
            ),
            Some(StakeInstruction::DelegateStake) => spec_process_delegate(accts),
            Some(StakeInstruction::RedeemVoteCredits) => spec_process_redeem(accts),
            Some(StakeInstruction::Withdraw(amount)) => spec_process_withdraw(accts, amount),
            Some(StakeInstruction::Deactivate) => spec_process_deactivate(accts),
        }
    }
}

/// Decodes `data` and applies it to `accounts`, whose first entry is the stake
/// account. Every failure leaves all accounts as they were.
pub fn process_instruction(
    _program_id: &Pubkey,
    accounts: &mut Vec<KeyedAccount>,
    data: &[u8],
) -> (r: Result<(), InstructionError>)
    ensures
        outcome(r, spec_process(old(accounts)@, data@), old(accounts)@, final(accounts)@),
{
    if accounts.len() == 0 {
        return Err(InstructionError::InvalidInstructionData);
    }
    match StakeInstruction::decode(data) {
        None => Err(InstructionError::InvalidInstructionData),
        Some(StakeInstruction::Initialize(authorized, lockup)) => process_initialize(
            accounts,
            &authorized,
            &lockup,
        ),
        Some(StakeInstruction::Authorize(key, role)) => process_authorize(accounts, &key, role),
        Some(StakeInstruction::DelegateStake) => process_delegate(accounts),
        Some(StakeInstruction::RedeemVoteCredits) => process_redeem(accounts),
        Some(StakeInstruction::Withdraw(amount)) => process_withdraw(accounts, amount),
        Some(StakeInstruction::Deactivate) => process_deactivate(accounts),
    }
}

/// A redemption when the vote account has earned nothing since the last one
/// fails with `NoCreditsToRedeem`; `process_instruction` then leaves every
/// account as it was.
pub proof fn lemma_redeem_nothing_earned(
    accts: Seq<KeyedAccount>,
    data: Seq<u8>,
    meta: Meta,
    stake: Stake,
)
    requires
        accts.len() >= 5,
        spec_decode(data) == Some(StakeInstruction::RedeemVoteCredits),
        parse_rewards(accts[3]) is Ok,
        parse_history(accts[4]) is Ok,
        accts[0].data == AccountData::Stake(StakeState::Stake(meta, stake)),
        accts[1].key@ == stake.delegation.voter_pubkey@,
        accts[1].data == AccountData::Vote(VoteState { credits: stake.credits_observed }),
        parse_stake(accts[2]) is Ok,
    ensures
        spec_process(accts, data) == Err::<Seq<KeyedAccount>, InstructionError>(
            custom(StakeError::NoCreditsToRedeem),
        ),
{
}

/// A withdrawal of more than the balance less the reserve and the effective
/// stake fails for lack of funds; `process_instruction` then moves nothing.
pub proof fn lemma_withdraw_over_limit_moves_nothing(
    accts: Seq<KeyedAccount>,
    data: Seq<u8>,
    amount: u64,
    state: StakeState,
    clock: Clock,
    history: Seq<(u64, StakeHistoryEntry)>,
)
    requires
        accts.len() >= 4,
        spec_decode(data) == Some(StakeInstruction::Withdraw(amount)),
        parse_clock(accts[1]) == Ok::<Clock, InstructionError>(clock),
        parse_history(accts[2]) == Ok::<Seq<(u64, StakeHistoryEntry)>, InstructionError>(history),
        accts[0].data == AccountData::Stake(state),
        !(state is RewardsPool),
        amount > accts[0].lamports - reserve_of(state) - staked_of(
            state,
            clock,
            history,
            DEFAULT_WARMUP_COOLDOWN_RATE_BPS,
        ),
    ensures
        spec_process(accts, data) == Err::<Seq<KeyedAccount>, InstructionError>(
            InstructionError::InsufficientFunds,
        ),
{
    crate::stake_state::lemma_withdraw_over_limit(
        state,
        accts[0].key,
        accts[0].lamports,
        amount,
        signers_for(accts, 3),
        clock,
        history,
        DEFAULT_WARMUP_COOLDOWN_RATE_BPS,
    );
}

proof fn lemma_signers_of_push(accts: Seq<KeyedAccount>, extra: KeyedAccount, from: int)
    requires
        0 <= from <= accts.len(),
    ensures
        signers_of(accts.push(extra), from) == if extra.is_signer {
            signers_of(accts, from).push(extra.key)
        } else {
            signers_of(accts, from)
        },
    decreases accts.len() - from,
{
    let pushed = accts.push(extra);
    if from == accts.len() {
        assert(signers_of(pushed, from + 1) == Seq::<Pubkey>::empty());
        assert(signers_of(accts, from) == Seq::<Pubkey>::empty());
        if extra.is_signer {
            assert(signers_of(pushed, from) =~= Seq::<Pubkey>::empty().push(extra.key));
        }
    } else {
        lemma_signers_of_push(accts, extra, from + 1);
        assert(pushed[from] == accts[from]);
        if extra.is_signer {
            if accts[from].is_signer {
                assert(seq![accts[from].key] + signers_of(accts, from + 1).push(extra.key) =~= (
                seq![accts[from].key] + signers_of(accts, from + 1)).push(extra.key));
            }
        }
    }
}

/// The withdrawal `[stake, clock, history, destination, signers..]` of an
/// initialized or delegated account, when the withdrawer signed, no lockup
/// blocks and the destination can hold the amount: it fails for lack of funds
/// exactly when `amount` exceeds the balance less the reserve and the effective
/// stake, and otherwise moves exactly `amount` lamports.
pub open spec fn withdraw_outcome(
    accts: Seq<KeyedAccount>,
    amount: u64,
    staked: int,
    reserve: int,
    result: Result<Seq<KeyedAccount>, InstructionError>,
) -> bool {
    if amount > accts[0].lamports - reserve - staked {
        result == Err::<Seq<KeyedAccount>, InstructionError>(InstructionError::InsufficientFunds)
    } else {
        &&& result is Ok
        &&& result->Ok_0.len() == accts.len()
        &&& result->Ok_0[0].lamports == accts[0].lamports - amount
        &&& result->Ok_0[3].lamports == accts[3].lamports + amount
        &&& forall|i: int|
            0 <= i < accts.len() && i != 0 && i != 3 ==> result->Ok_0[i] == accts[i]
    }
}

proof fn lemma_withdraw_dispatch(
    accts: Seq<KeyedAccount>,
    data: Seq<u8>,
    amount: u64,
    state: StakeState,
    clock: Clock,
    history: Seq<(u64, StakeHistoryEntry)>,
)
    requires
        accts.len() >= 4,
        spec_decode(data) == Some(StakeInstruction::Withdraw(amount)),
        parse_clock(accts[1]) == Ok::<Clock, InstructionError>(clock),
        parse_history(accts[2]) == Ok::<Seq<(u64, StakeHistoryEntry)>, InstructionError>(history),
        accts[0].data == AccountData::Stake(state),
        state is Initialized || state is Stake,
        signed(signers_for(accts, 3), meta_of(state).authorized.withdrawer),
        !lockup_blocks(meta_of(state).lockup, Some(clock), signers_for(accts, 3)),
        accts[3].lamports + amount <= u64::MAX,
    ensures
        withdraw_outcome(
            accts,
            amount,
            staked_of(state, clock, history, DEFAULT_WARMUP_COOLDOWN_RATE_BPS),
            reserve_of(state),
            spec_process(accts, data),
        ),
{
    let staked = staked_of(state, clock, history, DEFAULT_WARMUP_COOLDOWN_RATE_BPS);
    if amount <= accts[0].lamports - reserve_of(state) - staked {
        if state is Stake {
            lemma_staked_nonnegative(state, clock, history);
        }
        let r = spec_process(accts, data)->Ok_0;
        assert forall|i: int| 0 <= i < accts.len() && i != 0 && i != 3 implies r[i] == accts[i] by {}
    }
}

proof fn lemma_staked_nonnegative(
    state: StakeState,
    clock: Clock,
    history: Seq<(u64, StakeHistoryEntry)>,
)
    ensures
        staked_of(state, clock, history, DEFAULT_WARMUP_COOLDOWN_RATE_BPS) >= 0,
{
    if let StakeState::Stake(_, stake) = state {
        crate::warmup::lemma_effective_nonnegative(
            stake.delegation,
            clock.epoch,
            history,
            DEFAULT_WARMUP_COOLDOWN_RATE_BPS,
            None,
        );
    }
}

/// While a delegation has not yet warmed up (up to its activation epoch), none
/// of it is held back: a signed withdrawal outside any lockup succeeds exactly
/// when it leaves the reserve, moving exactly `amount` lamports.
pub proof fn lemma_withdraw_before_activation(
    accts: Seq<KeyedAccount>,
    data: Seq<u8>,
    amount: u64,
    meta: Meta,
    stake: Stake,
    clock: Clock,
    history: Seq<(u64, StakeHistoryEntry)>,
)
    requires
        accts.len() >= 4,
        spec_decode(data) == Some(StakeInstruction::Withdraw(amount)),
        parse_clock(accts[1]) == Ok::<Clock, InstructionError>(clock),
        parse_history(accts[2]) == Ok::<Seq<(u64, StakeHistoryEntry)>, InstructionError>(history),
        accts[0].data == AccountData::Stake(StakeState::Stake(meta, stake)),
        clock.epoch <= stake.delegation.activation_epoch,
        signed(signers_for(accts, 3), meta.authorized.withdrawer),
        !meta.lockup.spec_in_force(clock),
        accts[3].lamports + amount <= u64::MAX,
    ensures
        withdraw_outcome(accts, amount, 0, meta.rent_exempt_reserve as int, spec_process(accts, data)),
{
    lemma_warmup_limits(
        stake.delegation,
        clock.epoch,
        history,
        DEFAULT_WARMUP_COOLDOWN_RATE_BPS,
        None,
    );
    lemma_withdraw_dispatch(accts, data, amount, StakeState::Stake(meta, stake), clock, history);
}

/// Once a delegation has warmed up fully (every epoch since activation had
/// headroom for all of it), all of it is held back: a signed withdrawal
/// outside any lockup fails for lack of funds exactly when it would dip into
/// the reserve or the delegated amount, and otherwise moves exactly `amount`.
pub proof fn lemma_withdraw_fully_warmed(
    accts: Seq<KeyedAccount>,
    data: Seq<u8>,
    amount: u64,
    meta: Meta,
    stake: Stake,
    clock: Clock,
    history: Seq<(u64, StakeHistoryEntry)>,
)
    requires
        accts.len() >= 4,
        spec_decode(data) == Some(StakeInstruction::Withdraw(amount)),
        parse_clock(accts[1]) == Ok::<Clock, InstructionError>(clock),
        parse_history(accts[2]) == Ok::<Seq<(u64, StakeHistoryEntry)>, InstructionError>(history),
        accts[0].data == AccountData::Stake(StakeState::Stake(meta, stake)),
        stake.delegation.activation_epoch < clock.epoch,
        stake.delegation.deactivation_epoch == EPOCH_MAX,
        forall|e: u64|
            stake.delegation.activation_epoch <= e < clock.epoch ==> #[trigger] warmup_headroom(
                history,
                DEFAULT_WARMUP_COOLDOWN_RATE_BPS,
                None,
                e,
                stake.delegation.stake,
            ),
        signed(signers_for(accts, 3), meta.authorized.withdrawer),
        !meta.lockup.spec_in_force(clock),
        accts[3].lamports + amount <= u64::MAX,
    ensures
        withdraw_outcome(
            accts,
            amount,
            stake.delegation.stake as int,
            meta.rent_exempt_reserve as int,
            spec_process(accts, data),
        ),
{
    lemma_warmup_limits(
        stake.delegation,
        clock.epoch,
        history,
        DEFAULT_WARMUP_COOLDOWN_RATE_BPS,
        None,
    );
    lemma_withdraw_dispatch(accts, data, amount, StakeState::Stake(meta, stake), clock, history);
}

/// Within the withdrawable amount and with the withdrawer's signature, a
/// withdrawal during a lockup fails with `LockupInForce` and leaves every
/// account as it was; the same accounts with the custodian appended as a
/// signer make it succeed, moving exactly `amount` lamports.
pub proof fn lemma_withdraw_lockup_dispatch(
    accts: Seq<KeyedAccount>,
    data: Seq<u8>,
    amount: u64,
    state: StakeState,
    clock: Clock,
    history: Seq<(u64, StakeHistoryEntry)>,
    custodian: KeyedAccount,
)
    requires
        accts.len() >= 4,
        spec_decode(data) == Some(StakeInstruction::Withdraw(amount)),
        parse_clock(accts[1]) == Ok::<Clock, InstructionError>(clock),
        parse_history(accts[2]) == Ok::<Seq<(u64, StakeHistoryEntry)>, InstructionError>(history),
        accts[0].data == AccountData::Stake(state),
        state is Initialized || state is Stake,
        amount <= accts[0].lamports - reserve_of(state) - staked_of(
            state,
            clock,
            history,
            DEFAULT_WARMUP_COOLDOWN_RATE_BPS,
        ),
        signed(signers_for(accts, 3), meta_of(state).authorized.withdrawer),
        meta_of(state).lockup.spec_in_force(clock),
        !signed(signers_for(accts, 3), meta_of(state).lockup.custodian),
        custodian.key == meta_of(state).lockup.custodian,
        custodian.is_signer,
        accts[3].lamports + amount <= u64::MAX,
    ensures
        spec_process(accts, data) == Err::<Seq<KeyedAccount>, InstructionError>(
            custom(StakeError::LockupInForce),
        ),
        withdraw_outcome(
            accts.push(custodian),
            amount,
            staked_of(state, clock, history, DEFAULT_WARMUP_COOLDOWN_RATE_BPS),
            reserve_of(state),
            spec_process(accts.push(custodian), data),
        ),
{
    let with = accts.push(custodian);
    lemma_signers_of_push(accts, custodian, 3);
    assert(with[0] == accts[0] && with[1] == accts[1] && with[2] == accts[2] && with[3] == accts[3]);
    assert(signers_for(with, 3) == signers_for(accts, 3).push(custodian.key)) by {
        if accts[0].is_signer {
            assert(seq![accts[0].key] + signers_of(accts, 3).push(custodian.key) =~= (seq![
                accts[0].key,
            ] + signers_of(accts, 3)).push(custodian.key));
        }
    }
    crate::stake_state::lemma_withdraw_lockup(
        state,
        accts[0].key,
        accts[0].lamports,
        amount,
        signers_for(accts, 3),
        clock,
        history,
        DEFAULT_WARMUP_COOLDOWN_RATE_BPS,
    );
    let signers = signers_for(with, 3);
    let meta = meta_of(state);
    let i = choose|i: int|
        0 <= i < signers_for(accts, 3).len() && (#[trigger] signers_for(accts, 3)[i])@
            == meta.authorized.withdrawer@;
    assert(signers[i] == signers_for(accts, 3)[i]);
    assert(signed(signers, meta.authorized.withdrawer));
    assert(signers[signers_for(accts, 3).len() as int] == custodian.key);
    assert(signed(signers, meta.lockup.custodian));
    lemma_withdraw_dispatch(with, data, amount, state, clock, history);
}

} // verus!
