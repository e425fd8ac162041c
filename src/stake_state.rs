use vstd::prelude::*;

use crate::account::{has_signer, signed, Rent, RewardsPointValue, STAKE_STATE_SIZE};
use crate::error::{custom, InstructionError, StakeError};
use crate::pubkey::Pubkey;
use crate::state::{
    Authorized, Clock, Delegation, Lockup, Meta, Stake, StakeAuthorize, StakeState, EPOCH_MAX,
};
use crate::warmup::{effective_stake, StakeHistory, StakeHistoryEntry, BASIS_POINTS};

verus! {

// ---------------------------------------------------------------- initialize

/// The result of `Initialize` on an account in `state` holding `lamports`,
/// when rent exemption needs `reserve` lamports.
pub open spec fn spec_initialize(
    state: StakeState,
    lamports: u64,
    reserve: int,
    authorized: Authorized,
    lockup: Lockup,
) -> Result<StakeState, InstructionError> {
    match state {
        StakeState::Uninitialized => if lamports >= reserve {
            Ok(
                StakeState::Initialized(
                    Meta { rent_exempt_reserve: reserve as u64, authorized, lockup },
                ),
            )
        } else {
            Err(InstructionError::InsufficientFunds)
        },
        _ => Err(InstructionError::AccountAlreadyInitialized),
    }
}

/// Sets the authorities and lockup of an uninitialized, rent-exempt account.
pub fn initialize(
    state: &StakeState,
    lamports: u64,
    rent: &Rent,
    authorized: &Authorized,
    lockup: &Lockup,
) -> (r: Result<StakeState, InstructionError>)
    ensures
        r == spec_initialize(
            *state,
            lamports,
            rent.spec_minimum_balance(STAKE_STATE_SIZE),
            *authorized,
            *lockup,
        ),
{
    match state {
        StakeState::Uninitialized => {
            let reserve = rent.minimum_balance(STAKE_STATE_SIZE);
            if lamports as u128 >= reserve {
                Ok(
                    StakeState::Initialized(
                        Meta {
                            rent_exempt_reserve: reserve as u64,
                            authorized: *authorized,
                            lockup: *lockup,
                        },
                    ),
                )
            } else {
                Err(InstructionError::InsufficientFunds)
            }
        },
        _ => Err(InstructionError::AccountAlreadyInitialized),
    }
}

/// Initializing an uninitialized account with a rent-exempt balance succeeds,
/// and initializing the result again fails as already initialized.
pub proof fn lemma_initialize_once(
    lamports: u64,
    reserve: int,
    authorized: Authorized,
    lockup: Lockup,
    reserve2: int,
    authorized2: Authorized,
    lockup2: Lockup,
)
    requires
        0 <= reserve <= lamports,
    ensures
        spec_initialize(StakeState::Uninitialized, lamports, reserve, authorized, lockup) == Ok::<
            StakeState,
            InstructionError,
        >(
            StakeState::Initialized(
                Meta { rent_exempt_reserve: reserve as u64, authorized, lockup },
            ),
        ),
        spec_initialize(
            spec_initialize(StakeState::Uninitialized, lamports, reserve, authorized, lockup)->Ok_0,
            lamports,
            reserve2,
            authorized2,
            lockup2,
        ) == Err::<StakeState, InstructionError>(InstructionError::AccountAlreadyInitialized),
{
}

// ----------------------------------------------------------------- authorize

/// The moment a lockup is judged at when no clock is supplied: epoch 0, Unix
/// time 0. Any lockup that was actually set (a positive time or epoch) is then
/// in force, and the default lockup, which never blocks, is not.
pub open spec fn clock_origin() -> Clock {
    Clock { epoch: 0, unix_timestamp: 0 }
}

/// Whether a lockup blocks the operation: the custodian did not sign and the
/// lockup is in force at `clock`, or at `clock_origin()` when no clock is known.
pub open spec fn lockup_blocks(lockup: Lockup, clock: Option<Clock>, signers: Seq<Pubkey>) -> bool {
    &&& !signed(signers, lockup.custodian)
    &&& match clock {
        Some(c) => lockup.spec_in_force(c),
        None => lockup.spec_in_force(clock_origin()),
    }
}

fn lockup_blocks_exec(lockup: &Lockup, clock: &Option<Clock>, signers: &Vec<Pubkey>) -> (r: bool)
    ensures
        r == lockup_blocks(*lockup, *clock, signers@),
{
    let in_force = match clock {
        Some(c) => lockup.is_in_force(c),
        None => lockup.is_in_force(&Clock { epoch: 0, unix_timestamp: 0 }),
    };
    in_force && !has_signer(signers, &lockup.custodian)
}

pub open spec fn spec_authorize_meta(
    meta: Meta,
    signers: Seq<Pubkey>,
    new_key: Pubkey,
    role: StakeAuthorize,
    clock: Option<Clock>,
) -> Result<Meta, InstructionError> {
    match role {
        StakeAuthorize::Staker => if signed(signers, meta.authorized.staker) {
            Ok(Meta { authorized: Authorized { staker: new_key, ..meta.authorized }, ..meta })
        } else {
            Err(InstructionError::MissingRequiredSignature)
        },
        StakeAuthorize::Withdrawer => if !signed(signers, meta.authorized.withdrawer) {
            Err(InstructionError::MissingRequiredSignature)
        } else if lockup_blocks(meta.lockup, clock, signers) {
            Err(custom(StakeError::LockupInForce))
        } else {
            Ok(Meta { authorized: Authorized { withdrawer: new_key, ..meta.authorized }, ..meta })
        },
    }
}

/// The result of `Authorize`: the key of `role` becomes `new_key`.
pub open spec fn spec_authorize(
    state: StakeState,
    signers: Seq<Pubkey>,
    new_key: Pubkey,
    role: StakeAuthorize,
    clock: Option<Clock>,
) -> Result<StakeState, InstructionError> {
    match state {
        StakeState::Initialized(meta) => match spec_authorize_meta(
            meta,
            signers,
            new_key,
            role,
            clock,
        ) {
            Ok(m) => Ok(StakeState::Initialized(m)),
            Err(e) => Err(e),
        },
        StakeState::Stake(meta, stake) => match spec_authorize_meta(
            meta,
            signers,
            new_key,
            role,
            clock,
        ) {
            Ok(m) => Ok(StakeState::Stake(m, stake)),
            Err(e) => Err(e),
        },
        _ => Err(InstructionError::InvalidAccountData),
    }
}

fn authorize_meta(
    meta: &Meta,
    signers: &Vec<Pubkey>,
    new_key: &Pubkey,
    role: StakeAuthorize,
    clock: &Option<Clock>,
) -> (r: Result<Meta, InstructionError>)
    ensures
        r == spec_authorize_meta(*meta, signers@, *new_key, role, *clock),
{
    match role {
        StakeAuthorize::Staker => {
            if has_signer(signers, &meta.authorized.staker) {
                Ok(
                    Meta {
                        authorized: Authorized { staker: *new_key, ..meta.authorized },
                        ..*meta
                    },
                )
            } else {
                Err(InstructionError::MissingRequiredSignature)
            }
        },
        StakeAuthorize::Withdrawer => {
            if !has_signer(signers, &meta.authorized.withdrawer) {
                Err(InstructionError::MissingRequiredSignature)
            } else if lockup_blocks_exec(&meta.lockup, clock, signers) {
                Err(InstructionError::from(StakeError::LockupInForce))
            } else {
                Ok(
                    Meta {
                        authorized: Authorized { withdrawer: *new_key, ..meta.authorized },
                        ..*meta
                    },
                )
            }
        },
    }
}

/// Replaces the staker or withdrawer key; needs that key's signature, and for
/// the withdrawer, the custodian's too while the lockup is in force.
pub fn authorize(
    state: &StakeState,
    signers: &Vec<Pubkey>,
    new_key: &Pubkey,
    role: StakeAuthorize,
    clock: &Option<Clock>,
) -> (r: Result<StakeState, InstructionError>)
    ensures
        r == spec_authorize(*state, signers@, *new_key, role, *clock),
{
    match state {
        StakeState::Initialized(meta) => match authorize_meta(meta, signers, new_key, role, clock) {
            Ok(m) => Ok(StakeState::Initialized(m)),
            Err(e) => Err(e),
        },
        StakeState::Stake(meta, stake) => match authorize_meta(
            meta,
            signers,
            new_key,
            role,
            clock,
        ) {
            Ok(m) => Ok(StakeState::Stake(m, *stake)),
            Err(e) => Err(e),
        },
        _ => Err(InstructionError::InvalidAccountData),
    }
}

// ------------------------------------------------------------------ delegate

/// A fresh delegation of `amount` to `voter`, activating in `epoch`.
pub open spec fn new_stake(voter: Pubkey, amount: u64, epoch: u64, credits: u64) -> Stake {
    Stake {
        delegation: Delegation {
            voter_pubkey: voter,
            stake: amount,
            activation_epoch: epoch,
            deactivation_epoch: EPOCH_MAX,
        },
        credits_observed: credits,
    }
}

/// The result of `DelegateStake` to the vote account `voter` with `credits`.
///
/// A first delegation stakes the whole balance above the reserve. Delegating
/// again to the same voter while not deactivating changes nothing; delegating
/// to another voter, or while deactivating, starts a fresh delegation.
pub open spec fn spec_delegate(
    state: StakeState,
    lamports: u64,
    signers: Seq<Pubkey>,
    voter: Pubkey,
    credits: u64,
    clock: Clock,
) -> Result<StakeState, InstructionError> {
    match state {
        StakeState::Initialized(meta) => if !signed(signers, meta.authorized.staker) {
            Err(InstructionError::MissingRequiredSignature)
        } else if lamports < meta.rent_exempt_reserve {
            Err(InstructionError::InsufficientFunds)
        } else {
            Ok(
                StakeState::Stake(
                    meta,
                    new_stake(
                        voter,
                        (lamports - meta.rent_exempt_reserve) as u64,
                        clock.epoch,
                        credits,
                    ),
                ),
            )
        },
        StakeState::Stake(meta, stake) => if !signed(signers, meta.authorized.staker) {
            Err(InstructionError::MissingRequiredSignature)
        } else if stake.delegation.voter_pubkey@ == voter@ && stake.delegation.deactivation_epoch
            == EPOCH_MAX {
            Ok(state)
        } else if lamports < meta.rent_exempt_reserve {
            Err(InstructionError::InsufficientFunds)
        } else {
            Ok(
                StakeState::Stake(
                    meta,
                    new_stake(
                        voter,
                        (lamports - meta.rent_exempt_reserve) as u64,
                        clock.epoch,
                        credits,
                    ),
                ),
            )
        },
        _ => Err(InstructionError::InvalidAccountData),
    }
}

fn fresh_stake(meta: &Meta, lamports: u64, voter: &Pubkey, credits: u64, clock: &Clock) -> (r:
    Result<StakeState, InstructionError>)
    ensures
        r == (if lamports < meta.rent_exempt_reserve {
            Err(InstructionError::InsufficientFunds)
        } else {
            Ok(
                StakeState::Stake(
                    *meta,
                    new_stake(
                        *voter,
                        (lamports - meta.rent_exempt_reserve) as u64,
                        clock.epoch,
                        credits,
                    ),
                ),
            )
        }),
{
    if lamports < meta.rent_exempt_reserve {
        Err(InstructionError::InsufficientFunds)
    } else {
        Ok(
            StakeState::Stake(
                *meta,
                Stake {
                    delegation: Delegation {
                        voter_pubkey: *voter,
                        stake: lamports - meta.rent_exempt_reserve,
                        activation_epoch: clock.epoch,
                        deactivation_epoch: EPOCH_MAX,
                    },
                    credits_observed: credits,
                },
            ),
        )
    }
}

/// Delegates the stakeable balance to `voter`; needs the staker's signature.
pub fn delegate(
    state: &StakeState,
    lamports: u64,
    signers: &Vec<Pubkey>,
    voter: &Pubkey,
    credits: u64,
    clock: &Clock,
) -> (r: Result<StakeState, InstructionError>)
    ensures
        r == spec_delegate(*state, lamports, signers@, *voter, credits, *clock),
{
    match state {
        StakeState::Initialized(meta) => {
            if !has_signer(signers, &meta.authorized.staker) {
                Err(InstructionError::MissingRequiredSignature)
            } else {
                fresh_stake(meta, lamports, voter, credits, clock)
            }
        },
        StakeState::Stake(meta, stake) => {
            if !has_signer(signers, &meta.authorized.staker) {
                Err(InstructionError::MissingRequiredSignature)
            } else if stake.delegation.voter_pubkey.equals(voter)
                && stake.delegation.deactivation_epoch == EPOCH_MAX {
                Ok(*state)
            } else {
                fresh_stake(meta, lamports, voter, credits, clock)
            }
        },
        _ => Err(InstructionError::InvalidAccountData),
    }
}

// -------------------------------------------------------------------- redeem

/// Lamports earned by `new_credits` credits on `effective` lamports of stake.
pub open spec fn reward(new_credits: int, effective: int, lamports_per_point: int) -> int {
    new_credits * effective * lamports_per_point
}

/// The result of `RedeemVoteCredits`: the stake's new state and the reward
/// moved from the pool (holding `pool_lamports`) into the stake account
/// (holding `lamports`).
pub open spec fn spec_redeem(
    state: StakeState,
    lamports: u64,
    voter: Pubkey,
    credits: u64,
    pool: StakeState,
    pool_lamports: u64,
    point_value: RewardsPointValue,
    history: Seq<(u64, StakeHistoryEntry)>,
    rate_bps: u64,
) -> Result<(StakeState, u64), InstructionError> {
    match state {
        StakeState::Stake(meta, stake) => {
            let d = stake.delegation;
            let r = reward(
                credits - stake.credits_observed,
                effective_stake(d, point_value.epoch, history, rate_bps, None),
                point_value.lamports_per_point as int,
            );
            if d.voter_pubkey@ != voter@ {
                Err(InstructionError::InvalidArgument)
            } else if credits <= stake.credits_observed {
                Err(custom(StakeError::NoCreditsToRedeem))
            } else if !(pool is RewardsPool) {
                Err(InstructionError::InvalidAccountData)
            } else if r > pool_lamports {
                Err(InstructionError::RewardsPoolDepleted)
            } else if lamports + r > u64::MAX || d.stake + r > u64::MAX {
                Err(InstructionError::ArithmeticOverflow)
            } else {
                Ok(
                    (
                        StakeState::Stake(
                            meta,
                            Stake {
                                delegation: Delegation { stake: (d.stake + r) as u64, ..d },
                                credits_observed: credits,
                            },
                        ),
                        r as u64,
                    ),
                )
            }
        },
        _ => Err(InstructionError::InvalidAccountData),
    }
}

/// Pays the credits earned since the last redemption out of the rewards pool:
/// the reward is new credits times effective stake at the point value's epoch
/// times lamports per point, and it is added to the delegation.
pub fn redeem(
    state: &StakeState,
    lamports: u64,
    voter: &Pubkey,
    credits: u64,
    pool: &StakeState,
    pool_lamports: u64,
    point_value: &RewardsPointValue,
    history: &StakeHistory,
    rate_bps: u64,
) -> (r: Result<(StakeState, u64), InstructionError>)
    requires
        rate_bps <= BASIS_POINTS,
    ensures
        r == spec_redeem(
            *state,
            lamports,
            *voter,
            credits,
            *pool,
            pool_lamports,
            *point_value,
            history@,
            rate_bps,
        ),
        r matches Ok((_, x)) ==> x <= pool_lamports && lamports + x <= u64::MAX,
{
    match state {
        StakeState::Stake(meta, stake) => {
            let d = stake.delegation;
            if !d.voter_pubkey.equals(voter) {
                return Err(InstructionError::InvalidArgument);
            }
            if credits <= stake.credits_observed {
                return Err(InstructionError::from(StakeError::NoCreditsToRedeem));
            }
            let is_pool = match pool {
                StakeState::RewardsPool => true,
                _ => false,
            };
            if !is_pool {
                return Err(InstructionError::InvalidAccountData);
            }
            let effective = d.effective_stake(point_value.epoch, history, rate_bps, None);
            let new_credits = credits - stake.credits_observed;
            let lpp = point_value.lamports_per_point;
            assert(new_credits as int * effective as int <= u64::MAX as int * u64::MAX as int)
                by (nonlinear_arith)
                requires
                    new_credits <= u64::MAX,
                    effective <= u64::MAX,
            ;
            let per_point = new_credits as u128 * effective as u128;
            // A product above the pool's balance is refused either way.
            if lpp != 0 && per_point > (pool_lamports as u128) / (lpp as u128) {
                proof {
                    assert(reward(new_credits as int, effective as int, lpp as int) > pool_lamports)
                        by (nonlinear_arith)
                        requires
                            lpp > 0,
                            per_point == new_credits as int * effective as int,
                            per_point > pool_lamports as int / lpp as int,
                    ;
                }
                return Err(InstructionError::RewardsPoolDepleted);
            }
            assert(per_point * lpp <= pool_lamports) by (nonlinear_arith)
                requires
                    lpp == 0 || per_point <= pool_lamports as int / lpp as int,
                    lpp >= 0,
                    per_point >= 0,
            ;
            let r = per_point * lpp as u128;
            assert(r == reward(new_credits as int, effective as int, lpp as int));
            let r = r as u64;
            if lamports > u64::MAX - r || d.stake > u64::MAX - r {
                return Err(InstructionError::ArithmeticOverflow);
            }
            Ok(
                (
                    StakeState::Stake(
                        *meta,
                        Stake {
                            delegation: Delegation { stake: d.stake + r, ..d },
                            credits_observed: credits,
                        },
                    ),
                    r,
                ),
            )
        },
        _ => Err(InstructionError::InvalidAccountData),
    }
}

/// Redeeming when the vote account has earned nothing since the last
/// redemption fails with `NoCreditsToRedeem`.
pub proof fn lemma_redeem_without_credits(
    meta: Meta,
    stake: Stake,
    lamports: u64,
    pool: StakeState,
    pool_lamports: u64,
    point_value: RewardsPointValue,
    history: Seq<(u64, StakeHistoryEntry)>,
    rate_bps: u64,
)
    ensures
        spec_redeem(
            StakeState::Stake(meta, stake),
            lamports,
            stake.delegation.voter_pubkey,
            stake.credits_observed,
            pool,
            pool_lamports,
            point_value,
            history,
            rate_bps,
        ) == Err::<(StakeState, u64), InstructionError>(custom(StakeError::NoCreditsToRedeem)),
{
}

// ------------------------------------------------------------------ withdraw

/// The lamports an account in `state` must keep for rent exemption.
pub open spec fn reserve_of(state: StakeState) -> int {
    match state {
        StakeState::Initialized(meta) => meta.rent_exempt_reserve as int,
        StakeState::Stake(meta, _) => meta.rent_exempt_reserve as int,
        _ => 0,
    }
}

/// The effective stake of an account in `state` during the clock's epoch.
pub open spec fn staked_of(
    state: StakeState,
    clock: Clock,
    history: Seq<(u64, StakeHistoryEntry)>,
    rate_bps: u64,
) -> int {
    match state {
        StakeState::Stake(_, stake) => effective_stake(
            stake.delegation,
            clock.epoch,
            history,
            rate_bps,
            None,
        ),
        _ => 0,
    }
}

/// What an initialized account checks before a withdrawal: funds, then the
/// withdrawer's signature, then the lockup.
pub open spec fn withdraw_refusal(
    meta: Meta,
    lamports: u64,
    amount: u64,
    staked: int,
    signers: Seq<Pubkey>,
    clock: Clock,
) -> Option<InstructionError> {
    if amount > lamports - meta.rent_exempt_reserve - staked {
        Some(InstructionError::InsufficientFunds)
    } else if !signed(signers, meta.authorized.withdrawer) {
        Some(InstructionError::MissingRequiredSignature)
    } else if lockup_blocks(meta.lockup, Some(clock), signers) {
        Some(custom(StakeError::LockupInForce))
    } else {
        None
    }
}

/// The state after withdrawing `amount` of the `lamports` of the account `key`.
///
/// Only what exceeds the reserve and the effective stake can leave. An
/// uninitialized account is controlled by its own key; an initialized one that
/// is emptied becomes uninitialized. Rewards pools pay out only by redemption.
pub open spec fn spec_withdraw(
    state: StakeState,
    key: Pubkey,
    lamports: u64,
    amount: u64,
    signers: Seq<Pubkey>,
    clock: Clock,
    history: Seq<(u64, StakeHistoryEntry)>,
    rate_bps: u64,
) -> Result<StakeState, InstructionError> {
    match state {
        StakeState::Uninitialized => if amount > lamports {
            Err(InstructionError::InsufficientFunds)
        } else if !signed(signers, key) {
            Err(InstructionError::MissingRequiredSignature)
        } else {
            Ok(state)
        },
        StakeState::Initialized(meta) => match withdraw_refusal(
            meta,
            lamports,
            amount,
            0,
            signers,
            clock,
        ) {
            Some(e) => Err(e),
            None => if amount == lamports {
                Ok(StakeState::Uninitialized)
            } else {
                Ok(state)
            },
        },
        StakeState::Stake(meta, _) => match withdraw_refusal(
            meta,
            lamports,
            amount,
            staked_of(state, clock, history, rate_bps),
            signers,
            clock,
        ) {
            Some(e) => Err(e),
            None => Ok(state),
        },
        StakeState::RewardsPool => Err(InstructionError::InvalidAccountData),
    }
}

fn withdraw_refusal_exec(
    meta: &Meta,
    lamports: u64,
    amount: u64,
    staked: u64,
    signers: &Vec<Pubkey>,
    clock: &Clock,
) -> (r: Option<InstructionError>)
    ensures
        r == withdraw_refusal(*meta, lamports, amount, staked as int, signers@, *clock),
{
    if amount as u128 + meta.rent_exempt_reserve as u128 + staked as u128 > lamports as u128 {
        Some(InstructionError::InsufficientFunds)
    } else if !has_signer(signers, &meta.authorized.withdrawer) {
        Some(InstructionError::MissingRequiredSignature)
    } else if lockup_blocks_exec(&meta.lockup, &Some(*clock), signers) {
        Some(InstructionError::from(StakeError::LockupInForce))
    } else {
        None
    }
}

/// Checks a withdrawal of `amount` lamports and gives the account's new state.
pub fn withdraw(
    state: &StakeState,
    key: &Pubkey,
    lamports: u64,
    amount: u64,
    signers: &Vec<Pubkey>,
    clock: &Clock,
    history: &StakeHistory,
    rate_bps: u64,
) -> (r: Result<StakeState, InstructionError>)
    requires
        rate_bps <= BASIS_POINTS,
    ensures
        r == spec_withdraw(*state, *key, lamports, amount, signers@, *clock, history@, rate_bps),
        r is Ok ==> amount <= lamports,
{
    match state {
        StakeState::Uninitialized => {
            if amount > lamports {
                Err(InstructionError::InsufficientFunds)
            } else if !has_signer(signers, key) {
                Err(InstructionError::MissingRequiredSignature)
            } else {
                Ok(*state)
            }
        },
        StakeState::Initialized(meta) => match withdraw_refusal_exec(
            meta,
            lamports,
            amount,
            0,
            signers,
            clock,
        ) {
            Some(e) => Err(e),
            None => if amount == lamports {
                Ok(StakeState::Uninitialized)
            } else {
                Ok(*state)
            },
        },
        StakeState::Stake(meta, stake) => {
            let staked = stake.delegation.effective_stake(clock.epoch, history, rate_bps, None);
            match withdraw_refusal_exec(meta, lamports, amount, staked, signers, clock) {
                Some(e) => Err(e),
                None => Ok(*state),
            }
        },
        StakeState::RewardsPool => Err(InstructionError::InvalidAccountData),
    }
}

/// Withdrawing more than the balance less the reserve and the effective stake
/// fails for lack of funds.
pub proof fn lemma_withdraw_over_limit(
    state: StakeState,
    key: Pubkey,
    lamports: u64,
    amount: u64,
    signers: Seq<Pubkey>,
    clock: Clock,
    history: Seq<(u64, StakeHistoryEntry)>,
    rate_bps: u64,
)
    requires
        !(state is RewardsPool),
        amount > lamports - reserve_of(state) - staked_of(state, clock, history, rate_bps),
    ensures
        spec_withdraw(state, key, lamports, amount, signers, clock, history, rate_bps) == Err::<
            StakeState,
            InstructionError,
        >(InstructionError::InsufficientFunds),
{
}

/// Within the withdrawable amount and with the withdrawer's signature, a
/// withdrawal during a lockup fails with `LockupInForce`, and the same
/// withdrawal also signed by the custodian succeeds.
pub proof fn lemma_withdraw_lockup(
    state: StakeState,
    key: Pubkey,
    lamports: u64,
    amount: u64,
    signers: Seq<Pubkey>,
    clock: Clock,
    history: Seq<(u64, StakeHistoryEntry)>,
    rate_bps: u64,
)
    requires
        state is Initialized || state is Stake,
        amount <= lamports - reserve_of(state) - staked_of(state, clock, history, rate_bps),
        signed(signers, meta_of(state).authorized.withdrawer),
        meta_of(state).lockup.spec_in_force(clock),
        !signed(signers, meta_of(state).lockup.custodian),
    ensures
        spec_withdraw(state, key, lamports, amount, signers, clock, history, rate_bps) == Err::<
            StakeState,
            InstructionError,
        >(custom(StakeError::LockupInForce)),
        spec_withdraw(
            state,
            key,
            lamports,
            amount,
            signers.push(meta_of(state).lockup.custodian),
            clock,
            history,
            rate_bps,
        ) is Ok,
{
    let meta = meta_of(state);
    let with = signers.push(meta.lockup.custodian);
    let i = choose|i: int| 0 <= i < signers.len() && (#[trigger] signers[i])@ == meta.authorized.withdrawer@;
    assert(with[i] == signers[i]);
    assert(signed(with, meta.authorized.withdrawer));
    assert(with[signers.len() as int] == meta.lockup.custodian);
    assert(signed(with, meta.lockup.custodian));
}

/// The metadata of an initialized account.
pub open spec fn meta_of(state: StakeState) -> Meta
    recommends
        state is Initialized || state is Stake,
{
    match state {
        StakeState::Initialized(meta) => meta,
        StakeState::Stake(meta, _) => meta,
        _ => arbitrary(),
    }
}

// ---------------------------------------------------------------- deactivate

/// The result of `Deactivate`: the delegation starts cooling down in the
/// clock's epoch.
pub open spec fn spec_deactivate(state: StakeState, signers: Seq<Pubkey>, clock: Clock) -> Result<
    StakeState,
    InstructionError,
> {
    match state {
        StakeState::Stake(meta, stake) => if !signed(signers, meta.authorized.staker) {
            Err(InstructionError::MissingRequiredSignature)
        } else if stake.delegation.deactivation_epoch != EPOCH_MAX {
            Err(InstructionError::StakeAlreadyDeactivated)
        } else {
            Ok(
                StakeState::Stake(
                    meta,
                    Stake {
                        delegation: Delegation {
                            deactivation_epoch: clock.epoch,
                            ..stake.delegation
                        },
                        ..stake
                    },
                ),
            )
        },
        _ => Err(InstructionError::InvalidAccountData),
    }
}

/// Deactivates a delegation; needs the staker's signature.
pub fn deactivate(state: &StakeState, signers: &Vec<Pubkey>, clock: &Clock) -> (r: Result<
    StakeState,
    InstructionError,
>)
    ensures
        r == spec_deactivate(*state, signers@, *clock),
{
    match state {
        StakeState::Stake(meta, stake) => {
            if !has_signer(signers, &meta.authorized.staker) {
                Err(InstructionError::MissingRequiredSignature)
            } else if stake.delegation.deactivation_epoch != EPOCH_MAX {
                Err(InstructionError::StakeAlreadyDeactivated)
            } else {
                Ok(
                    StakeState::Stake(
                        *meta,
                        Stake {
                            delegation: Delegation {
                                deactivation_epoch: clock.epoch,
                                ..stake.delegation
                            },
                            ..*stake
                        },
                    ),
                )
            }
        },
        _ => Err(InstructionError::InvalidAccountData),
    }
}

} // verus!
