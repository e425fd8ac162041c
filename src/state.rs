use vstd::prelude::*;

use crate::pubkey::Pubkey;

verus! {

/// The `deactivation_epoch` of a delegation that has not been deactivated.
pub const EPOCH_MAX: u64 = 0xffff_ffff_ffff_ffff;

/// Which of the two authorities an `Authorize` instruction replaces.
#[derive(Clone, Copy, Debug, PartialEq, Eq, Structural)]
pub enum StakeAuthorize {
    Staker,
    Withdrawer,
}

/// The keys that control delegation (`staker`) and fund movement (`withdrawer`).
#[derive(Clone, Copy, Debug, PartialEq, Eq)]
pub struct Authorized {
    pub staker: Pubkey,
    pub withdrawer: Pubkey,
}

/// A time lock on withdrawals and withdrawer changes, lifted early by `custodian`.
#[derive(Clone, Copy, Debug, PartialEq, Eq)]
pub struct Lockup {
    pub unix_timestamp: i64,
    pub epoch: u64,
    pub custodian: Pubkey,
}

/// What every initialized stake account records.
#[derive(Clone, Copy, Debug, PartialEq, Eq)]
pub struct Meta {
    pub rent_exempt_reserve: u64,
    pub authorized: Authorized,
    pub lockup: Lockup,
}

/// A commitment of `stake` lamports to `voter_pubkey`.
#[derive(Clone, Copy, Debug, PartialEq, Eq)]
pub struct Delegation {
    pub voter_pubkey: Pubkey,
    pub stake: u64,
    pub activation_epoch: u64,
    pub deactivation_epoch: u64,
}

/// A delegation together with the vote credits already paid out on it.
#[derive(Clone, Copy, Debug, PartialEq, Eq)]
pub struct Stake {
    pub delegation: Delegation,
    pub credits_observed: u64,
}

/// The lifecycle state stored in a stake account.
#[derive(Clone, Copy, Debug, PartialEq, Eq)]
pub enum StakeState {
    Uninitialized,
    Initialized(Meta),
    Stake(Meta, Stake),
    RewardsPool,
}

/// The clock sysvar: the current epoch and wall-clock time.
#[derive(Clone, Copy, Debug, PartialEq, Eq)]
pub struct Clock {
    pub epoch: u64,
    pub unix_timestamp: i64,
}

impl Default for Authorized {
    /// Both keys zero.
    fn default() -> (r: Authorized)
        ensures
            r.staker@ == Seq::new(32, |i: int| 0u8),
            r.withdrawer@ == Seq::new(32, |i: int| 0u8),
    {
        Authorized { staker: Pubkey::zero(), withdrawer: Pubkey::zero() }
    }
}

impl Default for Lockup {
    /// A lockup that never blocks: time 0, epoch 0, the zero key as custodian.
    fn default() -> (r: Lockup)
        ensures
            r.unix_timestamp == 0,
            r.epoch == 0,
            r.custodian@ == Seq::new(32, |i: int| 0u8),
    {
        Lockup { unix_timestamp: 0, epoch: 0, custodian: Pubkey::zero() }
    }
}

impl Lockup {
    pub open spec fn spec_in_force(&self, clock: Clock) -> bool {
        clock.unix_timestamp < self.unix_timestamp || clock.epoch < self.epoch
    }

    /// Whether the lockup still blocks withdrawals at `clock`.
    pub fn is_in_force(&self, clock: &Clock) -> (r: bool)
        ensures
            r == self.spec_in_force(*clock),
    {
        clock.unix_timestamp < self.unix_timestamp || clock.epoch < self.epoch
    }
}

} // verus!
