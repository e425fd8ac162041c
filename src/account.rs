use vstd::prelude::*;

use crate::pubkey::Pubkey;
use crate::state::{Clock, StakeState};
use crate::warmup::{StakeHistory, DEFAULT_WARMUP_COOLDOWN_RATE_BPS};

verus! {

/// Bytes of account storage charged for besides the data itself.
pub const ACCOUNT_STORAGE_OVERHEAD: u64 = 128;

/// The size of a stake account's data region.
pub const STAKE_STATE_SIZE: u64 = 200;

/// What a vote account exposes to the stake program: its lifetime credits.
#[derive(Clone, Copy, Debug, PartialEq, Eq)]
pub struct VoteState {
    pub credits: u64,
}

/// Rent parameters: an account is exempt when it holds this many years of rent.
#[derive(Clone, Copy, Debug, PartialEq, Eq)]
pub struct Rent {
    pub lamports_per_byte_year: u64,
    pub exemption_threshold_years: u8,
}

/// Stake program configuration.
#[derive(Clone, Copy, Debug, PartialEq, Eq)]
pub struct Config {
    /// Per-epoch warmup/cooldown rate in basis points.
    pub warmup_cooldown_rate_bps: u64,
}

/// The value of a point (one credit on one lamport of effective stake) for the
/// epoch being rewarded.
#[derive(Clone, Copy, Debug, PartialEq, Eq)]
pub struct RewardsPointValue {
    pub epoch: u64,
    pub lamports_per_point: u64,
}

/// The contents of an account, by kind.
#[derive(Debug, PartialEq, Eq)]
pub enum AccountData {
    /// No data, or data of no kind the stake program reads.
    Empty,
    Stake(StakeState),
    Vote(VoteState),
    Clock(Clock),
    Rent(Rent),
    Config(Config),
    Rewards(RewardsPointValue),
    StakeHistory(StakeHistory),
}

/// An account handed to an instruction: its key, whether it signed, its balance
/// and its contents.
#[derive(Debug, PartialEq, Eq)]
pub struct KeyedAccount {
    pub key: Pubkey,
    pub is_signer: bool,
    pub lamports: u64,
    pub data: AccountData,
}

impl Default for Rent {
    /// 3480 lamports per byte-year, exempt at two years.
    fn default() -> (r: Rent)
        ensures
            r.lamports_per_byte_year == 3480,
            r.exemption_threshold_years == 2,
    {
        Rent { lamports_per_byte_year: 3480, exemption_threshold_years: 2 }
    }
}

impl Default for Config {
    fn default() -> (r: Config)
        ensures
            r.warmup_cooldown_rate_bps == DEFAULT_WARMUP_COOLDOWN_RATE_BPS,
    {
        Config { warmup_cooldown_rate_bps: DEFAULT_WARMUP_COOLDOWN_RATE_BPS }
    }
}

impl Rent {
    pub open spec fn spec_minimum_balance(&self, data_len: u64) -> int {
        (ACCOUNT_STORAGE_OVERHEAD + data_len) * self.lamports_per_byte_year
            * self.exemption_threshold_years
    }

    /// The least balance at which an account of `data_len` bytes is rent-exempt.
    pub fn minimum_balance(&self, data_len: u64) -> (r: u128)
        requires
            data_len <= u32::MAX,
        ensures
            r == self.spec_minimum_balance(data_len),
    {
        let bytes = (ACCOUNT_STORAGE_OVERHEAD + data_len) as u128;
        assert(bytes * self.lamports_per_byte_year <= (u32::MAX as int + 128) * (u64::MAX as int))
            by (nonlinear_arith)
            requires
                bytes <= u32::MAX as int + 128,
                self.lamports_per_byte_year <= u64::MAX,
        ;
        let per_year = bytes * self.lamports_per_byte_year as u128;
            assert(per_year * self.exemption_threshold_years <= (u32::MAX as int + 128) * (
        u64::MAX as int) * (u8::MAX as int)) by (nonlinear_arith)
            requires
                per_year <= (u32::MAX as int + 128) * (u64::MAX as int),
                self.exemption_threshold_years <= u8::MAX,
        ;
        per_year * self.exemption_threshold_years as u128
    }
}

/// Whether `k` is among the signing keys.
pub open spec fn signed(signers: Seq<Pubkey>, k: Pubkey) -> bool {
    exists|i: int| 0 <= i < signers.len() && (#[trigger] signers[i])@ == k@
}

/// Whether `k` signed.
pub fn has_signer(signers: &Vec<Pubkey>, k: &Pubkey) -> (r: bool)
    ensures
        r == signed(signers@, *k),
{
    let n = signers.len();
    let mut i: usize = 0;
    while i < n
        invariant
            n == signers@.len(),
            i <= n,
            forall|j: int| 0 <= j < i ==> (#[trigger] signers@[j])@ != k@,
        decreases n - i,
    {
        if signers[i].equals(k) {
            return true;
        }
        i = i + 1;
    }
    false
}

/// The signing keys among `accounts[from..]`, in order.
pub open spec fn signers_of(accounts: Seq<KeyedAccount>, from: int) -> Seq<Pubkey>
    decreases accounts.len() - from,
{
    if from >= accounts.len() {
        Seq::empty()
    } else if accounts[from].is_signer {
        seq![accounts[from].key] + signers_of(accounts, from + 1)
    } else {
        signers_of(accounts, from + 1)
    }
}

} // verus!
