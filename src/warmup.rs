use vstd::prelude::*;

use crate::state::{Delegation, EPOCH_MAX};

verus! {

/// Rates are expressed in basis points: 10_000 is the whole amount.
pub const BASIS_POINTS: u64 = 10_000;

/// The warmup/cooldown rate (25%) with which the program computes effective
/// stake. The rate is fixed: `Withdraw` and `RedeemVoteCredits` name no stake
/// config account, so both apply this rate; `DelegateStake` only checks that
/// its config account is well formed. `Delegation::effective_stake` itself
/// takes any rate, for callers that hold another configuration.
pub const DEFAULT_WARMUP_COOLDOWN_RATE_BPS: u64 = 2_500;

/// The rate that takes over from the new-rate activation epoch on (9%).
pub const NEW_WARMUP_COOLDOWN_RATE_BPS: u64 = 900;

/// System-wide stake totals for one epoch.
#[derive(Clone, Copy, Debug, PartialEq, Eq)]
pub struct StakeHistoryEntry {
    pub effective: u64,
    pub activating: u64,
    pub deactivating: u64,
}

/// Per-epoch totals supplied by the runtime; the first entry for an epoch counts.
#[derive(Debug, PartialEq, Eq)]
pub struct StakeHistory {
    pub entries: Vec<(u64, StakeHistoryEntry)>,
}

impl View for StakeHistory {
    type V = Seq<(u64, StakeHistoryEntry)>;

    open spec fn view(&self) -> Seq<(u64, StakeHistoryEntry)> {
        self.entries@
    }
}

pub open spec fn history_get(h: Seq<(u64, StakeHistoryEntry)>, epoch: u64) -> Option<
    StakeHistoryEntry,
>
    decreases h.len(),
{
    if h.len() == 0 {
        None
    } else if h[0].0 == epoch {
        Some(h[0].1)
    } else {
        history_get(h.drop_first(), epoch)
    }
}

/// The rate in force during `epoch`.
pub open spec fn rate_at(rate_bps: u64, new_rate_epoch: Option<u64>, epoch: u64) -> int {
    match new_rate_epoch {
        Some(n) if epoch >= n => NEW_WARMUP_COOLDOWN_RATE_BPS as int,
        _ => rate_bps as int,
    }
}

/// How much stake may change state during an epoch whose relevant total is `total`.
pub open spec fn allowance(total: int, rate: int) -> int {
    rate * total / BASIS_POINTS as int
}

pub open spec fn min_int(a: int, b: int) -> int {
    if a <= b {
        a
    } else {
        b
    }
}

/// The effective amount after `n` warmup epochs, starting at the activation epoch.
pub open spec fn warmed(
    d: Delegation,
    h: Seq<(u64, StakeHistoryEntry)>,
    rate_bps: u64,
    new_rate_epoch: Option<u64>,
    n: nat,
) -> int
    decreases n,
{
    if n == 0 {
        0
    } else {
        let prev = warmed(d, h, rate_bps, new_rate_epoch, (n - 1) as nat);
        let e = (d.activation_epoch + n - 1) as u64;
        match history_get(h, e) {
            None => prev,
            Some(en) => prev + min_int(
                d.stake - prev,
                allowance(en.effective + en.activating, rate_at(rate_bps, new_rate_epoch, e)),
            ),
        }
    }
}

/// The effective amount after `n` cooldown epochs from `start`, beginning at `from`.
pub open spec fn cooled(
    start: int,
    from: u64,
    h: Seq<(u64, StakeHistoryEntry)>,
    rate_bps: u64,
    new_rate_epoch: Option<u64>,
    n: nat,
) -> int
    decreases n,
{
    if n == 0 {
        start
    } else {
        let prev = cooled(start, from, h, rate_bps, new_rate_epoch, (n - 1) as nat);
        let e = (from + n - 1) as u64;
        match history_get(h, e) {
            None => prev,
            Some(en) => prev - min_int(
                prev,
                allowance(en.effective + en.deactivating, rate_at(rate_bps, new_rate_epoch, e)),
            ),
        }
    }
}

/// The effective stake of `d` during `epoch`.
pub open spec fn effective_stake(
    d: Delegation,
    epoch: u64,
    h: Seq<(u64, StakeHistoryEntry)>,
    rate_bps: u64,
    new_rate_epoch: Option<u64>,
) -> int {
    let a = d.activation_epoch;
    let de = d.deactivation_epoch;
    if epoch <= a {
        0
    } else if de == EPOCH_MAX || epoch < de {
        warmed(d, h, rate_bps, new_rate_epoch, (epoch - a) as nat)
    } else {
        let w = if de <= a {
            0
        } else {
            warmed(d, h, rate_bps, new_rate_epoch, (de - a) as nat)
        };
        cooled(w, de, h, rate_bps, new_rate_epoch, (epoch - de) as nat)
    }
}

proof fn lemma_warmed_bounds(
    d: Delegation,
    h: Seq<(u64, StakeHistoryEntry)>,
    rate_bps: u64,
    new_rate_epoch: Option<u64>,
    n: nat,
)
    ensures
        0 <= warmed(d, h, rate_bps, new_rate_epoch, n) <= d.stake,
    decreases n,
{
    if n > 0 {
        lemma_warmed_bounds(d, h, rate_bps, new_rate_epoch, (n - 1) as nat);
    }
}

proof fn lemma_warmed_stays_full(
    d: Delegation,
    h: Seq<(u64, StakeHistoryEntry)>,
    rate_bps: u64,
    new_rate_epoch: Option<u64>,
    k: nat,
    n: nat,
)
    requires
        k <= n,
        warmed(d, h, rate_bps, new_rate_epoch, k) == d.stake,
    ensures
        warmed(d, h, rate_bps, new_rate_epoch, n) == d.stake,
    decreases n - k,
{
    if k < n {
        lemma_warmed_stays_full(d, h, rate_bps, new_rate_epoch, k, (n - 1) as nat);
        let e = (d.activation_epoch + n - 1) as u64;
        match history_get(h, e) {
            None => {},
            Some(en) => {
                assert(allowance(en.effective + en.activating, rate_at(rate_bps, new_rate_epoch, e))
                    >= 0) by (nonlinear_arith)
                    requires
                        rate_at(rate_bps, new_rate_epoch, e) >= 0,
                        en.effective + en.activating >= 0,
                ;
            },
        }
    }
}

proof fn lemma_cooled_bounds(
    start: int,
    from: u64,
    h: Seq<(u64, StakeHistoryEntry)>,
    rate_bps: u64,
    new_rate_epoch: Option<u64>,
    n: nat,
)
    requires
        0 <= start,
    ensures
        0 <= cooled(start, from, h, rate_bps, new_rate_epoch, n) <= start,
    decreases n,
{
    if n > 0 {
        lemma_cooled_bounds(start, from, h, rate_bps, new_rate_epoch, (n - 1) as nat);
    }
}

proof fn lemma_cooled_stays_empty(
    start: int,
    from: u64,
    h: Seq<(u64, StakeHistoryEntry)>,
    rate_bps: u64,
    new_rate_epoch: Option<u64>,
    k: nat,
    n: nat,
)
    requires
        k <= n,
        cooled(start, from, h, rate_bps, new_rate_epoch, k) == 0,
    ensures
        cooled(start, from, h, rate_bps, new_rate_epoch, n) == 0,
    decreases n - k,
{
    if k < n {
        lemma_cooled_stays_empty(start, from, h, rate_bps, new_rate_epoch, k, (n - 1) as nat);
    }
}

impl StakeHistory {
    /// The totals recorded for `epoch`, if any.
    pub fn get(&self, epoch: u64) -> (r: Option<StakeHistoryEntry>)
        ensures
            r == history_get(self@, epoch),
    {
        let n = self.entries.len();
        let mut i: usize = 0;
        assert(self@.subrange(0, n as int) =~= self@);
        while i < n
            invariant
                n == self@.len(),
                i <= n,
                history_get(self@, epoch) == history_get(self@.subrange(i as int, n as int), epoch),
            decreases n - i,
        {
            let item = self.entries[i];
            assert(self@.subrange(i as int, n as int).drop_first() =~= self@.subrange(
                i + 1,
                n as int,
            ));
            if item.0 == epoch {
                return Some(item.1);
            }
            i = i + 1;
        }
        None
    }
}

fn rate_in_epoch(rate_bps: u64, new_rate_epoch: Option<u64>, epoch: u64) -> (r: u64)
    ensures
        r == rate_at(rate_bps, new_rate_epoch, epoch),
{
    match new_rate_epoch {
        Some(n) if epoch >= n => NEW_WARMUP_COOLDOWN_RATE_BPS,
        _ => rate_bps,
    }
}

/// `allowance(total, rate)` capped at `cap`.
fn capped_allowance(total: u128, rate: u64, cap: u64) -> (r: u64)
    requires
        total <= 2 * (u64::MAX as int),
        rate <= BASIS_POINTS,
    ensures
        r == min_int(cap as int, allowance(total as int, rate as int)),
{
    assert(total * rate <= 2 * (u64::MAX as int) * BASIS_POINTS) by (nonlinear_arith)
        requires
            total <= 2 * (u64::MAX as int),
            rate <= BASIS_POINTS,
    ;
    assert((total as int) * (rate as int) == (rate as int) * (total as int)) by (nonlinear_arith);
    let a = total * (rate as u128) / (BASIS_POINTS as u128);
    if a < cap as u128 {
        a as u64
    } else {
        cap
    }
}

impl Delegation {
    /// The effective stake during `epoch`: zero up to the activation epoch, then
    /// warming up and, from the deactivation epoch on, cooling down, epoch by
    /// epoch, by at most the rate's share of the system-wide totals in `history`.
    /// An epoch missing from `history` moves nothing.
    pub fn effective_stake(
        &self,
        epoch: u64,
        history: &StakeHistory,
        rate_bps: u64,
        new_rate_epoch: Option<u64>,
    ) -> (r: u64)
        requires
            rate_bps <= BASIS_POINTS,
        ensures
            r == effective_stake(*self, epoch, history@, rate_bps, new_rate_epoch),
    {
        let a = self.activation_epoch;
        let de = self.deactivation_epoch;
        if epoch <= a {
            return 0;
        }
        if de == EPOCH_MAX || epoch < de {
            self.warm_up(epoch - a, history, rate_bps, new_rate_epoch)
        } else {
            let w = if de <= a {
                0
            } else {
                self.warm_up(de - a, history, rate_bps, new_rate_epoch)
            };
            proof {
                if de > a {
                    lemma_warmed_bounds(*self, history@, rate_bps, new_rate_epoch, (de - a) as nat);
                }
            }
            cool_down(w, de, epoch - de, history, rate_bps, new_rate_epoch)
        }
    }

    fn warm_up(&self, n: u64, history: &StakeHistory, rate_bps: u64, new_rate_epoch: Option<u64>) -> (r: u64)
        requires
            rate_bps <= BASIS_POINTS,
            self.activation_epoch + n <= u64::MAX,
        ensures
            r == warmed(*self, history@, rate_bps, new_rate_epoch, n as nat),
    {
        let stake = self.stake;
        let mut eff: u64 = 0;
        let mut i: u64 = 0;
        while i < n && eff < stake
            invariant
                rate_bps <= BASIS_POINTS,
                self.activation_epoch + n <= u64::MAX,
                stake == self.stake,
                i <= n,
                eff == warmed(*self, history@, rate_bps, new_rate_epoch, i as nat),
                eff <= stake,
            decreases n - i,
        {
            let e = self.activation_epoch + i;
            match history.get(e) {
                Some(en) => {
                    let rate = rate_in_epoch(rate_bps, new_rate_epoch, e);
                    let total = en.effective as u128 + en.activating as u128;
                    let inc = capped_allowance(total, rate, stake - eff);
                    eff = eff + inc;
                },
                None => {},
            }
            i = i + 1;
        }
        proof {
            if i < n {
                lemma_warmed_stays_full(*self, history@, rate_bps, new_rate_epoch, i as nat, n as nat);
            }
        }
        eff
    }
}

fn cool_down(
    start: u64,
    from: u64,
    n: u64,
    history: &StakeHistory,
    rate_bps: u64,
    new_rate_epoch: Option<u64>,
) -> (r: u64)
    requires
        rate_bps <= BASIS_POINTS,
        from + n <= u64::MAX,
    ensures
        r == cooled(start as int, from, history@, rate_bps, new_rate_epoch, n as nat),
{
    let mut eff: u64 = start;
    let mut i: u64 = 0;
    while i < n && eff > 0
        invariant
            rate_bps <= BASIS_POINTS,
            from + n <= u64::MAX,
            i <= n,
            eff == cooled(start as int, from, history@, rate_bps, new_rate_epoch, i as nat),
        decreases n - i,
    {
        let e = from + i;
        match history.get(e) {
            Some(en) => {
                let rate = rate_in_epoch(rate_bps, new_rate_epoch, e);
                let total = en.effective as u128 + en.deactivating as u128;
                let dec = capped_allowance(total, rate, eff);
                eff = eff - dec;
            },
            None => {},
        }
        i = i + 1;
    }
    proof {
        if i < n {
            lemma_cooled_stays_empty(start as int, from, history@, rate_bps, new_rate_epoch, i as nat, n as nat);
        }
    }
    eff
}

/// Whether `history` lets `amount` lamports warm up fully during `epoch`.
pub open spec fn warmup_headroom(
    h: Seq<(u64, StakeHistoryEntry)>,
    rate_bps: u64,
    new_rate_epoch: Option<u64>,
    epoch: u64,
    amount: u64,
) -> bool {
    match history_get(h, epoch) {
        Some(en) => allowance(en.effective + en.activating, rate_at(rate_bps, new_rate_epoch, epoch))
            >= amount,
        None => false,
    }
}

/// A delegation is not effective up to and including its activation epoch, and
/// is fully effective in any later epoch before its deactivation when every
/// epoch since activation had headroom for the whole delegation.
pub proof fn lemma_warmup_limits(
    d: Delegation,
    epoch: u64,
    h: Seq<(u64, StakeHistoryEntry)>,
    rate_bps: u64,
    new_rate_epoch: Option<u64>,
)
    ensures
        epoch <= d.activation_epoch ==> effective_stake(d, epoch, h, rate_bps, new_rate_epoch) == 0,
        ({
            &&& d.activation_epoch < epoch
            &&& (d.deactivation_epoch == EPOCH_MAX || epoch < d.deactivation_epoch)
            &&& forall|e: u64|
                d.activation_epoch <= e < epoch ==> #[trigger] warmup_headroom(
                    h,
                    rate_bps,
                    new_rate_epoch,
                    e,
                    d.stake,
                )
        }) ==> effective_stake(d, epoch, h, rate_bps, new_rate_epoch) == d.stake,
{
    if d.activation_epoch < epoch {
        let e0 = d.activation_epoch;
        if warmup_headroom(h, rate_bps, new_rate_epoch, e0, d.stake) {
            assert(warmed(d, h, rate_bps, new_rate_epoch, 0) == 0);
            assert(warmed(d, h, rate_bps, new_rate_epoch, 1) == d.stake);
            lemma_warmed_stays_full(d, h, rate_bps, new_rate_epoch, 1, (epoch - e0) as nat);
        }
    }
}

/// Effective stake is never negative.
pub proof fn lemma_effective_nonnegative(
    d: Delegation,
    epoch: u64,
    h: Seq<(u64, StakeHistoryEntry)>,
    rate_bps: u64,
    new_rate_epoch: Option<u64>,
)
    ensures
        0 <= effective_stake(d, epoch, h, rate_bps, new_rate_epoch) <= d.stake,
{
    let a = d.activation_epoch;
    let de = d.deactivation_epoch;
    if epoch > a {
        if de == EPOCH_MAX || epoch < de {
            lemma_warmed_bounds(d, h, rate_bps, new_rate_epoch, (epoch - a) as nat);
        } else {
            let w = if de <= a {
                0
            } else {
                lemma_warmed_bounds(d, h, rate_bps, new_rate_epoch, (de - a) as nat);
                warmed(d, h, rate_bps, new_rate_epoch, (de - a) as nat)
            };
            lemma_cooled_bounds(w, de, h, rate_bps, new_rate_epoch, (epoch - de) as nat);
        }
    }
}

} // verus!
