//! When the background task wakes up next.
//!
//! It attempts an update, then sleeps on a single timer until just after the
//! next local day change. A failed attempt (offline, API outage) switches to
//! an exponential backoff with jitter, capped at 15 minutes, which stops as
//! soon as an attempt succeeds. When today's picture is not published yet,
//! the task looks again every 30 minutes. A screen change or a wake-up from
//! sleep ends any of these waits early; that is the driver's to notice.

use vstd::prelude::*;
use vstd::arithmetic::power2::pow2;
use crate::chance::random_below;
use crate::updater::Outcome;

verus! {

/// How long to wait before looking again for a picture not published yet,
/// in milliseconds.
pub const RECHECK_MS: u64 = 1800000;

/// First retry delay after a failure, in milliseconds; doubled on each
/// further failure.
pub const BACKOFF_START_MS: u64 = 10000;

/// Ceiling for the retry delay, in milliseconds.
pub const BACKOFF_MAX_MS: u64 = 900000;

/// The delay after the current one: doubled, up to the ceiling.
pub open spec fn doubled(backoff: nat) -> nat {
    if 2 * backoff < BACKOFF_MAX_MS {
        2 * backoff
    } else {
        BACKOFF_MAX_MS as nat
    }
}

pub fn next_backoff(backoff_ms: u64) -> (r: u64)
    ensures
        r == doubled(backoff_ms as nat),
        r <= BACKOFF_MAX_MS,
{
    if backoff_ms < BACKOFF_MAX_MS / 2 {
        2 * backoff_ms
    } else {
        BACKOFF_MAX_MS
    }
}

/// The retry delay after `n` failures in a row.
pub open spec fn backoff_after(n: nat) -> nat
    decreases n,
{
    if n == 0 {
        BACKOFF_START_MS as nat
    } else {
        doubled(backoff_after((n - 1) as nat))
    }
}

/// The retry delay starts at ten seconds and doubles on every failure until
/// it reaches the fifteen-minute ceiling, where it stays.
pub proof fn law_backoff_doubles_up_to_the_cap(n: nat)
    ensures
        backoff_after(n) as int == (if BACKOFF_START_MS * pow2(n) < BACKOFF_MAX_MS {
            BACKOFF_START_MS * pow2(n)
        } else {
            BACKOFF_MAX_MS as int
        }),
    decreases n,
{
    if n > 0 {
        law_backoff_doubles_up_to_the_cap((n - 1) as nat);
        vstd::arithmetic::power2::lemma_pow2_unfold(n);
        let p = pow2((n - 1) as nat);
        assert(pow2(n) == 2 * p);
        assert(BACKOFF_START_MS * pow2(n) == 2 * (BACKOFF_START_MS * p)) by (nonlinear_arith)
            requires pow2(n) == 2 * p;
    } else {
        vstd::arithmetic::power2::lemma2_to64();
        assert(pow2(0) == 1);
    }
}

/// Spreads a retry by -20% to +20%: several machines that lost the same
/// network then do not all come back at the same instant. `permille` is the
/// factor in thousandths.
pub open spec fn jittered(delay: nat, permille: nat) -> nat {
    (delay * permille / 1000) as nat
}

/// A jitter factor, in thousandths, drawn from 800 (included) to 1200
/// (excluded).
pub fn draw_jitter() -> (p: u64)
    ensures
        800 <= p < 1200,
{
    800 + random_below(400)
}

/// The delays whose jittered value is sure to fit in a `u64`.
pub open spec fn jitter_fits(delay: nat) -> bool {
    delay * 6 <= u64::MAX * 5
}

pub fn apply_jitter(delay_ms: u64, permille: u64) -> (r: u64)
    requires
        jitter_fits(delay_ms as nat),
        800 <= permille < 1200,
    ensures
        r == jittered(delay_ms as nat, permille as nat),
        delay_ms * 8 / 10 <= r <= delay_ms * 12 / 10,
{
    proof {
        assert(delay_ms * permille <= u64::MAX * 1200) by (nonlinear_arith)
            requires permille < 1200, delay_ms <= u64::MAX;
    }
    let wide: u128 = (delay_ms as u128) * (permille as u128) / 1000;
    proof {
        assert(delay_ms * 800 <= delay_ms * permille <= delay_ms * 1200) by (nonlinear_arith)
            requires 800 <= permille < 1200;
        assert(delay_ms * permille / 1000 <= delay_ms * 1200 / 1000) by (nonlinear_arith)
            requires delay_ms * permille <= delay_ms * 1200;
        assert(delay_ms * 800 / 1000 <= delay_ms * permille / 1000) by (nonlinear_arith)
            requires delay_ms * 800 <= delay_ms * permille;
    }
    wide as u64
}

/// A delay spread by a random -20% to +20%.
pub fn with_jitter(delay_ms: u64) -> (r: u64)
    requires
        jitter_fits(delay_ms as nat),
    ensures
        delay_ms * 8 / 10 <= r <= delay_ms * 12 / 10,
        exists|p: nat| 800 <= p < 1200 && r == jittered(delay_ms as nat, p),
{
    let p = draw_jitter();
    apply_jitter(delay_ms, p)
}

/// How the last update ended, as far as the schedule is concerned.
#[derive(Debug, Clone, Copy, PartialEq, Eq, Structural)]
pub enum UpdateEnd {
    Succeeded(Outcome),
    Failed,
}

/// The next sleep and the retry delay to carry on with.
#[derive(Debug, Clone, Copy, PartialEq, Eq, Structural)]
pub struct Wait {
    pub sleep_ms: u64,
    pub backoff_ms: u64,
}

/// After an update: a success sleeps on one timer until just after the day
/// changes and forgets the backoff; an APOD not yet published is looked for
/// again after `RECHECK_MS`; a failure sleeps for the jittered retry delay
/// and doubles it. `until_day_change` is the time left until just after the
/// next local midnight, and `permille` the jitter factor.
pub open spec fn wait_after(end: UpdateEnd, backoff: nat, until_day_change: nat, permille: nat) -> (nat, nat) {
    match end {
        UpdateEnd::Succeeded(Outcome::Satisfied) => (until_day_change, BACKOFF_START_MS as nat),
        UpdateEnd::Succeeded(Outcome::AwaitingPublication) => (RECHECK_MS as nat, BACKOFF_START_MS as nat),
        UpdateEnd::Failed => (jittered(backoff, permille), doubled(backoff)),
    }
}

pub fn next_wait(end: UpdateEnd, backoff_ms: u64, until_day_change_ms: u64, permille: u64) -> (w: Wait)
    requires
        jitter_fits(backoff_ms as nat),
        800 <= permille < 1200,
    ensures
        (w.sleep_ms as nat, w.backoff_ms as nat) == wait_after(end, backoff_ms as nat, until_day_change_ms as nat, permille as nat),
        w.backoff_ms <= BACKOFF_MAX_MS,
{
    match end {
        UpdateEnd::Succeeded(Outcome::Satisfied) => Wait {
            sleep_ms: until_day_change_ms,
            backoff_ms: BACKOFF_START_MS,
        },
        UpdateEnd::Succeeded(Outcome::AwaitingPublication) => Wait {
            sleep_ms: RECHECK_MS,
            backoff_ms: BACKOFF_START_MS,
        },
        UpdateEnd::Failed => Wait {
            sleep_ms: apply_jitter(backoff_ms, permille),
            backoff_ms: next_backoff(backoff_ms),
        },
    }
}

/// The retry delay in force after the updates that ended as `ends`, oldest
/// first.
pub open spec fn backoff_before(ends: Seq<UpdateEnd>) -> nat
    decreases ends.len(),
{
    if ends.len() == 0 {
        BACKOFF_START_MS as nat
    } else {
        wait_after(ends.last(), backoff_before(ends.drop_last()), 0, 1000).1
    }
}

/// `k` failed updates in a row.
pub open spec fn failures(k: nat) -> Seq<UpdateEnd> {
    Seq::new(k, |i: int| UpdateEnd::Failed)
}

/// After `k` failed updates in a row -- from the start, or since the last
/// update that succeeded -- the retry delay is `backoff_after(k)`: 10 s
/// doubled `k` times, up to 15 minutes. So the sleep after the `k`-th of them
/// is `backoff_after(k - 1)` with its jitter: 10 s, 20 s, 40 s, and so on.
pub proof fn law_failures_in_a_row_back_off(history: Seq<UpdateEnd>, k: nat, until_day_change: nat, permille: nat)
    requires
        history.len() == 0 || history.last() is Succeeded,
    ensures
        backoff_before(history + failures(k)) == backoff_after(k),
        k >= 1 ==> wait_after(UpdateEnd::Failed, backoff_before(history + failures((k - 1) as nat)), until_day_change, permille).0
            == jittered(backoff_after((k - 1) as nat), permille),
    decreases k,
{
    if k == 0 {
        assert(history + failures(0) =~= history);
        if history.len() > 0 {
            assert(history.last() is Succeeded);
        }
    } else {
        law_failures_in_a_row_back_off(history, (k - 1) as nat, until_day_change, permille);
        let all = history + failures(k);
        assert(all.drop_last() =~= history + failures((k - 1) as nat));
        assert(all.last() == UpdateEnd::Failed);
    }
}

/// A satisfied update is followed by a single sleep lasting until just after
/// the day changes, and the backoff starts again from its first delay.
pub proof fn law_a_satisfied_update_sleeps_until_the_day_changes(history: Seq<UpdateEnd>, until_day_change: nat, permille: nat)
    ensures
        wait_after(UpdateEnd::Succeeded(Outcome::Satisfied), backoff_before(history), until_day_change, permille).0
            == until_day_change,
        backoff_before(history.push(UpdateEnd::Succeeded(Outcome::Satisfied))) == BACKOFF_START_MS,
{
    assert(history.push(UpdateEnd::Succeeded(Outcome::Satisfied)).drop_last() =~= history);
}

/// The schedule carried from one update to the next: the retry delay in
/// force, and how every update so far ended.
pub struct Schedule {
    backoff_ms: u64,
    ends: Ghost<Seq<UpdateEnd>>,
}

impl Schedule {
    #[verifier::type_invariant]
    closed spec fn carries_its_history(self) -> bool {
        &&& self.backoff_ms == backoff_before(self.ends@)
        &&& self.backoff_ms <= BACKOFF_MAX_MS
    }

    /// How the updates so far ended, oldest first.
    pub closed spec fn history(self) -> Seq<UpdateEnd> {
        self.ends@
    }

    /// The schedule before any update.
    pub fn new() -> (s: Schedule)
        ensures
            s.history() == Seq::<UpdateEnd>::empty(),
    {
        Schedule { backoff_ms: BACKOFF_START_MS, ends: Ghost(Seq::empty()) }
    }

    /// The schedule once an update ended as `end`, and how long to sleep
    /// before the next one.
    pub fn after(self, end: UpdateEnd, until_day_change_ms: u64, permille: u64) -> (r: (Schedule, u64))
        requires
            800 <= permille < 1200,
        ensures
            r.0.history() == self.history().push(end),
            r.1 == wait_after(end, backoff_before(self.history()), until_day_change_ms as nat, permille as nat).0,
    {
        proof {
            use_type_invariant(&self);
        }
        let w = next_wait(end, self.backoff_ms, until_day_change_ms, permille);
        let ghost ends = self.ends@.push(end);
        proof {
            assert(ends.drop_last() =~= self.ends@);
        }
        (Schedule { backoff_ms: w.backoff_ms, ends: Ghost(ends) }, w.sleep_ms)
    }
}

} // verus!
