//! The restart frequency limiter: a sliding window over restart times.
use vstd::prelude::*;

verus! {

/// A restart made at time `t` still counts at time `now` when it is no
/// older than `period`.
pub open spec fn in_window(t: u64, now: u64, period: u64) -> bool {
    now - period <= t
}

/// The restart times of `s`, in order, that still count at time `now`.
pub open spec fn window(s: Seq<u64>, now: u64, period: u64) -> Seq<u64>
    decreases s.len(),
{
    if s.len() == 0 {
        s
    } else {
        let rest = window(s.drop_last(), now, period);
        if in_window(s.last(), now, period) {
            rest.push(s.last())
        } else {
            rest
        }
    }
}

/// The time at which a restart proposed at `now` is counted: a clock that
/// reads earlier than the latest recorded restart is taken to read the time
/// of that restart, so that recorded times never go back.
pub open spec fn effective_now(stamps: Seq<u64>, now: u64) -> u64 {
    if stamps.len() > 0 && stamps.last() > now {
        stamps.last()
    } else {
        now
    }
}

/// `n` copies of `t`.
pub open spec fn repeat(t: u64, n: nat) -> Seq<u64> {
    Seq::new(n, |i: int| t)
}

/// The evaluation of a batch of `n` restarts proposed at time `now`, each
/// of which uses one unit of the budget: the restart times kept afterwards,
/// and whether the batch is permitted. The times that no longer count are
/// evicted; the batch is permitted when it fits in what is left of the
/// budget, and is then recorded. A denied batch records nothing.
pub open spec fn evaluate_batch(stamps: Seq<u64>, max_restarts: u64, period: u64, now: u64, n: nat) -> (Seq<u64>, bool) {
    let t = effective_now(stamps, now);
    let kept = window(stamps, t, period);
    if kept.len() + n > max_restarts {
        (kept, false)
    } else {
        (kept + repeat(t, n), true)
    }
}

/// The evaluation of one restart proposed at time `now`.
pub open spec fn evaluate(stamps: Seq<u64>, max_restarts: u64, period: u64, now: u64) -> (Seq<u64>, bool) {
    evaluate_batch(stamps, max_restarts, period, now, 1)
}

/// Restart times in the order they happened.
pub open spec fn sorted(s: Seq<u64>) -> bool {
    forall|i: int, j: int| 0 <= i <= j < s.len() ==> s[i] <= s[j]
}

/// The window holds times of `s` that still count, in their order.
pub proof fn lemma_window_props(s: Seq<u64>, now: u64, period: u64)
    ensures
        window(s, now, period).len() <= s.len(),
        forall|k: int| 0 <= k < window(s, now, period).len() ==> s.contains(#[trigger] window(s, now, period)[k])
            && in_window(window(s, now, period)[k], now, period),
        sorted(s) ==> sorted(window(s, now, period)),
    decreases s.len(),
{
    if s.len() > 0 {
        let d = s.drop_last();
        lemma_window_props(d, now, period);
        let w = window(d, now, period);
        assert forall|k: int| 0 <= k < w.len() implies s.contains(#[trigger] w[k]) by {
            let j = choose|j: int| 0 <= j < d.len() && d[j] == w[k];
            assert(s[j] == w[k]);
        }
        assert(s[s.len() - 1] == s.last());
        if sorted(s) {
            assert forall|k: int| 0 <= k < w.len() implies #[trigger] w[k] <= s.last() by {
                let j = choose|j: int| 0 <= j < d.len() && d[j] == w[k];
                assert(s[j] == w[k]);
            }
        }
    }
}

/// The restart times recorded after any evaluation are in order, at most
/// `max_restarts` of them, and all lie within one window of length `period`
/// that ends at the time the evaluation counted: no window ever holds more
/// restarts than the budget allows, whatever times the clock reports.
pub proof fn lemma_window_bound(stamps: Seq<u64>, max_restarts: u64, period: u64, now: u64, n: nat)
    requires
        sorted(stamps),
        stamps.len() <= max_restarts,
    ensures
        ({
            let (s, ok) = evaluate_batch(stamps, max_restarts, period, now, n);
            let t = effective_now(stamps, now);
            &&& sorted(s)
            &&& s.len() <= max_restarts
            &&& forall|k: int| 0 <= k < s.len() ==> in_window(#[trigger] s[k], t, period) && s[k] <= t
        }),
{
    let t = effective_now(stamps, now);
    let kept = window(stamps, t, period);
    lemma_window_props(stamps, t, period);
    assert forall|k: int| 0 <= k < kept.len() implies #[trigger] kept[k] <= t by {
        let j = choose|j: int| 0 <= j < stamps.len() && stamps[j] == kept[k];
        assert(stamps[j] <= stamps[stamps.len() - 1]);
    }
    let s = evaluate_batch(stamps, max_restarts, period, now, n).0;
    if kept.len() + n <= max_restarts {
        assert(s == kept + repeat(t, n));
        assert forall|k: int| 0 <= k < s.len() implies in_window(#[trigger] s[k], t, period) && s[k] <= t by {
            if k >= kept.len() {
                assert(s[k] == t);
            }
        }
    }
}

/// The window keeps every restart time that still counts.
pub proof fn lemma_window_keeps_all(s: Seq<u64>, now: u64, period: u64)
    requires
        forall|i: int| 0 <= i < s.len() ==> in_window(#[trigger] s[i], now, period),
    ensures
        window(s, now, period) == s,
    decreases s.len(),
{
    if s.len() > 0 {
        lemma_window_keeps_all(s.drop_last(), now, period);
        assert(s.drop_last().push(s.last()) =~= s);
    }
}

/// With a budget of zero restarts, every restart is denied.
pub proof fn lemma_zero_budget_denies(stamps: Seq<u64>, period: u64, now: u64, n: nat)
    requires
        n >= 1,
    ensures
        !evaluate(stamps, 0, period, now).1,
        !evaluate_batch(stamps, 0, period, now, n).1,
{
}

/// Once a restart is denied, every later attempt is denied too while none
/// of the restarts that counted against it has aged out of the window; and
/// the denied attempt itself left no trace.
pub proof fn lemma_denial_persists(stamps: Seq<u64>, max_restarts: u64, period: u64, now: u64, later: u64)
    requires
        !evaluate(stamps, max_restarts, period, now).1,
        ({
            let kept = window(stamps, effective_now(stamps, now), period);
            forall|i: int| 0 <= i < kept.len() ==> in_window(#[trigger] kept[i], effective_now(kept, later), period)
        }),
    ensures
        evaluate(stamps, max_restarts, period, now).0 == window(stamps, effective_now(stamps, now), period),
        !evaluate(evaluate(stamps, max_restarts, period, now).0, max_restarts, period, later).1,
        evaluate(evaluate(stamps, max_restarts, period, now).0, max_restarts, period, later).0
            == evaluate(stamps, max_restarts, period, now).0,
{
    let kept = window(stamps, effective_now(stamps, now), period);
    lemma_window_keeps_all(kept, effective_now(kept, later), period);
}

/// Bounds how many restarts may happen within any window of `period` time
/// units: at most `max_restarts` of them.
pub struct RestartLimiter {
    max_restarts: u64,
    period: u64,
    stamps: Vec<u64>,
}

impl RestartLimiter {
    /// The number of restarts allowed within one window.
    pub closed spec fn max_restarts_spec(&self) -> u64 {
        self.max_restarts
    }

    /// The length of the window.
    pub closed spec fn period_spec(&self) -> u64 {
        self.period
    }

    /// The recorded restart times, oldest first.
    pub closed spec fn stamps_spec(&self) -> Seq<u64> {
        self.stamps@
    }

    /// A limiter never holds more restart times than it allows.
    pub closed spec fn wf(&self) -> bool {
        &&& self.stamps@.len() <= self.max_restarts
        &&& sorted(self.stamps@)
    }

    /// A limiter with no restarts recorded.
    pub fn new(max_restarts: u64, period: u64) -> (r: RestartLimiter)
        ensures
            r.wf(),
            r.max_restarts_spec() == max_restarts,
            r.period_spec() == period,
            r.stamps_spec() == Seq::<u64>::empty(),
    {
        RestartLimiter { max_restarts, period, stamps: Vec::new() }
    }

    pub fn max_restarts(&self) -> (r: u64)
        ensures
            r == self.max_restarts_spec(),
    {
        self.max_restarts
    }

    pub fn period(&self) -> (r: u64)
        ensures
            r == self.period_spec(),
    {
        self.period
    }

    /// The number of recorded restart times.
    pub fn recorded(&self) -> (r: usize)
        ensures
            r == self.stamps_spec().len(),
    {
        self.stamps.len()
    }

    /// Evicts the restart times that no longer count at `now`, then permits
    /// the restart proposed at `now` and records it, or denies it without
    /// recording it when it would exceed the budget.
    pub fn record_and_check(&mut self, now: u64) -> (allowed: bool)
        requires
            old(self).wf(),
        ensures
            final(self).wf(),
            final(self).max_restarts_spec() == old(self).max_restarts_spec(),
            final(self).period_spec() == old(self).period_spec(),
            (final(self).stamps_spec(), allowed) == evaluate(
                old(self).stamps_spec(),
                old(self).max_restarts_spec(),
                old(self).period_spec(),
                now,
            ),
            old(self).max_restarts_spec() == 0 ==> !allowed,
    {
        self.record_batch(now, 1)
    }

    /// Evaluates a batch of `n` restarts proposed at `now`, each using one
    /// unit of the budget: evicts the restart times that no longer count,
    /// then records the batch if it fits in the budget. Returns whether it
    /// did; a denied batch records nothing.
    pub fn record_batch(&mut self, now: u64, n: usize) -> (allowed: bool)
        requires
            old(self).wf(),
        ensures
            final(self).wf(),
            final(self).max_restarts_spec() == old(self).max_restarts_spec(),
            final(self).period_spec() == old(self).period_spec(),
            (final(self).stamps_spec(), allowed) == evaluate_batch(
                old(self).stamps_spec(),
                old(self).max_restarts_spec(),
                old(self).period_spec(),
                now,
                n as nat,
            ),
    {
        let ghost s = self.stamps@;
        let len = self.stamps.len();
        let t: u64 = if len > 0 && self.stamps[len - 1] > now {
            self.stamps[len - 1]
        } else {
            now
        };
        assert(t == effective_now(s, now));
        let mut kept: Vec<u64> = Vec::new();
        let mut i: usize = 0;
        while i < self.stamps.len()
            invariant
                s == self.stamps@,
                i <= s.len(),
                kept@ == window(s.subrange(0, i as int), t, self.period),
                kept@.len() <= i,
            decreases s.len() - i,
        {
            let x = self.stamps[i];
            proof {
                assert(s.subrange(0, i + 1).drop_last() =~= s.subrange(0, i as int));
            }
            if t < self.period || t - self.period <= x {
                kept.push(x);
            }
            i = i + 1;
        }
        proof {
            assert(s.subrange(0, s.len() as int) =~= s);
            lemma_window_bound(s, self.max_restarts, self.period, now, n as nat);
        }
        let k: usize = kept.len();
        if n as u64 > self.max_restarts || k as u64 > self.max_restarts - n as u64 {
            self.stamps = kept;
            false
        } else {
            let ghost base = kept@;
            let mut j: usize = 0;
            while j < n
                invariant
                    j <= n,
                    kept@ == base + repeat(t, j as nat),
                decreases n - j,
            {
                kept.push(t);
                j = j + 1;
                proof {
                    assert(kept@ =~= base + repeat(t, j as nat));
                }
            }
            self.stamps = kept;
            true
        }
    }
}

} // verus!
