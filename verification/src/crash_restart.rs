//! Budget that stops crash loops of the tray's self-relaunch.
use vstd::prelude::*;

verus! {

/// Wait before a relaunch, so that the dying process is gone.
pub const DELAY_MS: u64 = 1500;

pub const BUDGET_WINDOW_SECS: u64 = 600;

pub const BUDGET_MAX: usize = 3;

/// Recent relaunch attempts and the pending notice.
#[derive(Debug, Clone, PartialEq, Eq)]
pub struct RestartBudget {
    /// Unix epoch seconds of recent relaunch attempts.
    pub attempts: Vec<u64>,
    /// Cleared by the next tray boot via [`RestartBudget::take_pending_notice`].
    pub notice: bool,
}

/// Start of the window that ends at `now`.
pub open spec fn cutoff(now: u64) -> u64 {
    if now >= BUDGET_WINDOW_SECS {
        (now - BUDGET_WINDOW_SECS) as u64
    } else {
        0
    }
}

/// Attempts at or after `from`.
pub open spec fn since(attempts: Seq<u64>, from: u64) -> Seq<u64> {
    attempts.filter(|t: u64| t >= from)
}

/// Whether a relaunch at `now` is within budget.
pub open spec fn within_budget(attempts: Seq<u64>, now: u64) -> bool {
    since(attempts, cutoff(now)).len() < BUDGET_MAX
}

/// Attempts once a relaunch at `now` was asked for.
pub open spec fn attempts_after(attempts: Seq<u64>, now: u64) -> Seq<u64> {
    if within_budget(attempts, now) {
        since(attempts, cutoff(now)).push(now)
    } else {
        since(attempts, cutoff(now))
    }
}

impl Default for RestartBudget {
    fn default() -> (r: Self)
        ensures
            r.attempts@.len() == 0,
            !r.notice,
    {
        RestartBudget { attempts: Vec::new(), notice: false }
    }
}

impl RestartBudget {
    /// Whether a relaunch at `now` is within budget; if so it is recorded.
    pub fn consume_budget(&mut self, now: u64) -> (r: bool)
        ensures
            r == within_budget(old(self).attempts@, now),
            final(self).attempts@ == attempts_after(old(self).attempts@, now),
            final(self).notice == old(self).notice,
    {
        let from: u64 = if now >= BUDGET_WINDOW_SECS {
            now - BUDGET_WINDOW_SECS
        } else {
            0
        };
        let ghost s = self.attempts@;
        let ghost keep = |t: u64| t >= from;
        let mut kept: Vec<u64> = Vec::new();
        let mut i: usize = 0;
        proof {
            reveal(Seq::filter);
            assert(kept@ =~= s.take(0).filter(keep));
        }
        while i < self.attempts.len()
            invariant
                i <= self.attempts@.len(),
                *self == *old(self),
                s == self.attempts@,
                keep == (|t: u64| t >= from),
                kept@ == s.take(i as int).filter(keep),
            decreases self.attempts@.len() - i,
        {
            proof {
                reveal(Seq::filter);
                assert(s.take(i + 1).drop_last() == s.take(i as int));
                assert(s.take(i + 1).last() == s[i as int]);
            }
            if self.attempts[i] >= from {
                kept.push(self.attempts[i]);
            }
            i = i + 1;
        }
        assert(s.take(i as int) == s);
        assert(kept@ == since(s, cutoff(now)));
        let granted = kept.len() < BUDGET_MAX;
        if granted {
            kept.push(now);
        }
        self.attempts = kept;
        granted
    }

    /// Marks that the next tray boot shows the crash-restart toast.
    pub fn request_notice(&mut self)
        ensures
            *final(self) == (RestartBudget { notice: true, ..*old(self) }),
    {
        self.notice = true;
    }

    /// Takes the pending crash-restart toast flag (once).
    pub fn take_pending_notice(&mut self) -> (r: bool)
        ensures
            r == old(self).notice,
            *final(self) == (RestartBudget { notice: false, ..*old(self) }),
    {
        let pending = self.notice;
        self.notice = false;
        pending
    }
}

/// Whether to relaunch, given what the budget said; one that could not be read (`None`) does
/// not leave the tray dead.
pub fn may_relaunch(granted: Option<bool>) -> (r: bool)
    ensures
        r == (granted != Some(false)),
{
    match granted {
        Some(g) => g,
        None => true,
    }
}

// ---------------------------------------------------------------------------
// Laws
// ---------------------------------------------------------------------------

/// Attempts recorded once relaunches were asked for at all `times`.
pub open spec fn recorded(start: Seq<u64>, times: Seq<u64>) -> Seq<u64>
    decreases times.len(),
{
    if times.len() == 0 {
        start
    } else {
        attempts_after(recorded(start, times.drop_last()), times.last())
    }
}

/// Every relaunch ever granted, behind the attempts at the start.
pub open spec fn granted(start: Seq<u64>, times: Seq<u64>) -> Seq<u64>
    decreases times.len(),
{
    if times.len() == 0 {
        start
    } else if within_budget(recorded(start, times.drop_last()), times.last()) {
        granted(start, times.drop_last()).push(times.last())
    } else {
        granted(start, times.drop_last())
    }
}

/// Whether times never run backwards.
pub open spec fn in_time(times: Seq<u64>) -> bool {
    forall|i: int, j: int| 0 <= i <= j < times.len() ==> times[i] <= times[j]
}

proof fn lemma_since_push(s: Seq<u64>, x: u64, from: u64)
    ensures
        since(s.push(x), from) == (if x >= from {
            since(s, from).push(x)
        } else {
            since(s, from)
        }),
{
    reveal(Seq::filter);
    assert(s.push(x).drop_last() == s);
}

proof fn lemma_since_twice(s: Seq<u64>, early: u64, late: u64)
    requires
        early <= late,
    ensures
        since(since(s, early), late) == since(s, late),
    decreases s.len(),
{
    reveal(Seq::filter);
    if s.len() > 0 {
        lemma_since_twice(s.drop_last(), early, late);
        if s.last() >= early {
            lemma_since_push(since(s.drop_last(), early), s.last(), late);
        }
    }
}

proof fn lemma_nothing_is_forgotten(start: Seq<u64>, times: Seq<u64>, from: u64)
    requires
        in_time(times),
        times.len() > 0 ==> from >= cutoff(times.last()),
    ensures
        since(recorded(start, times), from) == since(granted(start, times), from),
    decreases times.len(),
{
    if times.len() > 0 {
        let t = times.drop_last();
        let now = times.last();
        if t.len() > 0 {
            assert(t.last() == times[times.len() - 2]);
        }
        lemma_nothing_is_forgotten(start, t, from);
        let a = recorded(start, t);
        lemma_since_twice(a, cutoff(now), from);
        lemma_since_push(since(a, cutoff(now)), now, from);
        lemma_since_push(granted(start, t), now, from);
    }
}

/// The budget holds over any history: a relaunch is granted exactly when fewer than the
/// maximum were granted in the window before it, so that no window ever sees more.
pub proof fn law_budget_holds(start: Seq<u64>, times: Seq<u64>, now: u64)
    requires
        in_time(times.push(now)),
    ensures
        within_budget(recorded(start, times), now) == (since(
            granted(start, times),
            cutoff(now),
        ).len() < BUDGET_MAX),
        since(granted(start, times), cutoff(now)).len() <= BUDGET_MAX ==> since(
            granted(start, times.push(now)),
            cutoff(now),
        ).len() <= BUDGET_MAX,
{
    let all = times.push(now);
    assert(all.drop_last() == times);
    assert forall|i: int, j: int| 0 <= i <= j < times.len() implies times[i] <= times[j] by {
        assert(all[i] <= all[j]);
    }
    if times.len() > 0 {
        assert(times.last() == all[times.len() - 1]);
        assert(all[times.len() - 1] <= all[times.len() as int]);
    }
    lemma_nothing_is_forgotten(start, times, cutoff(now));
    lemma_since_push(granted(start, times), now, cutoff(now));
}

} // verus!
