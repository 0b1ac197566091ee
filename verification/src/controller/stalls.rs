//! Laws on the watchdog over the worker.
use crate::controller::diag;
use crate::controller::diag::{SteamCache, Watchdog, WorkerPhase};
use vstd::prelude::*;

verus! {

/// A stall is reported at 250, 500, 1000, 2000 and 5000 ms: at the highest of them that its gap
/// has reached.
pub proof fn law_stalls_are_reported_in_steps(gap: int)
    requires
        gap >= 0,
    ensures
        ({
            let t = diag::stall_tier(gap);
            &&& t == 0 || t == 250 || t == 500 || t == 1000 || t == 2000 || t == 5000
            &&& t <= gap
            &&& gap >= 250 ==> t >= 250
            &&& gap >= 500 ==> t >= 500
            &&& gap >= 1000 ==> t >= 1000
            &&& gap >= 2000 ==> t >= 2000
            &&& gap >= 5000 ==> t >= 5000
        }),
{
}

/// A gap is counted from when the running operation began, and between operations from the last
/// progress.
pub proof fn law_gap_counts_from_the_operation(phase: WorkerPhase, now: u64)
    ensures
        phase.entered_at matches Some(t) ==> (t <= now ==> diag::stall_gap(phase, now) == now - t),
        phase.entered_at is None ==> (phase.last_progress matches Some(t) ==> (t <= now
            ==> diag::stall_gap(phase, now) == now - t)),
        phase.entered_at is None && phase.last_progress is None ==> diag::stall_gap(phase, now) == 0,
{
}

/// What is known of Steam is fresh for a second.
pub proof fn law_steam_is_looked_up_once_a_second(c: SteamCache, now: u64)
    ensures
        c.fresh(now) <==> (c.refreshed_at matches Some(t) && now - t < 1000),
{
}

/// A stall is reported once for each step it reaches; progress, or a gap under 250 ms, starts the
/// steps anew and is no stall.
pub proof fn law_stall_is_reported_once_a_step(w: Watchdog, phase: WorkerPhase, now: u64, later: u64)
    requires
        now <= later,
    ensures
        ({
            let (v, r) = w.looked(phase, now);
            let (u, again) = v.looked(phase, later);
            let gap = diag::stall_gap(phase, now);
            &&& phase.tick != w.last_tick || gap < 250 ==> r is None && v.last_logged_tier == 0
                && v.last_tick == phase.tick
            &&& r matches Some(s) ==> s.gap_ms == gap && s.gap_ms >= 250 && s.tier
                > w.last_logged_tier && (s.in_op <==> phase.entered_at is Some)
            &&& phase.tick == w.last_tick && gap >= 250 && w.last_logged_tier == 0 ==> r is Some
            &&& r is Some && diag::stall_tier(diag::stall_gap(phase, later)) == diag::stall_tier(gap)
                ==> again is None
        }),
{
}

} // verus!
