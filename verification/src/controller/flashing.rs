//! Laws on the worker: how a pad is identified, and what a command does.
use crate::controller::lightbar::Rgb;
use crate::controller::worker::{ActionView, HidCmd, SessionView, WorkerView};
use crate::text;
use vstd::prelude::*;

verus! {

/// White.
pub open spec fn white() -> Rgb {
    Rgb { r: 255, g: 255, b: 255 }
}

/// A pad that is being identified, with `k` writes done, the next one due at `wake`.
pub open spec fn under_way(w: WorkerView, serial: Seq<char>, normal: Rgb, k: int, wake: int) -> bool {
    w.session matches Some(s) && s.serial == serial && s.normal == normal && s.next_write == k
        && s.wake_at == wake && s.flashes == k
}

/// Identifying writes white at once. The worker then knows the pad, with that write under way.
pub proof fn law_identify_begins_white(w: WorkerView, serial: String, normal: Rgb, now: u64)
    ensures
        ({
            let (v, e) = w.handled(HidCmd::Identify { serial, normal }, now);
            &&& e.len() > 0 && e.last() == ActionView::Write(serial@, white())
            &&& v.identifying
            &&& v.session == Some(
                SessionView {
                    serial: serial@,
                    normal,
                    next_write: 0,
                    wake_at: now as int,
                    flashes: 1,
                },
            )
        }),
{
}

/// A write that was done is followed by the next 150 ms later; one that failed ends the identify.
pub proof fn law_next_write_comes_150_ms_later(
    w: WorkerView,
    serial: Seq<char>,
    normal: Rgb,
    k: int,
    now: u64,
)
    requires
        w.session matches Some(s) && s.serial == serial && s.normal == normal && s.next_write == k
            && s.flashes == k + 1,
        now < 0xFFFF_FFFF_FFFF_0000,
    ensures
        under_way(w.written(true, now).0, serial, normal, k + 1, now + 150),
        w.written(false, now).0.session is None,
        !w.written(false, now).0.identifying,
{
}

/// When a write is due the pad turns white and back to its color in turn; after ten writes the
/// identify is over, with the pad in its own color. Before a write is due nothing happens.
pub proof fn law_identify_takes_turns_ten_times(
    w: WorkerView,
    serial: Seq<char>,
    normal: Rgb,
    k: int,
    wake: int,
    now: u64,
)
    requires
        0 <= k <= 10,
        under_way(w, serial, normal, k, wake),
    ensures
        ({
            let (v, e) = w.advanced(now);
            &&& now < wake ==> v == w && e.len() == 0
            &&& now >= wake && k < 10 ==> e == seq![
                ActionView::Write(
                    serial,
                    if k % 2 == 0 {
                        white()
                    } else {
                        normal
                    },
                ),
            ] && v.write_pending() && v.session is Some && v.session->0.next_write == k
            &&& now >= wake && k == 10 ==> v.session is None && !v.identifying && e == seq![
                ActionView::SampleAll,
            ]
        }),
{
}

/// A color is written as it was asked for, but not over an identify of the same pad.
pub proof fn law_color_waits_for_its_identify(w: WorkerView, serial: String, color: Rgb, now: u64)
    ensures
        ({
            let (v, e) = w.handled(HidCmd::SetRgb { serial, color }, now);
            let busy = w.session matches Some(s) && s.serial == serial@;
            &&& busy ==> v == w && e.len() == 0
            &&& !busy ==> e == seq![ActionView::Write(serial@, color)] && v.session == w.session
        }),
{
}

/// A poll and a power-off close every handle and publish nothing before they begin; a poll leaves
/// an identify alone, and a power-off ends the identify of its own pad only.
pub proof fn law_handles_are_closed_before_a_poll(
    w: WorkerView,
    serial: String,
    previously: Vec<String>,
    now: u64,
)
    ensures
        ({
            let (p, e) = w.handled(HidCmd::Poll { previously }, now);
            let (o, g) = w.handled(HidCmd::PowerOff { serial }, now);
            let own = w.session matches Some(s) && s.serial == serial@;
            &&& e == seq![
                ActionView::DropAll,
                ActionView::PublishNothing,
                ActionView::Poll(text::views(previously@)),
            ]
            &&& p.cached == Set::<Seq<char>>::empty() && p.session == w.session
            &&& g.len() >= 3 && g.last() == ActionView::PowerOff(serial@) && g[g.len() - 3]
                == ActionView::DropAll
            &&& o.cached == Set::<Seq<char>>::empty()
            &&& o.session == (if own {
                None
            } else {
                w.session
            })
        }),
{
}

/// A shutdown ends everything and stops last.
pub proof fn law_shutdown_stops_last(w: WorkerView, now: u64)
    ensures
        ({
            let (v, e) = w.handled(HidCmd::Shutdown, now);
            &&& e.len() > 0 && e.last() == ActionView::Stop
            &&& v.session is None && v.cached == Set::<Seq<char>>::empty()
        }),
{
}

/// The worker waits 50 ms for a command, 16 ms while pads are listened to, and during an identify
/// until the next write is due, but 1 to 16 ms.
pub proof fn law_worker_waits_briefly(w: WorkerView, now: u64, hot: bool)
    ensures
        w.session is None ==> w.waits(now, hot) == if hot {
            16int
        } else {
            50int
        },
        w.session matches Some(s) ==> {
            let left = s.wake_at - now;
            &&& 1 <= w.waits(now, hot) <= 16
            &&& 1 <= left <= 16 ==> w.waits(now, hot) == left
            &&& left > 16 ==> w.waits(now, hot) == 16
            &&& left < 1 ==> w.waits(now, hot) == 1
        },
{
}

} // verus!
