//! Laws on what happens when: toasts in turn, polls at their intervals, limits on settings.
use crate::app::polling;
use crate::app::polling::{PollingView, TickAction, TickFacts, TimerFacts};
use crate::app::toast;
use crate::app::toast::{ToastEffect, ToastView, ToastsView};
use crate::crash_restart;
use crate::prefs;
use vstd::prelude::*;

verus! {

// ---------------------------------------------------------------------------
// Toasts
// ---------------------------------------------------------------------------

/// Toasts that are not over: the one on screen, then those that wait.
pub open spec fn waiting(t: ToastsView) -> Seq<ToastView> {
    match t.current {
        Some(m) => seq![m] + t.queue,
        None => t.queue,
    }
}

/// Showing the next toast loses and reorders none: the first that waits comes on screen where
/// none is, under a new generation that gets a place and an expiry of its own.
pub proof fn law_first_waiting_toast_is_shown(t: ToastsView)
    ensures
        ({
            let (u, effects) = t.shown_next();
            &&& waiting(u) == waiting(t)
            &&& waiting(t).len() > 0 ==> u.current == Some(waiting(t)[0])
            &&& t.current is None && t.queue.len() > 0 ==> u.generation != t.generation && effects
                == seq![
                if t.window {
                    ToastEffect::Place(u.generation)
                } else {
                    ToastEffect::OpenAndPlace(u.generation)
                },
                ToastEffect::ExpireLater(u.generation),
            ] && u.window
            &&& t.current is Some || t.queue.len() == 0 ==> effects.len() == 0 && u == t
        }),
{
    let (u, effects) = t.shown_next();
    assert(waiting(u) =~= waiting(t));
}

/// Finishing takes the toast on screen off, and no other; the next one follows at once. With
/// none left the window hides.
pub proof fn law_finished_toast_makes_way(t: ToastsView)
    requires
        t.current is Some,
    ensures
        ({
            let (u, effects) = t.finished();
            &&& waiting(u) == waiting(t).drop_first()
            &&& u.current is Some <==> waiting(t).len() > 1
            &&& !u.placed && !u.dismissing
            &&& waiting(t).len() == 1 ==> (effects.contains(ToastEffect::Hide) <==> t.window)
        }),
{
    let (u, effects) = t.finished();
    assert(waiting(u) =~= waiting(t).drop_first());
    if waiting(t).len() == 1 && t.window {
        assert(effects[0] == ToastEffect::Hide);
    }
}

/// A toast slides in for `slide_ms`, stays, and once dismissed slides out for as long before it
/// goes; each frame draws the time since the slide began.
pub proof fn law_toast_slides_out_before_it_goes(t: ToastsView, now: u64, slide_ms: u64)
    requires
        t.current is Some,
        t.window,
        t.placed,
        t.anim_started_ms <= now,
    ensures
        ({
            let (u, effects) = t.animated(now, slide_ms);
            &&& effects.len() > 0 && effects[0] == (ToastEffect::Slide {
                elapsed_ms: (now - t.anim_started_ms) as u64,
                out: t.dismissing,
            })
            &&& !t.dismissing || now - t.anim_started_ms < slide_ms ==> u == t
            &&& t.dismissing && now - t.anim_started_ms >= slide_ms ==> waiting(u) == waiting(
                t,
            ).drop_first()
        }),
        t.animating(now, slide_ms) <==> t.dismissing || now - t.anim_started_ms < slide_ms,
{
    if t.dismissing && now - t.anim_started_ms >= slide_ms {
        law_finished_toast_makes_way(t);
    }
}

/// Dismissing begins a slide out at that moment; a toast that is already leaving is not begun
/// again.
pub proof fn law_dismissal_begins_once(t: ToastsView, now: u64, slide_ms: u64)
    requires
        t.current is Some,
        slide_ms > 0,
    ensures
        t.dismissing ==> t.dismissed(now, slide_ms) == (t, Seq::<ToastEffect>::empty()),
        !t.dismissing ==> t.dismissed(now, slide_ms).0 == (ToastsView {
            dismissing: true,
            anim_started_ms: now,
            ..t
        }),
{
}

// ---------------------------------------------------------------------------
// Polls
// ---------------------------------------------------------------------------

/// Nothing is polled while developer pads stand in, a pad is being identified, or a poll runs.
/// Otherwise pads are polled when the devices change, every minute, every 5 seconds while a pad
/// is shown, and while a device shows no pad every half second with the start screen on and every
/// 15 seconds without it. When the last device goes, that is said instead.
pub proof fn law_pads_are_polled_in_time(p: PollingView, found: Seq<Seq<char>>, f: TickFacts)
    requires
        p.last_battery_poll_ms <= f.now_ms,
    ensures
        ({
            let rests = f.emulating || f.identifying || p.refreshing;
            let gone = found.len() == 0 && p.last_discovered.len() > 0;
            let age = f.now_ms - p.last_battery_poll_ms;
            let due = found != p.last_discovered || age >= 60000 || (!f.no_pads && age >= 5000) || (
            found.len() > 0 && f.no_pads && (age >= 15000 || (f.start_screen_enabled && age
                >= 500)));
            polling::tick_action(p, found, f) == if rests {
                TickAction::Nothing
            } else if gone {
                TickAction::Vanished
            } else if due {
                TickAction::Refresh
            } else {
                TickAction::Nothing
            }
        }),
{
    if found.len() == 0 && p.last_discovered.len() == 0 {
        assert(found =~= p.last_discovered);
    }
}

/// A tick remembers the devices it found, unless it rests.
pub proof fn law_tick_remembers_devices(p: PollingView, found: Seq<Seq<char>>, f: TickFacts)
    ensures
        ({
            let rests = f.emulating || f.identifying || p.refreshing;
            let q = polling::after_tick(p, found, f);
            &&& rests ==> q == p
            &&& !rests ==> q.last_discovered == found && q.refreshing == p.refreshing
            &&& !rests && found.len() == 0 && p.last_discovered.len() > 0 ==> q.last_battery_poll_ms
                == f.now_ms
            &&& found == p.last_discovered ==> q.last_battery_poll_ms == p.last_battery_poll_ms
        }),
{
}

/// Devices are looked for every 3 seconds, every half second while the start screen waits for a
/// pad. Pads are read while something listens to them: the pad page of the settings, or the start
/// screen with a pad or a recording.
pub proof fn law_timers_follow_need(f: TimerFacts)
    ensures
        polling::timers(f).presence_ms == if f.start_screen_enabled && f.no_pads {
            500u64
        } else {
            3000u64
        },
        polling::timers(f).pad_poll <==> (f.configure_open && f.pad_input_page) || (
        f.start_screen_enabled && !f.no_pads) || (f.start_screen_enabled && f.recording_gesture),
        polling::timers(f).escape_for == f.toast,
        polling::timers(f).toast_frames <==> f.toast is Some,
        polling::timers(f).identify_frames <==> f.identify_flash,
        polling::timers(f).start_frames <==> f.start_open && f.start_needs_frames,
{
}

/// Time since a moment never runs backwards.
pub proof fn law_time_since_a_moment(a: u64, b: u64)
    ensures
        a <= b ==> polling::elapsed(a, b) == b - a,
        a > b ==> polling::elapsed(a, b) == 0,
{
}

// ---------------------------------------------------------------------------
// Limits
// ---------------------------------------------------------------------------

/// The low-battery threshold is one of the four levels 5, 15, 25 and 35: the highest that is not
/// above what was asked for, or else the lowest.
pub proof fn law_threshold_is_a_level(value: u8)
    ensures
        ({
            let r = prefs::clamped_low_battery(value);
            &&& r == 5 || r == 15 || r == 25 || r == 35
            &&& r <= value || r == 5
            &&& value >= 15 ==> value - r < 10 || r == 35
        }),
{
}

/// A volume is what was asked for, at most 100.
pub proof fn law_volume_is_at_most_full(volume: u8)
    ensures
        prefs::clamped_volume(volume) <= 100,
        volume <= 100 ==> prefs::clamped_volume(volume) == volume,
        volume > 100 ==> prefs::clamped_volume(volume) == 100,
{
}

/// A restart is granted while fewer than three were recorded in the last ten minutes, and only
/// then is it recorded. Older records are dropped, newer ones kept in order.
pub proof fn law_three_restarts_in_ten_minutes(attempts: Seq<u64>, now: u64)
    ensures
        ({
            let recent = attempts.filter(|t: u64| t + 600 >= now);
            &&& crash_restart::within_budget(attempts, now) <==> recent.len() < 3
            &&& crash_restart::attempts_after(attempts, now) == if recent.len() < 3 {
                recent.push(now)
            } else {
                recent
            }
        }),
{
    let from = crash_restart::cutoff(now);
    lemma_same_filter(attempts, from, now);
}

proof fn lemma_same_filter(attempts: Seq<u64>, from: u64, now: u64)
    requires
        from == crash_restart::cutoff(now),
    ensures
        crash_restart::since(attempts, from) == attempts.filter(|t: u64| t + 600 >= now),
    decreases attempts.len(),
{
    reveal(Seq::filter);
    if attempts.len() > 0 {
        lemma_same_filter(attempts.drop_last(), from, now);
    }
}

// ---------------------------------------------------------------------------
// Calls
// ---------------------------------------------------------------------------

/// One poll runs at a time: a second call for one, before the answer to the first, starts none;
/// the answer makes way for the next. None starts beside developer pads or an identify.
pub proof fn law_one_poll_at_a_time(
    first: &mut polling::Polling,
    second: &mut polling::Polling,
    answered: &mut polling::Polling,
    a: bool,
    b: bool,
    taken: bool,
    emulating: bool,
    identifying: bool,
    succeeded: bool,
    now: u64,
)
    requires
        call_ensures(polling::Polling::request_refresh, (first, emulating, identifying), a),
        old(second)@ == final(first)@,
        call_ensures(polling::Polling::request_refresh, (second, emulating, identifying), b),
        old(answered)@ == final(second)@,
        call_ensures(polling::Polling::on_poll_result, (answered, succeeded, emulating, now), taken),
    ensures
        !(a && b),
        a ==> final(first)@.refreshing && !emulating && !identifying,
        !old(first)@.refreshing && !emulating && !identifying ==> a,
        final(first)@.last_discovered == old(first)@.last_discovered,
        final(first)@.last_battery_poll_ms == old(first)@.last_battery_poll_ms,
        taken <==> succeeded && !emulating,
        !final(answered)@.refreshing,
        final(answered)@.last_battery_poll_ms == now,
        final(answered)@.last_discovered == old(first)@.last_discovered,
{
}

/// Pads are wanted at the active rate whenever a timer reads them at that rate, and always while
/// the start screen is open or a gesture is recorded.
pub proof fn law_read_pads_are_wanted(f: TimerFacts, r: bool)
    requires
        call_ensures(polling::pad_input_hot, (f,), r),
    ensures
        polling::timers(f).pad_poll ==> r,
        f.start_open || f.recording_gesture ==> r,
        r ==> f.start_open || f.recording_gesture || polling::timers(f).pad_poll,
{
}

/// Enter confirms and Escape cancels, whether they go down or up; an arrow moves its way when it
/// goes down and means nothing when it goes up; no other key means anything.
pub proof fn law_keys_mean_what_they_show(
    key: polling::KeyName,
    down: Option<polling::StartKeyAction>,
    up: Option<polling::StartKeyAction>,
)
    requires
        call_ensures(polling::start_key, (key, true), down),
        call_ensures(polling::start_key, (key, false), up),
    ensures
        down is None <==> key is Other,
        up is None || up == down,
        down == Some(polling::StartKeyAction::Up) <==> key is ArrowUp,
        down == Some(polling::StartKeyAction::Down) <==> key is ArrowDown,
        down == Some(polling::StartKeyAction::Confirm) <==> key is Enter,
        down == Some(polling::StartKeyAction::Cancel) <==> key is Escape,
        up is Some <==> key is Enter || key is Escape,
{
}

/// Of two color edits in a row only the second is saved, and pads are written only while
/// lightbars are on.
pub proof fn law_only_the_last_edit_is_saved(
    first: &mut polling::SpectrumEdits,
    second: &mut polling::SpectrumEdits,
    a: u64,
    b: u64,
    edits: &polling::SpectrumEdits,
    on: bool,
    stale: polling::SpectrumCommit,
    saved: polling::SpectrumCommit,
)
    requires
        call_ensures(polling::SpectrumEdits::edit, (first,), a),
        *old(second) == *final(first),
        call_ensures(polling::SpectrumEdits::edit, (second,), b),
        *edits == *final(second),
        call_ensures(polling::SpectrumEdits::on_spectrum_commit, (edits, a, on), stale),
        call_ensures(polling::SpectrumEdits::on_spectrum_commit, (edits, b, on), saved),
    ensures
        a != b,
        stale is Stale,
        saved is SaveAndWrite <==> on,
        saved is Save <==> !on,
{
}

/// A place or a dismissal that belongs to another toast than the one on screen changes nothing;
/// its own place presents it and begins its slide then.
pub proof fn law_toast_is_placed_once_known(
    t: &mut toast::Toasts,
    u: &mut toast::Toasts,
    generation: u64,
    now: u64,
    slide_ms: u64,
    placed: Vec<ToastEffect>,
    dismissed: Vec<ToastEffect>,
)
    requires
        call_ensures(toast::Toasts::place, (t, generation, now), placed),
        call_ensures(toast::Toasts::on_dismiss, (u, generation, now, slide_ms), dismissed),
    ensures
        generation != old(t)@.generation ==> final(t)@ == old(t)@ && placed@.len() == 0,
        old(t)@.current is None ==> final(t)@ == old(t)@ && placed@.len() == 0,
        waiting(final(t)@) == waiting(old(t)@),
        generation == old(t)@.generation && old(t)@.current is Some ==> {
            &&& placed@ == seq![ToastEffect::Present(generation)]
            &&& final(t)@.placed && !final(t)@.dismissing
            &&& final(t)@.anim_started_ms == now
        },
        generation != old(u)@.generation ==> final(u)@ == old(u)@ && dismissed@.len() == 0,
        generation == old(u)@.generation && old(u)@.current is Some && slide_ms > 0
            ==> final(u)@.dismissing && waiting(final(u)@) == waiting(old(u)@),
{
}

/// A frame draws only while the slide moves; a toast leaves by a frame only once it was
/// dismissed and its slide is over.
pub proof fn law_frames_draw_the_slide(
    t: &mut toast::Toasts,
    now: u64,
    slide_ms: u64,
    r: Vec<ToastEffect>,
)
    requires
        call_ensures(toast::Toasts::on_frame, (t, now, slide_ms), r),
        old(t)@.anim_started_ms <= now,
    ensures
        !old(t)@.animating(now, slide_ms) ==> final(t)@ == old(t)@ && r@.len() == 0,
        old(t)@.animating(now, slide_ms) && old(t)@.window ==> r@.len() > 0 && r@[0] is Slide,
        !(old(t)@.dismissing && now - old(t)@.anim_started_ms >= slide_ms) ==> waiting(final(t)@)
            == waiting(old(t)@),
        old(t)@.current is Some && old(t)@.placed && old(t)@.window && old(t)@.dismissing && now
            - old(t)@.anim_started_ms >= slide_ms ==> waiting(final(t)@) == waiting(
            old(t)@,
        ).drop_first(),
{
    if old(t)@.current is Some && old(t)@.window && old(t)@.placed {
        law_toast_slides_out_before_it_goes(old(t)@, now, slide_ms);
    }
}

/// Notifications come behind the toasts that wait, in their order. A preview takes the place of
/// all of them. A crash is told of behind them, and only if there was one.
pub proof fn law_new_toasts_wait_their_turn(
    t: &mut toast::Toasts,
    more: Vec<toast::ToastMessage>,
    a: Vec<ToastEffect>,
    u: &mut toast::Toasts,
    b: Vec<ToastEffect>,
    v: &mut toast::Toasts,
    crashed: bool,
    c: Vec<ToastEffect>,
)
    requires
        call_ensures(toast::Toasts::queue_notifications, (t, more), a),
        call_ensures(toast::Toasts::show_position_preview, (u,), b),
        call_ensures(toast::Toasts::maybe_show_crash_restart_toast, (v, crashed), c),
    ensures
        waiting(final(t)@) == waiting(old(t)@) + toast::toast_views(more@),
        waiting(final(u)@) == seq![ToastView::Preview],
        final(u)@.current == Some(ToastView::Preview),
        waiting(final(v)@) == (if crashed {
            waiting(old(v)@).push(ToastView::CrashRestart)
        } else {
            waiting(old(v)@)
        }),
        !crashed ==> c@.len() == 0,
{
    let queued = ToastsView { queue: old(t)@.queue + toast::toast_views(more@), ..old(t)@ };
    law_first_waiting_toast_is_shown(queued);
    assert(waiting(queued) =~= waiting(old(t)@) + toast::toast_views(more@));
    let asked = ToastsView { queue: seq![ToastView::Preview], ..old(u)@ };
    if asked.current is Some {
        law_finished_toast_makes_way(asked);
    }
    assert(asked.current is Some ==> waiting(asked).drop_first() =~= seq![ToastView::Preview]);
    law_first_waiting_toast_is_shown(asked.finished().0);
    assert(waiting(final(u)@)[0] == ToastView::Preview);
    if crashed {
        let told = ToastsView { queue: old(v)@.queue.push(ToastView::CrashRestart), ..old(v)@ };
        law_first_waiting_toast_is_shown(told);
        assert(waiting(told) =~= waiting(old(v)@).push(ToastView::CrashRestart));
    }
}

/// Cues play at the volume that was set while they are on, and not at all while they are off;
/// changing the sort mode twice changes nothing.
pub proof fn law_cues_and_sorting_follow_their_switch(
    p: &prefs::StartPrefs,
    v: Option<u8>,
    mode: prefs::GamesSortMode,
    other: prefs::GamesSortMode,
    back: prefs::GamesSortMode,
)
    requires
        call_ensures(prefs::StartPrefs::cue_volume, (p,), v),
        call_ensures(prefs::GamesSortMode::cycle, (mode,), other),
        call_ensures(prefs::GamesSortMode::cycle, (other,), back),
    ensures
        v is Some <==> p.sounds_enabled,
        v is Some ==> v == Some(p.sound_volume),
        other != mode,
        back == mode,
{
}

/// A crash notice is taken once for each time it was asked for.
pub proof fn law_notice_is_taken_once(
    asked: &mut crash_restart::RestartBudget,
    first: &mut crash_restart::RestartBudget,
    second: &mut crash_restart::RestartBudget,
    a: bool,
    b: bool,
)
    requires
        call_ensures(crash_restart::RestartBudget::request_notice, (asked,), ()),
        *old(first) == *final(asked),
        call_ensures(crash_restart::RestartBudget::take_pending_notice, (first,), a),
        *old(second) == *final(first),
        call_ensures(crash_restart::RestartBudget::take_pending_notice, (second,), b),
    ensures
        a,
        !b,
        final(second).attempts == old(asked).attempts,
{
}

} // verus!
