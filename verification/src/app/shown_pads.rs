//! Laws on the pads that are shown: when something changed, what a row says, what a pad can be
//! asked to do.
use crate::app::pads;
use crate::app::pads::{ApplyFacts, PadsView, PowerOffGate, Pulse, PulseStep, RowView, StartChange};
use crate::controller::known;
use crate::controller::model;
use crate::controller::model::{Connection, PowerState};
use crate::prefs::Prefs;
use vstd::prelude::*;

verus! {

/// Whether a pad is shown otherwise than before.
pub open spec fn differs(a: model::StatusView, b: model::StatusView) -> bool {
    a.serial != b.serial || a.product != b.product || a.connection != b.connection || a.percent
        != b.percent || a.state != b.state
}

/// Pads changed exactly when there are more or fewer of them, or one of them is shown otherwise
/// in its place.
pub proof fn law_change_is_seen(a: Seq<model::StatusView>, b: Seq<model::StatusView>)
    ensures
        pads::same_pads(a, b) <==> a.len() == b.len() && !(exists|i: int|
            0 <= i < a.len() && differs(#[trigger] a[i], b[i])),
{
    if a.len() == b.len() && !(exists|i: int|
        0 <= i < a.len() && differs(#[trigger] a[i], b[i])) {
        assert forall|i: int| 0 <= i < a.len() implies pads::same_pad(#[trigger] a[i], b[i]) by {
            assert(!differs(a[i], b[i]));
        }
    }
    if pads::same_pads(a, b) {
        assert forall|i: int| 0 <= i < a.len() implies !differs(#[trigger] a[i], b[i]) by {
            assert(pads::same_pad(a[i], b[i]));
        }
    }
}

/// With the start screen switched on, closed, no game over the whole screen and no cooldown, the
/// first pad opens it. The last pad that goes closes it. Anything else leaves it.
pub proof fn law_first_pad_opens_last_pad_closes(
    p: PadsView,
    next: Seq<model::StatusView>,
    prefs: Prefs,
    facts: ApplyFacts,
)
    ensures
        ({
            let cooling = p.cooldown_until_ms matches Some(u) && facts.now_ms < u;
            let opens = p.controllers.len() == 0 && next.len() > 0 && prefs.start_screen_enabled
                && !facts.start_open && !facts.fullscreen && !cooling;
            let r = p.start_change(next, prefs, facts);
            &&& r == StartChange::Open <==> opens
            &&& p.controllers.len() > 0 && next.len() == 0 && facts.start_open ==> r
                == StartChange::Close
            &&& r == StartChange::Close ==> next.len() == 0 && facts.start_open
        }),
{
}

/// When the last pad goes, opening is held back for five seconds; nothing else moves the end of
/// that time.
pub proof fn law_five_seconds_of_cooldown(p: PadsView, next: Seq<model::StatusView>, now: u64)
    requires
        now <= u64::MAX - 5000,
    ensures
        p.controllers.len() > 0 && next.len() == 0 ==> p.cooldown_after(next, now) == Some(
            (now + 5000) as u64,
        ),
        p.controllers.len() == 0 || next.len() > 0 ==> p.cooldown_after(next, now)
            == p.cooldown_until_ms,
{
}

/// Applying pads shows them, unless they are shown so already, and brings the remembered ones up
/// to date; analytics learn only while they are switched on.
pub proof fn law_applied_pads_are_shown(
    p: PadsView,
    next: Seq<model::StatusView>,
    prefs: Prefs,
    now: u64,
)
    ensures
        ({
            let q = p.applied(next, prefs, now);
            &&& pads::same_pads(q.controllers, next)
            &&& !pads::same_pads(p.controllers, next) ==> q.controllers == next
            &&& q.known == p.known.synced(next)
            &&& !prefs.analytics_enabled ==> q.analytics == p.analytics
            &&& pads::same_pads(p.controllers, next) ==> q.flags == p.flags && p.events(
                next,
                prefs,
            ).len() == 0
        }),
{
    assert(pads::same_pads(next, next));
}

/// The row of a connected pad says what its status says, with its nickname. It is marked low at
/// or below the threshold on battery. It can be powered off over Bluetooth alone, and be
/// remembered unless it has no identity or is a developer's.
pub proof fn law_live_row_says_the_status(
    p: PadsView,
    c: model::StatusView,
    threshold: u8,
    analytics: bool,
)
    ensures
        ({
            let r = p.live_row(c, threshold, analytics);
            &&& r.serial == c.serial && r.product == c.product && r.percent == c.percent && r.state
                == Some(c.state)
            &&& r.connection == (match c.connection {
                Connection::Usb => "USB"@,
                Connection::Bluetooth => "Bluetooth"@,
            })
            &&& r.nickname == (if p.known.nicknames.dom().contains(c.serial) {
                Some(p.known.nicknames[c.serial])
            } else {
                None
            })
            &&& r.low <==> c.state == PowerState::Discharging && c.percent <= threshold
            &&& r.can_power_off <==> c.connection == Connection::Bluetooth && c.supports_power_off
            &&& r.remembered <==> p.known.records.dom().contains(c.serial)
            &&& r.can_remember <==> c.serial.len() > 0 && c.serial != "unknown"@
                && !crate::text::begins(c.serial, "emu-"@)
            &&& !analytics ==> r.eta is None
        }),
{
}

/// The row of a remembered pad says what is on record; it is never low and cannot be powered off.
pub proof fn law_idle_row_says_the_record(p: PadsView, k: known::RecordView, analytics: bool)
    ensures
        ({
            let r = p.idle_row(k, analytics);
            &&& r.serial == k.serial && r.product == k.product && r.connection == k.connection
                && r.percent == k.percent
            &&& r.state is None && !r.low && !r.can_power_off && r.remembered
            &&& !analytics ==> r.eta is None
        }),
{
}

/// Connected pads come first, in their order; remembered ones that are not connected follow only
/// where all are asked for.
pub proof fn law_connected_pads_come_first(
    p: PadsView,
    threshold: u8,
    analytics: bool,
    all: bool,
    i: int,
)
    requires
        0 <= i < p.rows(threshold, analytics, all).len(),
    ensures
        ({
            let rows = p.rows(threshold, analytics, all);
            &&& i < p.controllers.len() ==> rows[i] == p.live_row(
                p.controllers[i],
                threshold,
                analytics,
            )
            &&& i >= p.controllers.len() ==> all && rows[i].state is None
            &&& !all ==> rows.len() == p.controllers.len()
            &&& all ==> rows.len() == p.controllers.len() + p.idle().len()
        }),
{
}

/// A pad is found where the first one with its serial stands.
pub proof fn law_first_pad_with_the_serial_is_found(s: Seq<model::StatusView>, serial: Seq<char>)
    ensures
        0 <= pads::pad_at(s, serial) <= s.len(),
        pads::pad_at(s, serial) < s.len() ==> s[pads::pad_at(s, serial)].serial == serial,
        forall|i: int|
            0 <= i < pads::pad_at(s, serial) ==> (#[trigger] s[i]).serial != serial,
    decreases s.len(),
{
    if s.len() > 0 && s[0].serial != serial {
        let t = s.drop_first();
        law_first_pad_with_the_serial_is_found(t, serial);
        assert forall|i: int| 0 <= i < pads::pad_at(s, serial) implies (#[trigger] s[i]).serial
            != serial by {
            if i > 0 {
                assert(t[i - 1] == s[i]);
            }
        }
    }
}

/// A pad is flashed or powered off only where it is connected and no developer's; powered off
/// only over Bluetooth, and flashed with its own battery level.
pub proof fn law_only_a_real_pad_is_acted_on(p: PadsView, serial: Seq<char>, i: int)
    requires
        0 <= i < p.controllers.len(),
        p.controllers[i].serial == serial,
        forall|j: int| 0 <= j < i ==> (#[trigger] p.controllers[j]).serial != serial,
        !crate::text::begins(serial, "emu-"@),
    ensures
        ({
            let c = p.controllers[i];
            &&& p.identify_percent(serial) == (if c.supports_lightbar {
                Some(c.percent)
            } else {
                None
            })
            &&& p.power_off_gate(serial) == PowerOffGate::Send <==> c.supports_power_off
                && c.connection == Connection::Bluetooth
            &&& p.power_off_gate(serial) != PowerOffGate::NotConnected
            &&& p.power_off_gate(serial) != PowerOffGate::Emulated
        }),
{
    law_first_pad_with_the_serial_is_found(p.controllers, serial);
    let at = pads::pad_at(p.controllers, serial);
    if at < i {
        assert(p.controllers[at].serial != serial);
    } else if i < at {
        assert(p.controllers[i].serial != serial);
    }
}

/// A pad that is not connected is neither flashed nor powered off.
pub proof fn law_absent_pad_is_left_alone(p: PadsView, serial: Seq<char>)
    requires
        forall|j: int| 0 <= j < p.controllers.len() ==> (#[trigger] p.controllers[j]).serial
            != serial,
    ensures
        p.identify_percent(serial) is None,
        p.power_off_gate(serial) != PowerOffGate::Send,
        p.power_off_gate(serial) != PowerOffGate::Ignored,
{
    law_first_pad_with_the_serial_is_found(p.controllers, serial);
    let at = pads::pad_at(p.controllers, serial);
    if at < p.controllers.len() {
        assert(p.controllers[at].serial != serial);
    }
}

/// The pads that pulse are those on battery at the threshold or below, no developer's among them,
/// each with its level and in their order.
pub proof fn law_low_pads_pulse(s: Seq<model::StatusView>, c: model::StatusView, threshold: u8)
    ensures
        pads::low_pads(Seq::empty(), threshold).len() == 0,
        pads::low_pads(s.push(c), threshold) == pads::low_pads(s, threshold) + (if c.state
            == PowerState::Discharging && c.percent <= threshold && !crate::text::begins(
            c.serial,
            "emu-"@,
        ) {
            seq![(c.serial, c.percent)]
        } else {
            seq![]
        }),
{
    assert(s.push(c).drop_last() == s);
}

/// A pulse round that is not disturbed lights each pad once, gives each its color back before the
/// next one is lit, and then rests. A round that has to yield rests at once and begins anew.
pub proof fn law_pulse_lights_one_pad_at_a_time(pulse: Pulse, yielding: bool, targets: nat)
    requires
        targets <= usize::MAX,
    ensures
        ({
            let (q, step) = pads::pulse_after(pulse, yielding, targets);
            &&& step matches PulseStep::Light(i) ==> pulse == Pulse::At(i) && q == Pulse::Lit(i) && i
                < targets && !yielding
            &&& step matches PulseStep::Restore(i) ==> pulse == Pulse::Lit(i) && q == Pulse::At(
                (i + 1) as usize,
            ) && !yielding
            &&& step == PulseStep::Rest ==> q == Pulse::At(0) && (yielding || match pulse {
                Pulse::At(i) => i >= targets,
                Pulse::Lit(i) => i >= targets,
            })
            &&& yielding ==> step == PulseStep::Rest
        }),
{
}

} // verus!
