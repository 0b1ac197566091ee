//! Connect, disconnect, low-battery and charge-complete edge detection for toasts.
use crate::controller::model;
use crate::controller::model::{ControllerStatus, PowerState};
use crate::prefs::Prefs;
use crate::text;
use crate::text_map;
use crate::text_map::TextMap;
use vstd::prelude::*;
use vstd::string::StringExecFns;

pub mod told;

verus! {

/// What was already told of one pad.
#[derive(Debug, Clone, Copy, PartialEq, Eq, Structural)]
pub struct SerialFlags {
    pub notified_low: bool,
    pub notified_complete: bool,
}

/// What was already told of every connected pad.
#[derive(Debug)]
pub struct NotifyTracker {
    pub by_serial: TextMap<SerialFlags>,
}

/// What a toast is about.
#[derive(Debug, Clone, Copy, PartialEq, Eq, Structural)]
pub enum NotifyKind {
    Connect,
    Disconnect,
    Low,
    Charged,
}

/// A toast.
#[derive(Debug, Clone, PartialEq, Eq)]
pub struct NotifyEvent {
    pub heading: String,
    pub body: String,
    pub percent: Option<u8>,
    pub serial: String,
    pub state: PowerState,
}

/// Model of [`NotifyEvent`].
#[verifier::ext_equal]
pub struct EventView {
    pub heading: Seq<char>,
    pub body: Seq<char>,
    pub percent: Option<u8>,
    pub serial: Seq<char>,
    pub state: PowerState,
}

impl View for NotifyEvent {
    type V = EventView;

    open spec fn view(&self) -> EventView {
        EventView {
            heading: self.heading@,
            body: self.body@,
            percent: self.percent,
            serial: self.serial@,
            state: self.state,
        }
    }
}

/// Models of a list of toasts.
pub open spec fn event_views(v: Seq<NotifyEvent>) -> Seq<EventView> {
    Seq::new(v.len(), |i: int| v[i]@)
}

/// Switches and threshold that decide on toasts.
#[verifier::ext_equal]
pub struct NotifyPrefs {
    pub low: bool,
    pub charged: bool,
    pub connect: bool,
    pub disconnect: bool,
    pub threshold: u8,
}

/// The part of the preferences that decides on toasts.
pub open spec fn notify_prefs(p: Prefs) -> NotifyPrefs {
    NotifyPrefs {
        low: p.notify_low,
        charged: p.notify_charged,
        connect: p.notify_connect,
        disconnect: p.notify_disconnect,
        threshold: p.low_battery_percent,
    }
}

/// Nothing told yet.
pub open spec fn no_flags() -> SerialFlags {
    SerialFlags { notified_low: false, notified_complete: false }
}

/// The last pad with a serial.
pub open spec fn last_with(s: Seq<model::StatusView>, serial: Seq<char>) -> Option<
    model::StatusView,
>
    decreases s.len(),
{
    if s.len() == 0 {
        None
    } else if s.last().serial == serial {
        Some(s.last())
    } else {
        last_with(s.drop_last(), serial)
    }
}

/// Whether a pad newly became low, given how it was before.
pub open spec fn turns_low(
    flags: SerialFlags,
    prev: Option<model::StatusView>,
    c: model::StatusView,
    p: NotifyPrefs,
) -> bool {
    let was_low = prev matches Some(b) && b.low_battery(p.threshold);
    c.low_battery(p.threshold) && !was_low && !flags.notified_low && p.low
}

/// Whether a pad newly finished charging; its state before must be known, so that an
/// already full pad that is plugged in stays quiet.
pub open spec fn turns_complete(
    flags: SerialFlags,
    prev: Option<model::StatusView>,
    c: model::StatusView,
    p: NotifyPrefs,
) -> bool {
    c.state == PowerState::Complete && (prev matches Some(b) && b.state != PowerState::Complete)
        && !flags.notified_complete && p.charged
}

/// What is told of a pad once it was looked at.
pub open spec fn next_flags(
    flags: SerialFlags,
    prev: Option<model::StatusView>,
    c: model::StatusView,
    p: NotifyPrefs,
) -> SerialFlags {
    SerialFlags {
        notified_low: c.low_battery(p.threshold) && (flags.notified_low || turns_low(
            flags,
            prev,
            c,
            p,
        )),
        notified_complete: c.state == PowerState::Complete && (flags.notified_complete
            || turns_complete(flags, prev, c, p)),
    }
}

/// Toasts for one pad, in order.
pub open spec fn pad_kinds(
    flags: SerialFlags,
    prev: Option<model::StatusView>,
    c: model::StatusView,
    p: NotifyPrefs,
) -> Seq<NotifyKind> {
    let a = if prev is None && p.connect {
        seq![NotifyKind::Connect]
    } else {
        seq![]
    };
    let b = if turns_low(flags, prev, c, p) {
        seq![NotifyKind::Low]
    } else {
        seq![]
    };
    let d = if turns_complete(flags, prev, c, p) {
        seq![NotifyKind::Charged]
    } else {
        seq![]
    };
    a + b + d
}

/// Flags of a pad, none told when it is new.
pub open spec fn flags_of(m: Map<Seq<char>, SerialFlags>, serial: Seq<char>) -> SerialFlags {
    if m.dom().contains(serial) {
        m[serial]
    } else {
        no_flags()
    }
}

/// Flags once the first `n` pads of `next` were looked at.
pub open spec fn flags_after(
    m: Map<Seq<char>, SerialFlags>,
    previous: Seq<model::StatusView>,
    next: Seq<model::StatusView>,
    p: NotifyPrefs,
    n: nat,
) -> Map<Seq<char>, SerialFlags>
    decreases n,
{
    if n == 0 {
        m
    } else {
        let before = flags_after(m, previous, next, p, (n - 1) as nat);
        let c = next[n - 1];
        before.insert(
            c.serial,
            next_flags(flags_of(before, c.serial), last_with(previous, c.serial), c, p),
        )
    }
}

/// A toast as the pad's place in `next` and its kind.
pub open spec fn tagged(i: int, kinds: Seq<NotifyKind>) -> Seq<(int, NotifyKind)> {
    Seq::new(kinds.len(), |k: int| (i, kinds[k]))
}

/// Toasts for the first `n` pads of `next`.
pub open spec fn events_after(
    m: Map<Seq<char>, SerialFlags>,
    previous: Seq<model::StatusView>,
    next: Seq<model::StatusView>,
    p: NotifyPrefs,
    n: nat,
) -> Seq<(int, NotifyKind)>
    decreases n,
{
    if n == 0 {
        seq![]
    } else {
        let flags = flags_after(m, previous, next, p, (n - 1) as nat);
        let c = next[n - 1];
        events_after(m, previous, next, p, (n - 1) as nat) + tagged(
            n - 1,
            pad_kinds(flags_of(flags, c.serial), last_with(previous, c.serial), c, p),
        )
    }
}

/// Whether a serial is among the pads.
pub open spec fn has_pad(s: Seq<model::StatusView>, serial: Seq<char>) -> bool {
    exists|i: int| 0 <= i < s.len() && (#[trigger] s[i]).serial == serial
}

/// Flags of pads that are still connected.
pub open spec fn still_connected(
    m: Map<Seq<char>, SerialFlags>,
    next: Seq<model::StatusView>,
) -> Map<Seq<char>, SerialFlags> {
    m.restrict(Set::new(|k: Seq<char>| has_pad(next, k)))
}

/// Toasts as places and kinds.
pub open spec fn places(v: Seq<(usize, NotifyKind)>) -> Seq<(int, NotifyKind)> {
    Seq::new(v.len(), |i: int| (v[i].0 as int, v[i].1))
}

/// Name of a pad: its nickname, or its product.
pub open spec fn pad_name(c: model::StatusView, nicknames: Map<Seq<char>, Seq<char>>) -> Seq<char> {
    if nicknames.dom().contains(c.serial) && nicknames[c.serial].len() > 0 {
        nicknames[c.serial]
    } else {
        c.product
    }
}

/// Toast of a kind for a pad.
pub open spec fn event_of(
    c: model::StatusView,
    kind: NotifyKind,
    nicknames: Map<Seq<char>, Seq<char>>,
) -> EventView {
    EventView {
        heading: pad_name(c, nicknames) + " ("@ + c.connection.label() + ")"@,
        body: match kind {
            NotifyKind::Connect => "Connected"@,
            NotifyKind::Disconnect => "Disconnected"@,
            NotifyKind::Low => "Is low"@,
            NotifyKind::Charged => "Finished charging"@,
        },
        percent: if kind == NotifyKind::Charged {
            Some(100)
        } else {
            Some(c.percent)
        },
        serial: c.serial,
        state: if kind == NotifyKind::Charged {
            PowerState::Complete
        } else {
            c.state
        },
    }
}

/// Disconnect toasts for the pads of `previous` that are gone.
pub open spec fn disconnect_events(
    previous: Seq<model::StatusView>,
    next: Seq<model::StatusView>,
    nicknames: Map<Seq<char>, Seq<char>>,
) -> Seq<EventView>
    decreases previous.len(),
{
    if previous.len() == 0 {
        seq![]
    } else {
        let rest = disconnect_events(previous.drop_last(), next, nicknames);
        if has_pad(next, previous.last().serial) {
            rest
        } else {
            rest.push(event_of(previous.last(), NotifyKind::Disconnect, nicknames))
        }
    }
}

/// Toasts of places and kinds.
pub open spec fn formatted(
    at: Seq<(int, NotifyKind)>,
    next: Seq<model::StatusView>,
    nicknames: Map<Seq<char>, Seq<char>>,
) -> Seq<EventView> {
    Seq::new(at.len(), |i: int| event_of(next[at[i].0], at[i].1, nicknames))
}

/// Flags behind a look at `next`: pads that are gone are forgotten, the others looked at.
pub open spec fn evaluated_flags(
    m: Map<Seq<char>, SerialFlags>,
    previous: Seq<model::StatusView>,
    next: Seq<model::StatusView>,
    p: NotifyPrefs,
) -> Map<Seq<char>, SerialFlags> {
    flags_after(still_connected(m, next), previous, next, p, next.len())
}

/// Toasts of a look at `next`: those of its pads, then those of the pads that are gone.
pub open spec fn evaluated_events(
    m: Map<Seq<char>, SerialFlags>,
    previous: Seq<model::StatusView>,
    next: Seq<model::StatusView>,
    p: NotifyPrefs,
    nicknames: Map<Seq<char>, Seq<char>>,
) -> Seq<EventView> {
    formatted(
        events_after(still_connected(m, next), previous, next, p, next.len()),
        next,
        nicknames,
    ) + (if p.disconnect {
        disconnect_events(previous, next, nicknames)
    } else {
        seq![]
    })
}

fn format_event(c: &ControllerStatus, kind: NotifyKind, nicknames: &TextMap<String>) -> (r:
    NotifyEvent)
    ensures
        r@ == event_of(c@, kind, text_map::texts(nicknames@)),
{
    let mut heading = match nicknames.get(c.serial.as_str()) {
        Some(n) => if n.as_str().is_empty() {
            text::own(c.product)
        } else {
            n.clone()
        },
        None => text::own(c.product),
    };
    heading.append(" (");
    heading.append(c.connection.as_str());
    heading.append(")");
    let body = match kind {
        NotifyKind::Connect => "Connected",
        NotifyKind::Disconnect => "Disconnected",
        NotifyKind::Low => "Is low",
        NotifyKind::Charged => "Finished charging",
    };
    let charged = matches!(kind, NotifyKind::Charged);
    NotifyEvent {
        heading,
        body: text::own(body),
        percent: if charged {
            Some(100)
        } else {
            Some(c.percent)
        },
        serial: c.serial.clone(),
        state: if charged {
            PowerState::Complete
        } else {
            c.state
        },
    }
}

fn find_last<'a>(v: &'a [ControllerStatus], serial: &str) -> (r: Option<&'a ControllerStatus>)
    ensures
        match r {
            Some(c) => last_with(model::statuses(v@), serial@) == Some(c@),
            None => last_with(model::statuses(v@), serial@) is None,
        },
{
    let ghost s = model::statuses(v@);
    let mut n: usize = v.len();
    assert(s.take(n as int) == s);
    while n > 0
        invariant
            n <= v@.len(),
            s == model::statuses(v@),
            last_with(s, serial@) == last_with(s.take(n as int), serial@),
        decreases n,
    {
        assert(s.take(n as int).last() == v@[n - 1]@);
        assert(s.take(n as int).drop_last() == s.take(n - 1));
        if text::str_eq(v[n - 1].serial.as_str(), serial) {
            return Some(&v[n - 1]);
        }
        n = n - 1;
    }
    None
}

fn contains_pad(v: &[ControllerStatus], serial: &str) -> (r: bool)
    ensures
        r == has_pad(model::statuses(v@), serial@),
{
    let ghost s = model::statuses(v@);
    let mut i: usize = 0;
    while i < v.len()
        invariant
            i <= v@.len(),
            s == model::statuses(v@),
            forall|k: int| 0 <= k < i ==> (#[trigger] s[k]).serial != serial@,
        decreases v@.len() - i,
    {
        assert(s[i as int].serial == v@[i as int].serial@);
        if text::str_eq(v[i].serial.as_str(), serial) {
            return true;
        }
        i = i + 1;
    }
    false
}

impl Default for NotifyTracker {
    fn default() -> (r: Self)
        ensures
            r.by_serial@ == Map::<Seq<char>, SerialFlags>::empty(),
    {
        NotifyTracker { by_serial: TextMap::new() }
    }
}

impl NotifyTracker {
    /// A tracker that has told nothing.
    pub fn new() -> (r: Self)
        ensures
            r.by_serial@ == Map::<Seq<char>, SerialFlags>::empty(),
    {
        NotifyTracker { by_serial: TextMap::new() }
    }

    fn forget_gone(&mut self, next: &[ControllerStatus])
        ensures
            final(self).by_serial@ == still_connected(
                old(self).by_serial@,
                model::statuses(next@),
            ),
    {
        let ghost nv = model::statuses(next@);
        let ghost m = self.by_serial@;
        let ghost keys = text_map::in_order(m.dom());
        let n: usize = self.by_serial.len();
        let mut kept: TextMap<SerialFlags> = TextMap::new();
        let mut i: usize = 0;
        proof {
            text_map::lemma_in_order_exists(m.dom());
            assert(kept@ =~= still_connected(m.restrict(keys.take(0).to_set()), nv));
        }
        while i < n
            invariant
                i <= n,
                n == keys.len(),
                n == m.dom().len(),
                m == self.by_serial@,
                *self == *old(self),
                nv == model::statuses(next@),
                keys == text_map::in_order(m.dom()),
                text_map::ascending(keys),
                kept@ == still_connected(m.restrict(keys.take(i as int).to_set()), nv),
            decreases n - i,
        {
            let key = self.by_serial.key_at(i);
            let flags = *self.by_serial.value_at(i);
            let ghost before = kept@;
            proof {
                assert(keys.take(i + 1) == keys.take(i as int).push(key@));
                text_map::lemma_push_set(keys.take(i as int), key@);
            }
            let present = contains_pad(next, key.as_str());
            if present {
                kept.insert(key.clone(), flags);
            }
            proof {
                let want = still_connected(m.restrict(keys.take(i + 1).to_set()), nv);
                assert forall|k: Seq<char>| kept@.dom().contains(k) == want.dom().contains(k) by {
                    if k == key@ && !present {
                        assert(!before.dom().contains(k));
                    }
                }
                assert(kept@ =~= want);
            }
            i = i + 1;
        }
        proof {
            assert(keys.take(i as int) == keys);
            assert(m.restrict(keys.to_set()) =~= m);
        }
        self.by_serial = kept;
    }

    /// Toasts for connect / low-battery / charge-complete transitions, as the pad's place
    /// in `next` and the kind.
    pub fn collect_events(
        &mut self,
        previous: &[ControllerStatus],
        next: &[ControllerStatus],
        prefs: &Prefs,
    ) -> (r: Vec<(usize, NotifyKind)>)
        ensures
            ({
                let pv = model::statuses(previous@);
                let nv = model::statuses(next@);
                let start = still_connected(old(self).by_serial@, nv);
                let p = notify_prefs(*prefs);
                &&& final(self).by_serial@ == flags_after(start, pv, nv, p, nv.len())
                &&& places(r@) == events_after(start, pv, nv, p, nv.len())
            }),
            forall|i: int| 0 <= i < r@.len() ==> (#[trigger] r@[i]).0 < next@.len(),
    {
        let ghost pv = model::statuses(previous@);
        let ghost nv = model::statuses(next@);
        let ghost p = notify_prefs(*prefs);
        self.forget_gone(next);
        let ghost start = self.by_serial@;
        let mut events: Vec<(usize, NotifyKind)> = Vec::new();
        let mut i: usize = 0;
        assert(places(events@) =~= events_after(start, pv, nv, p, 0));
        while i < next.len()
            invariant
                i <= next@.len(),
                pv == model::statuses(previous@),
                nv == model::statuses(next@),
                p == notify_prefs(*prefs),
                self.by_serial@ == flags_after(start, pv, nv, p, i as nat),
                places(events@) == events_after(start, pv, nv, p, i as nat),
                forall|k: int| 0 <= k < events@.len() ==> (#[trigger] events@[k]).0 < i,
            decreases next@.len() - i,
        {
            let c = &next[i];
            let ghost before = places(events@);
            let serial = c.serial.as_str();
            let flags: SerialFlags = match self.by_serial.get(serial) {
                Some(f) => *f,
                None => SerialFlags { notified_low: false, notified_complete: false },
            };
            let prev = find_last(previous, serial);
            let ghost pw = last_with(pv, serial@);
            let ghost kinds = pad_kinds(flags, pw, c@, p);
            let low = c.is_low_battery(prefs.low_battery_percent);
            let complete = matches!(c.state, PowerState::Complete);
            let (known, was_low, was_complete) = match prev {
                Some(b) => (
                    true,
                    b.is_low_battery(prefs.low_battery_percent),
                    matches!(b.state, PowerState::Complete),
                ),
                None => (false, false, false),
            };
            if !known && prefs.notify_connect {
                events.push((i, NotifyKind::Connect));
            }
            let tell_low = low && !was_low && !flags.notified_low && prefs.notify_low;
            if tell_low {
                events.push((i, NotifyKind::Low));
            }
            let tell_complete = complete && known && !was_complete && !flags.notified_complete
                && prefs.notify_charged;
            if tell_complete {
                events.push((i, NotifyKind::Charged));
            }
            assert(places(events@) =~= before + tagged(i as int, kinds));
            self.by_serial.insert(
                c.serial.clone(),
                SerialFlags {
                    notified_low: low && (flags.notified_low || tell_low),
                    notified_complete: complete && (flags.notified_complete || tell_complete),
                },
            );
            i = i + 1;
        }
        events
    }

    /// Toasts for connect / low-battery / charge-complete transitions, then for disconnects.
    pub fn evaluate(
        &mut self,
        previous: &[ControllerStatus],
        next: &[ControllerStatus],
        prefs: &Prefs,
        nicknames: &TextMap<String>,
    ) -> (r: Vec<NotifyEvent>)
        ensures
            ({
                let pv = model::statuses(previous@);
                let nv = model::statuses(next@);
                let p = notify_prefs(*prefs);
                let names = text_map::texts(nicknames@);
                &&& final(self).by_serial@ == evaluated_flags(old(self).by_serial@, pv, nv, p)
                &&& event_views(r@) == evaluated_events(old(self).by_serial@, pv, nv, p, names)
            }),
    {
        let ghost pv = model::statuses(previous@);
        let ghost nv = model::statuses(next@);
        let ghost names = text_map::texts(nicknames@);
        let at = self.collect_events(previous, next, prefs);
        let ghost want = formatted(places(at@), nv, names);
        let mut out: Vec<NotifyEvent> = Vec::new();
        let mut i: usize = 0;
        assert(event_views(out@) =~= want.take(0));
        while i < at.len()
            invariant
                i <= at@.len(),
                nv == model::statuses(next@),
                names == text_map::texts(nicknames@),
                want == formatted(places(at@), nv, names),
                forall|k: int| 0 <= k < at@.len() ==> (#[trigger] at@[k]).0 < next@.len(),
                event_views(out@) == want.take(i as int),
            decreases at@.len() - i,
        {
            let (place, kind) = at[i];
            assert(at@[i as int].0 < next@.len());
            let e = format_event(&next[place], kind, nicknames);
            let ghost before = event_views(out@);
            out.push(e);
            assert(event_views(out@) =~= before.push(e@));
            assert(want.take(i + 1) =~= want.take(i as int).push(e@));
            i = i + 1;
        }
        assert(want.take(i as int) == want);
        if prefs.notify_disconnect {
            let mut j: usize = 0;
            assert(want + disconnect_events(pv.take(0), nv, names) =~= want);
            while j < previous.len()
                invariant
                    j <= previous@.len(),
                    pv == model::statuses(previous@),
                    nv == model::statuses(next@),
                    names == text_map::texts(nicknames@),
                    event_views(out@) == want + disconnect_events(pv.take(j as int), nv, names),
                decreases previous@.len() - j,
            {
                let c = &previous[j];
                assert(pv.take(j + 1).drop_last() == pv.take(j as int));
                assert(pv.take(j + 1).last() == c@);
                let ghost before = event_views(out@);
                if !contains_pad(next, c.serial.as_str()) {
                    let e = format_event(c, NotifyKind::Disconnect, nicknames);
                    out.push(e);
                    assert(event_views(out@) =~= before.push(e@));
                    assert((want + disconnect_events(pv.take(j as int), nv, names)).push(e@)
                        =~= want + disconnect_events(pv.take(j as int), nv, names).push(e@));
                }
                j = j + 1;
            }
            assert(pv.take(j as int) == pv);
        } else {
            assert(event_views(out@) =~= want + Seq::<EventView>::empty());
        }
        out
    }
}

// ---------------------------------------------------------------------------
// Laws
// ---------------------------------------------------------------------------

/// A pad that stays low is told of at most once: whatever it was before, once its low
/// battery was told, no further low toast comes while it stays low.
pub proof fn law_low_is_told_once(
    flags: SerialFlags,
    prev: Option<model::StatusView>,
    c: model::StatusView,
    later_prev: Option<model::StatusView>,
    later: model::StatusView,
    p: NotifyPrefs,
)
    requires
        turns_low(flags, prev, c, p),
    ensures
        !turns_low(next_flags(flags, prev, c, p), later_prev, later, p),
        later.low_battery(p.threshold) ==> next_flags(
            next_flags(flags, prev, c, p),
            later_prev,
            later,
            p,
        ).notified_low,
{
}

/// Leaving low lets the next low battery be told again.
pub proof fn law_leaving_low_allows_another(
    flags: SerialFlags,
    prev: Option<model::StatusView>,
    ok: model::StatusView,
    low: model::StatusView,
    p: NotifyPrefs,
)
    requires
        !ok.low_battery(p.threshold),
        low.low_battery(p.threshold),
        p.low,
    ensures
        turns_low(next_flags(flags, prev, ok, p), Some(ok), low, p),
{
}

/// A finished charge is told at most once while the pad stays full.
pub proof fn law_charged_is_told_once(
    flags: SerialFlags,
    prev: Option<model::StatusView>,
    c: model::StatusView,
    later_prev: Option<model::StatusView>,
    later: model::StatusView,
    p: NotifyPrefs,
)
    requires
        turns_complete(flags, prev, c, p),
    ensures
        !turns_complete(next_flags(flags, prev, c, p), later_prev, later, p),
{
}

/// Pads are told of independently: looking at one pad leaves the flags of the others.
pub proof fn law_pads_are_independent(
    m: Map<Seq<char>, SerialFlags>,
    previous: Seq<model::StatusView>,
    next: Seq<model::StatusView>,
    p: NotifyPrefs,
    n: nat,
    serial: Seq<char>,
)
    requires
        n < next.len(),
        next[n as int].serial != serial,
    ensures
        flags_of(flags_after(m, previous, next, p, n + 1), serial) == flags_of(
            flags_after(m, previous, next, p, n),
            serial,
        ),
{
}

/// A disconnect forgets what was told of the pad.
pub proof fn law_disconnect_forgets(
    m: Map<Seq<char>, SerialFlags>,
    next: Seq<model::StatusView>,
    serial: Seq<char>,
)
    requires
        !has_pad(next, serial),
    ensures
        !still_connected(m, next).dom().contains(serial),
{
}

// ---------------------------------------------------------------------------
// Runs of snapshots
// ---------------------------------------------------------------------------

/// Flags of a tracker that was new and has looked at the snapshots in turn, each against the
/// one before it. The first snapshot is what the first look compares with.
pub open spec fn run_flags(snaps: Seq<Seq<model::StatusView>>, p: NotifyPrefs) -> Map<
    Seq<char>,
    SerialFlags,
>
    decreases snaps.len(),
{
    if snaps.len() <= 1 {
        Map::empty()
    } else {
        let before = snaps.drop_last();
        evaluated_flags(run_flags(before, p), before.last(), snaps.last(), p)
    }
}

/// How many toasts with this text a pad gets.
pub open spec fn told_times(events: Seq<EventView>, serial: Seq<char>, body: Seq<char>) -> nat
    decreases events.len(),
{
    if events.len() == 0 {
        0
    } else {
        told_times(events.drop_last(), serial, body) + (if events.last().serial == serial
            && events.last().body == body {
            1nat
        } else {
            0nat
        })
    }
}

/// Whether no two pads of a snapshot share a serial.
pub open spec fn distinct_serials(s: Seq<model::StatusView>) -> bool {
    forall|i: int, j: int|
        0 <= i < j < s.len() ==> (#[trigger] s[i]).serial != (#[trigger] s[j]).serial
}

/// Over a whole run of snapshots, with both switches on: a pad gets one low toast exactly when
/// it is low and was absent or not low before, and one charged toast exactly when it is fully
/// charged and was present and not fully charged before.
pub proof fn law_run_tells_each_change_once(
    snaps: Seq<Seq<model::StatusView>>,
    p: NotifyPrefs,
    nicknames: Map<Seq<char>, Seq<char>>,
    i: int,
)
    requires
        snaps.len() >= 2,
        p.low,
        p.charged,
        distinct_serials(snaps.last()),
        0 <= i < snaps.last().len(),
    ensures
        ({
            let before = snaps.drop_last();
            let c = snaps.last()[i];
            let prev = last_with(before.last(), c.serial);
            let told = evaluated_events(
                run_flags(before, p),
                before.last(),
                snaps.last(),
                p,
                nicknames,
            );
            &&& told_times(told, c.serial, "Is low"@) == (if c.low_battery(p.threshold) && !(prev
                matches Some(b) && b.low_battery(p.threshold)) {
                1nat
            } else {
                0nat
            })
            &&& told_times(told, c.serial, "Finished charging"@) == (if c.state
                == PowerState::Complete && (prev matches Some(b) && b.state
                != PowerState::Complete) {
                1nat
            } else {
                0nat
            })
        }),
{
    let before = snaps.drop_last();
    let next = snaps.last();
    let previous = before.last();
    let m = run_flags(before, p);
    let start = still_connected(m, next);
    let c = next[i];
    let prev = last_with(previous, c.serial);
    assert(has_pad(next, c.serial));
    lemma_run_flags(before, p, c.serial);
    lemma_flags_before(start, previous, next, p, i as nat, c.serial);
    assert(flags_of(start, c.serial) == flags_of(m, c.serial));
    let flags = flags_of(start, c.serial);
    let own = formatted(events_after(start, previous, next, p, next.len()), next, nicknames);
    let gone = if p.disconnect {
        disconnect_events(previous, next, nicknames)
    } else {
        seq![]
    };
    lemma_bodies();
    assert forall|body: Seq<char>| body == "Is low"@ || body == "Finished charging"@ implies
        #[trigger] told_times(own + gone, c.serial, body) == told_times(
        formatted(tagged(i, pad_kinds(flags, prev, c, p)), next, nicknames),
        c.serial,
        body,
    ) by {
        lemma_told_add(own, gone, c.serial, body);
        lemma_gone_untold(previous, next, nicknames, c.serial, body);
        lemma_told_at(start, previous, next, p, nicknames, i, next.len(), body);
    }
    lemma_kinds_told(flags, prev, next, p, nicknames, i);
}

/// The texts of the toasts differ.
proof fn lemma_bodies()
    ensures
        "Is low"@ != "Connected"@,
        "Is low"@ != "Disconnected"@,
        "Is low"@ != "Finished charging"@,
        "Finished charging"@ != "Connected"@,
        "Finished charging"@ != "Disconnected"@,
{
    reveal_strlit("Is low");
    reveal_strlit("Connected");
    reveal_strlit("Disconnected");
    reveal_strlit("Finished charging");
    assert("Is low"@.len() == 6 && "Connected"@.len() == 9);
    assert("Disconnected"@.len() == 12 && "Finished charging"@.len() == 17);
}

/// What was told of a pad is still so: it was low, or fully charged, in the last snapshot.
proof fn lemma_run_flags(snaps: Seq<Seq<model::StatusView>>, p: NotifyPrefs, serial: Seq<char>)
    requires
        snaps.len() >= 1,
    ensures
        flags_of(run_flags(snaps, p), serial).notified_low ==> (last_with(
            snaps.last(),
            serial,
        ) matches Some(b) && b.low_battery(p.threshold)),
        flags_of(run_flags(snaps, p), serial).notified_complete ==> (last_with(
            snaps.last(),
            serial,
        ) matches Some(b) && b.state == PowerState::Complete),
{
    if snaps.len() > 1 {
        let before = snaps.drop_last();
        let next = snaps.last();
        let start = still_connected(run_flags(before, p), next);
        lemma_flags_follow(start, before.last(), next, p, next.len(), serial);
        assert(next.take(next.len() as int) == next);
        if last_with(next, serial) is None {
            lemma_absent(next, serial);
        }
    }
}

proof fn lemma_absent(s: Seq<model::StatusView>, serial: Seq<char>)
    requires
        last_with(s, serial) is None,
    ensures
        !has_pad(s, serial),
    decreases s.len(),
{
    if s.len() > 0 {
        lemma_absent(s.drop_last(), serial);
        assert forall|i: int| 0 <= i < s.len() implies (#[trigger] s[i]).serial != serial by {
            if i < s.len() - 1 {
                assert(s.drop_last()[i].serial != serial);
            }
        }
    }
}

/// Flags of a pad follow its last look among the first `n`.
proof fn lemma_flags_follow(
    m: Map<Seq<char>, SerialFlags>,
    previous: Seq<model::StatusView>,
    next: Seq<model::StatusView>,
    p: NotifyPrefs,
    n: nat,
    serial: Seq<char>,
)
    requires
        n <= next.len(),
    ensures
        match last_with(next.take(n as int), serial) {
            Some(c) => {
                let f = flags_of(flags_after(m, previous, next, p, n), serial);
                &&& f.notified_low ==> c.low_battery(p.threshold)
                &&& f.notified_complete ==> c.state == PowerState::Complete
            },
            None => flags_of(flags_after(m, previous, next, p, n), serial) == flags_of(m, serial),
        },
    decreases n,
{
    if n > 0 {
        lemma_flags_follow(m, previous, next, p, (n - 1) as nat, serial);
        assert(next.take(n as int).drop_last() == next.take(n - 1));
        assert(next.take(n as int).last() == next[n - 1]);
    }
}

/// Flags of a pad before its own look.
proof fn lemma_flags_before(
    m: Map<Seq<char>, SerialFlags>,
    previous: Seq<model::StatusView>,
    next: Seq<model::StatusView>,
    p: NotifyPrefs,
    n: nat,
    serial: Seq<char>,
)
    requires
        n <= next.len(),
        forall|k: int| 0 <= k < n ==> (#[trigger] next[k]).serial != serial,
    ensures
        flags_of(flags_after(m, previous, next, p, n), serial) == flags_of(m, serial),
    decreases n,
{
    if n > 0 {
        lemma_flags_before(m, previous, next, p, (n - 1) as nat, serial);
        assert(next[n - 1].serial != serial);
    }
}

proof fn lemma_told_add(
    a: Seq<EventView>,
    b: Seq<EventView>,
    serial: Seq<char>,
    body: Seq<char>,
)
    ensures
        told_times(a + b, serial, body) == told_times(a, serial, body) + told_times(
            b,
            serial,
            body,
        ),
    decreases b.len(),
{
    if b.len() == 0 {
        assert(a + b == a);
    } else {
        assert((a + b).drop_last() == a + b.drop_last());
        lemma_told_add(a, b.drop_last(), serial, body);
    }
}

proof fn lemma_gone_untold(
    previous: Seq<model::StatusView>,
    next: Seq<model::StatusView>,
    nicknames: Map<Seq<char>, Seq<char>>,
    serial: Seq<char>,
    body: Seq<char>,
)
    requires
        body != "Disconnected"@,
    ensures
        told_times(disconnect_events(previous, next, nicknames), serial, body) == 0,
    decreases previous.len(),
{
    if previous.len() > 0 {
        let rest = disconnect_events(previous.drop_last(), next, nicknames);
        lemma_gone_untold(previous.drop_last(), next, nicknames, serial, body);
        if !has_pad(next, previous.last().serial) {
            let e = event_of(previous.last(), NotifyKind::Disconnect, nicknames);
            assert(rest.push(e).drop_last() == rest);
        }
    }
}

/// Toasts of one look, all for the pad at `k`.
proof fn lemma_other_pad(
    kinds: Seq<NotifyKind>,
    next: Seq<model::StatusView>,
    nicknames: Map<Seq<char>, Seq<char>>,
    k: int,
    serial: Seq<char>,
    body: Seq<char>,
)
    requires
        next[k].serial != serial,
    ensures
        told_times(formatted(tagged(k, kinds), next, nicknames), serial, body) == 0,
    decreases kinds.len(),
{
    if kinds.len() > 0 {
        lemma_other_pad(kinds.drop_last(), next, nicknames, k, serial, body);
        assert(formatted(tagged(k, kinds), next, nicknames).drop_last() == formatted(
            tagged(k, kinds.drop_last()),
            next,
            nicknames,
        ));
    }
}

/// Of the toasts of the first `n` pads, those for the pad at `i` come from its own look.
proof fn lemma_told_at(
    m: Map<Seq<char>, SerialFlags>,
    previous: Seq<model::StatusView>,
    next: Seq<model::StatusView>,
    p: NotifyPrefs,
    nicknames: Map<Seq<char>, Seq<char>>,
    i: int,
    n: nat,
    body: Seq<char>,
)
    requires
        0 <= i < next.len(),
        n <= next.len(),
        distinct_serials(next),
    ensures
        ({
            let serial = next[i].serial;
            let flags = flags_of(m, serial);
            let kinds = pad_kinds(flags, last_with(previous, serial), next[i], p);
            told_times(
                formatted(events_after(m, previous, next, p, n), next, nicknames),
                serial,
                body,
            ) == (if i < n {
                told_times(formatted(tagged(i, kinds), next, nicknames), serial, body)
            } else {
                0
            })
        }),
    decreases n,
{
    let serial = next[i].serial;
    if n > 0 {
        let k = n - 1;
        lemma_told_at(m, previous, next, p, nicknames, i, k as nat, body);
        let c = next[k];
        let flags = flags_of(flags_after(m, previous, next, p, k as nat), c.serial);
        let kinds = pad_kinds(flags, last_with(previous, c.serial), c, p);
        let head = formatted(events_after(m, previous, next, p, k as nat), next, nicknames);
        let tail = formatted(tagged(k, kinds), next, nicknames);
        assert(formatted(events_after(m, previous, next, p, n), next, nicknames) == head + tail);
        lemma_told_add(head, tail, serial, body);
        if k == i {
            lemma_flags_before(m, previous, next, p, k as nat, serial);
        } else {
            assert(c.serial != serial);
            lemma_other_pad(kinds, next, nicknames, k, serial, body);
        }
    }
}

/// Toasts of one kind, or none.
proof fn lemma_one_kind(
    tells: bool,
    kind: NotifyKind,
    next: Seq<model::StatusView>,
    nicknames: Map<Seq<char>, Seq<char>>,
    i: int,
    body: Seq<char>,
)
    ensures
        ({
            let kinds = if tells {
                seq![kind]
            } else {
                seq![]
            };
            told_times(formatted(tagged(i, kinds), next, nicknames), next[i].serial, body) == (if tells
                && event_of(next[i], kind, nicknames).body == body {
                1nat
            } else {
                0nat
            })
        }),
{
    let kinds = if tells {
        seq![kind]
    } else {
        seq![]
    };
    let f = formatted(tagged(i, kinds), next, nicknames);
    if tells {
        assert(f.len() == 1);
        assert(f.last() == event_of(next[i], kind, nicknames));
        assert(told_times(f.drop_last(), next[i].serial, body) == 0);
    } else {
        assert(f.len() == 0);
    }
}

/// What one look tells of a pad.
proof fn lemma_kinds_told(
    flags: SerialFlags,
    prev: Option<model::StatusView>,
    next: Seq<model::StatusView>,
    p: NotifyPrefs,
    nicknames: Map<Seq<char>, Seq<char>>,
    i: int,
)
    ensures
        ({
            let c = next[i];
            let f = formatted(tagged(i, pad_kinds(flags, prev, c, p)), next, nicknames);
            &&& told_times(f, c.serial, "Is low"@) == (if turns_low(flags, prev, c, p) {
                1nat
            } else {
                0nat
            })
            &&& told_times(f, c.serial, "Finished charging"@) == (if turns_complete(
                flags,
                prev,
                c,
                p,
            ) {
                1nat
            } else {
                0nat
            })
        }),
{
    let c = next[i];
    let f = formatted(tagged(i, pad_kinds(flags, prev, c, p)), next, nicknames);
    let connects = prev is None && p.connect;
    let low = turns_low(flags, prev, c, p);
    let complete = turns_complete(flags, prev, c, p);
    let a: Seq<NotifyKind> = if connects {
        seq![NotifyKind::Connect]
    } else {
        seq![]
    };
    let b: Seq<NotifyKind> = if low {
        seq![NotifyKind::Low]
    } else {
        seq![]
    };
    let d: Seq<NotifyKind> = if complete {
        seq![NotifyKind::Charged]
    } else {
        seq![]
    };
    let fa = formatted(tagged(i, a), next, nicknames);
    let fb = formatted(tagged(i, b), next, nicknames);
    let fd = formatted(tagged(i, d), next, nicknames);
    assert(f =~= (fa + fb) + fd);
    lemma_bodies();
    assert forall|body: Seq<char>| #[trigger] told_times(f, c.serial, body) == told_times(
        fa,
        c.serial,
        body,
    ) + told_times(fb, c.serial, body) + told_times(fd, c.serial, body) by {
        lemma_told_add(fa + fb, fd, c.serial, body);
        lemma_told_add(fa, fb, c.serial, body);
    }
    lemma_one_kind(connects, NotifyKind::Connect, next, nicknames, i, "Is low"@);
    lemma_one_kind(connects, NotifyKind::Connect, next, nicknames, i, "Finished charging"@);
    lemma_one_kind(low, NotifyKind::Low, next, nicknames, i, "Is low"@);
    lemma_one_kind(low, NotifyKind::Low, next, nicknames, i, "Finished charging"@);
    lemma_one_kind(complete, NotifyKind::Charged, next, nicknames, i, "Is low"@);
    lemma_one_kind(complete, NotifyKind::Charged, next, nicknames, i, "Finished charging"@);
}

} // verus!
