//! What a poll of the pads changes: stores, notifications, rows, and the start screen.
use crate::analytics::estimate;
use crate::analytics::estimate::EtaHint;
use crate::analytics::store;
use crate::analytics::store::AnalyticsStore;
use crate::controller::battery::dualsense_status;
use crate::controller::emulate;
use crate::controller::identity;
use crate::controller::known;
use crate::controller::known::{KnownController, KnownControllers};
use crate::controller::model;
use crate::controller::model::{Connection, ControllerStatus, PowerState};
use crate::games;
use crate::notify;
use crate::notify::{NotifyEvent, NotifyTracker, SerialFlags};
use crate::prefs::Prefs;
use crate::text;
use crate::text_map;
use crate::text_map::TextSet;
use vstd::prelude::*;

verus! {

/// A connect right after the last pad vanished does not open the start screen for this long.
pub const START_CONNECT_COOLDOWN_MS: u64 = 5000;

/// Connected pads and everything that is remembered of pads.
#[derive(Debug)]
pub struct Pads {
    pub controllers: Vec<ControllerStatus>,
    pub known: KnownControllers,
    pub analytics: AnalyticsStore,
    pub notify: NotifyTracker,
    /// Until then a first connect does not open the start screen.
    pub cooldown_until_ms: Option<u64>,
}

/// Model of [`Pads`].
#[verifier::ext_equal]
pub struct PadsView {
    pub controllers: Seq<model::StatusView>,
    pub known: known::StoreView,
    pub analytics: store::StoreView,
    pub flags: Map<Seq<char>, SerialFlags>,
    pub cooldown_until_ms: Option<u64>,
}

impl View for Pads {
    type V = PadsView;

    open spec fn view(&self) -> PadsView {
        PadsView {
            controllers: model::statuses(self.controllers@),
            known: self.known@,
            analytics: self.analytics@,
            flags: self.notify.by_serial@,
            cooldown_until_ms: self.cooldown_until_ms,
        }
    }
}

/// What is known from elsewhere when pads are taken in.
#[derive(Debug, Clone, Copy, PartialEq, Eq, Structural)]
pub struct ApplyFacts {
    pub now_ms: u64,
    pub start_open: bool,
    /// A game covers the whole screen.
    pub fullscreen: bool,
}

/// What happens to the start screen.
#[derive(Debug, Clone, Copy, PartialEq, Eq, Structural)]
pub enum StartChange {
    Stay,
    Open,
    Close,
}

/// What follows once pads were taken in.
#[derive(Debug)]
pub struct Applied {
    /// Analytics took a reading: they are to be saved and their panel redrawn.
    pub observed: bool,
    /// Pads or remembered pads changed: the tray is redrawn and the remembered pads saved.
    pub changed: bool,
    pub events: Vec<NotifyEvent>,
    pub start: StartChange,
}

impl Applied {
    /// Whether this is what taking in `next` leads to, where `before` stood.
    pub open spec fn follows(
        self,
        before: PadsView,
        next: Seq<model::StatusView>,
        prefs: Prefs,
        facts: ApplyFacts,
    ) -> bool {
        &&& self.observed == prefs.analytics_enabled
        &&& self.changed == (!same_pads(before.controllers, next) || before.known_changes(next))
        &&& notify::event_views(self.events@) == before.events(next, prefs)
        &&& self.start == before.start_change(next, prefs, facts)
    }
}

// ---------------------------------------------------------------------------
// Start screen gate
// ---------------------------------------------------------------------------

/// Gate for automatic start-screen open on a 0→1 controller connect.
pub open spec fn auto_open(
    enabled: bool,
    previous_empty: bool,
    next_nonempty: bool,
    already_open: bool,
    cooldown_active: bool,
    fullscreen: bool,
) -> bool {
    enabled && previous_empty && next_nonempty && !already_open && !cooldown_active && !fullscreen
}

/// Gate for automatic start-screen open on a 0→1 controller connect.
pub fn should_auto_open_start(
    enabled: bool,
    previous_empty: bool,
    next_nonempty: bool,
    already_open: bool,
    cooldown_active: bool,
    fullscreen: bool,
) -> (r: bool)
    ensures
        r == auto_open(
            enabled,
            previous_empty,
            next_nonempty,
            already_open,
            cooldown_active,
            fullscreen,
        ),
{
    enabled && previous_empty && next_nonempty && !already_open && !cooldown_active && !fullscreen
}

/// The same gate where a start screen without games stays closed.
pub fn should_auto_open_with_games(
    enabled: bool,
    catalog_nonempty: bool,
    previous_empty: bool,
    next_nonempty: bool,
    already_open: bool,
    cooldown_active: bool,
    fullscreen: bool,
) -> (r: bool)
    ensures
        r == (catalog_nonempty && auto_open(
            enabled,
            previous_empty,
            next_nonempty,
            already_open,
            cooldown_active,
            fullscreen,
        )),
{
    catalog_nonempty && should_auto_open_start(
        enabled,
        previous_empty,
        next_nonempty,
        already_open,
        cooldown_active,
        fullscreen,
    )
}

// ---------------------------------------------------------------------------
// Taking pads in
// ---------------------------------------------------------------------------

/// Whether two pads show the same.
pub open spec fn same_pad(a: model::StatusView, b: model::StatusView) -> bool {
    a.serial == b.serial && a.percent == b.percent && a.state == b.state && a.connection
        == b.connection && a.product == b.product
}

/// Whether two lists of pads show the same.
pub open spec fn same_pads(a: Seq<model::StatusView>, b: Seq<model::StatusView>) -> bool {
    a.len() == b.len() && forall|i: int| 0 <= i < a.len() ==> same_pad(#[trigger] a[i], b[i])
}

/// Whether two lists of pads show the same.
pub fn controllers_equivalent(a: &[ControllerStatus], b: &[ControllerStatus]) -> (r: bool)
    ensures
        r == same_pads(model::statuses(a@), model::statuses(b@)),
{
    let ghost av = model::statuses(a@);
    let ghost bv = model::statuses(b@);
    if a.len() != b.len() {
        return false;
    }
    let mut i: usize = 0;
    while i < a.len()
        invariant
            i <= a@.len(),
            a@.len() == b@.len(),
            av == model::statuses(a@),
            bv == model::statuses(b@),
            forall|k: int| 0 <= k < i ==> same_pad(#[trigger] av[k], bv[k]),
        decreases a@.len() - i,
    {
        let x = &a[i];
        let y = &b[i];
        assert(av[i as int] == x@ && bv[i as int] == y@);
        let same = text::str_eq(x.serial.as_str(), y.serial.as_str()) && x.percent == y.percent
            && x.state == y.state && x.connection == y.connection && text::str_eq(
            x.product,
            y.product,
        );
        if !same {
            assert(!same_pad(av[i as int], bv[i as int]));
            return false;
        }
        i = i + 1;
    }
    true
}

/// Serials that analytics keep: remembered or nicknamed pads.
pub open spec fn kept(known: known::StoreView) -> Set<Seq<char>> {
    known.records.dom().union(known.nicknames.dom())
}

impl PadsView {
    /// Remembered pads once `next` was seen.
    pub open spec fn known_after(self, next: Seq<model::StatusView>) -> known::StoreView {
        self.known.synced(next)
    }

    /// Whether `next` changes remembered pads.
    pub open spec fn known_changes(self, next: Seq<model::StatusView>) -> bool {
        (known::StoreView { dirty: false, ..self.known }).synced(next).dirty
    }

    /// Cooldown once `next` was seen: it starts when the last pad vanishes.
    pub open spec fn cooldown_after(
        self,
        next: Seq<model::StatusView>,
        now_ms: u64,
    ) -> Option<u64> {
        if !same_pads(self.controllers, next) && self.controllers.len() > 0 && next.len() == 0 {
            Some(
                if now_ms > u64::MAX - START_CONNECT_COOLDOWN_MS {
                    u64::MAX
                } else {
                    (now_ms + START_CONNECT_COOLDOWN_MS) as u64
                },
            )
        } else {
            self.cooldown_until_ms
        }
    }

    /// Analytics once `next` was seen: a heartbeat comes even when nothing changed.
    pub open spec fn analytics_after(
        self,
        next: Seq<model::StatusView>,
        enabled: bool,
        now_ms: u64,
    ) -> store::StoreView {
        if enabled {
            self.analytics.observed(
                self.controllers,
                if same_pads(self.controllers, next) {
                    self.controllers
                } else {
                    next
                },
                kept(self.known_after(next)),
                now_ms,
            )
        } else {
            self.analytics
        }
    }

    /// Everything once `next` was seen.
    pub open spec fn applied(
        self,
        next: Seq<model::StatusView>,
        prefs: Prefs,
        now_ms: u64,
    ) -> PadsView {
        let same = same_pads(self.controllers, next);
        PadsView {
            controllers: if same {
                self.controllers
            } else {
                next
            },
            known: self.known_after(next),
            analytics: self.analytics_after(next, prefs.analytics_enabled, now_ms),
            flags: if same {
                self.flags
            } else {
                notify::evaluated_flags(
                    self.flags,
                    self.controllers,
                    next,
                    notify::notify_prefs(prefs),
                )
            },
            cooldown_until_ms: self.cooldown_after(next, now_ms),
        }
    }

    /// Notifications that `next` causes.
    pub open spec fn events(self, next: Seq<model::StatusView>, prefs: Prefs) -> Seq<
        notify::EventView,
    > {
        let p = notify::notify_prefs(prefs);
        let names = self.known_after(next).nicknames;
        if same_pads(self.controllers, next) {
            seq![]
        } else {
            notify::evaluated_events(self.flags, self.controllers, next, p, names)
        }
    }

    /// What happens to the start screen: it closes with the last pad, and may open with the
    /// first.
    pub open spec fn start_change(
        self,
        next: Seq<model::StatusView>,
        prefs: Prefs,
        facts: ApplyFacts,
    ) -> StartChange {
        let same = same_pads(self.controllers, next);
        let until = self.cooldown_after(next, facts.now_ms);
        let after = if same {
            self.controllers
        } else {
            next
        };
        if same && !self.known_changes(next) {
            StartChange::Stay
        } else if after.len() == 0 && facts.start_open {
            StartChange::Close
        } else if !same && auto_open(
            prefs.start_screen_enabled,
            self.controllers.len() == 0,
            next.len() > 0,
            facts.start_open,
            until matches Some(u) && facts.now_ms < u,
            facts.fullscreen,
        ) {
            StartChange::Open
        } else {
            StartChange::Stay
        }
    }
}

fn kept_serials(known: &KnownControllers) -> (r: TextSet)
    ensures
        r@ == kept(known@),
{
    let mut out = TextSet::new();
    let ghost a = text_map::in_order(known.by_serial@.dom());
    let ghost b = text_map::in_order(known.nicknames@.dom());
    let n: usize = known.by_serial.len();
    let mut i: usize = 0;
    proof {
        text_map::lemma_in_order_exists(known.by_serial@.dom());
        assert(out@ =~= a.take(0).to_set());
    }
    while i < n
        invariant
            i <= n,
            n == a.len(),
            n == known.by_serial@.dom().len(),
            a == text_map::in_order(known.by_serial@.dom()),
            out@ == a.take(i as int).to_set(),
        decreases n - i,
    {
        let key = known.by_serial.key_at(i).clone();
        proof {
            assert(a.take(i + 1) =~= a.take(i as int).push(key@));
            text_map::lemma_push_set(a.take(i as int), key@);
        }
        out.insert(key);
        i = i + 1;
    }
    assert(a.take(i as int) =~= a);
    let m: usize = known.nicknames.len();
    let mut j: usize = 0;
    proof {
        text_map::lemma_in_order_exists(known.nicknames@.dom());
        assert(out@ =~= a.to_set().union(b.take(0).to_set()));
    }
    while j < m
        invariant
            j <= m,
            m == b.len(),
            m == known.nicknames@.dom().len(),
            b == text_map::in_order(known.nicknames@.dom()),
            out@ == a.to_set().union(b.take(j as int).to_set()),
        decreases m - j,
    {
        let key = known.nicknames.key_at(j).clone();
        proof {
            assert(b.take(j + 1) =~= b.take(j as int).push(key@));
            text_map::lemma_push_set(b.take(j as int), key@);
            assert(a.to_set().union(b.take(j + 1).to_set()) =~= a.to_set().union(
                b.take(j as int).to_set(),
            ).insert(key@));
        }
        out.insert(key);
        j = j + 1;
    }
    proof {
        assert(b.take(j as int) =~= b);
        assert(known@.records.dom() =~= known.by_serial@.dom());
        assert(known@.nicknames.dom() =~= known.nicknames@.dom());
    }
    out
}

impl Pads {
    /// No pads yet.
    pub fn new(known: KnownControllers, analytics: AnalyticsStore) -> (r: Self)
        ensures
            r@ == (PadsView {
                controllers: seq![],
                known: known@,
                analytics: analytics@,
                flags: Map::empty(),
                cooldown_until_ms: None,
            }),
    {
        let r = Pads {
            controllers: Vec::new(),
            known,
            analytics,
            notify: NotifyTracker::new(),
            cooldown_until_ms: None,
        };
        assert(model::statuses(r.controllers@) =~= Seq::<model::StatusView>::empty());
        r
    }

    /// Takes in the pads of a poll.
    pub fn apply_controllers(
        &mut self,
        controllers: Vec<ControllerStatus>,
        prefs: &Prefs,
        facts: ApplyFacts,
    ) -> (r: Applied)
        ensures
            ({
                let next = model::statuses(controllers@);
                &&& final(self)@ == old(self)@.applied(next, *prefs, facts.now_ms)
                &&& r.follows(old(self)@, next, *prefs, facts)
            }),
    {
        let ghost before = self@;
        let ghost next = model::statuses(controllers@);
        let known_changed = self.known.sync_from_live(controllers.as_slice());
        let changed = !controllers_equivalent(self.controllers.as_slice(), controllers.as_slice());
        if prefs.analytics_enabled {
            let keep = kept_serials(&self.known);
            if changed {
                self.analytics.observe(
                    self.controllers.as_slice(),
                    controllers.as_slice(),
                    true,
                    &keep,
                    facts.now_ms,
                );
            } else {
                self.analytics.observe(
                    self.controllers.as_slice(),
                    self.controllers.as_slice(),
                    true,
                    &keep,
                    facts.now_ms,
                );
            }
        }
        let mut events: Vec<NotifyEvent> = Vec::new();
        assert(notify::event_views(events@) =~= Seq::<notify::EventView>::empty());
        if !changed && !known_changed {
            return Applied {
                observed: prefs.analytics_enabled,
                changed: false,
                events,
                start: StartChange::Stay,
            };
        }
        let mut opened = false;
        if changed {
            let was_empty = self.controllers.len() == 0;
            let is_empty = controllers.len() == 0;
            opened = was_empty && !is_empty;
            if !was_empty && is_empty {
                self.cooldown_until_ms = Some(
                    facts.now_ms.saturating_add(START_CONNECT_COOLDOWN_MS),
                );
            }
            events =
            self.notify.evaluate(
                self.controllers.as_slice(),
                controllers.as_slice(),
                prefs,
                &self.known.nicknames,
            );
            self.controllers = controllers;
        }
        let cooling = match self.cooldown_until_ms {
            Some(until) => facts.now_ms < until,
            None => false,
        };
        let start = if self.controllers.len() == 0 && facts.start_open {
            StartChange::Close
        } else if opened && should_auto_open_start(
            prefs.start_screen_enabled,
            true,
            true,
            facts.start_open,
            cooling,
            facts.fullscreen,
        ) {
            StartChange::Open
        } else {
            StartChange::Stay
        };
        Applied { observed: prefs.analytics_enabled, changed: true, events, start }
    }
}

// ---------------------------------------------------------------------------
// Rows
// ---------------------------------------------------------------------------

/// A pad as the popup and the start screen list it.
#[derive(Debug, Clone, PartialEq, Eq)]
pub struct PadRow {
    pub serial: String,
    pub product: String,
    pub nickname: Option<String>,
    pub connection: String,
    pub percent: u8,
    /// Power state of a connected pad.
    pub state: Option<PowerState>,
    pub low: bool,
    /// It can be powered off.
    pub can_power_off: bool,
    pub remembered: bool,
    /// It can be remembered.
    pub can_remember: bool,
    /// Time left, for the ring.
    pub eta: Option<String>,
}

/// Model of [`PadRow`].
#[verifier::ext_equal]
pub struct RowView {
    pub serial: Seq<char>,
    pub product: Seq<char>,
    pub nickname: Option<Seq<char>>,
    pub connection: Seq<char>,
    pub percent: u8,
    pub state: Option<PowerState>,
    pub low: bool,
    pub can_power_off: bool,
    pub remembered: bool,
    pub can_remember: bool,
    pub eta: Option<Seq<char>>,
}

impl View for PadRow {
    type V = RowView;

    open spec fn view(&self) -> RowView {
        RowView {
            serial: self.serial@,
            product: self.product@,
            nickname: games::text_option(self.nickname),
            connection: self.connection@,
            percent: self.percent,
            state: self.state,
            low: self.low,
            can_power_off: self.can_power_off,
            remembered: self.remembered,
            can_remember: self.can_remember,
            eta: games::text_option(self.eta),
        }
    }
}

/// Models of a list of rows.
pub open spec fn row_views(v: Seq<PadRow>) -> Seq<RowView> {
    Seq::new(v.len(), |i: int| v[i]@)
}

/// Whether a serial is a developer pad's.
pub open spec fn is_emulated(serial: Seq<char>) -> bool {
    text::begins(serial, emulate::serial_prefix())
}

/// Text of a time hint.
pub open spec fn eta_text(hint: Option<EtaHint>) -> Option<Seq<char>> {
    match hint {
        Some(EtaHint::PlayLeft(ms)) => Some(estimate::duration_label(ms)),
        Some(EtaHint::ChargeToFull(ms)) => Some(estimate::duration_label(ms)),
        None => None,
    }
}

/// Nickname of a serial.
pub open spec fn nickname_of(known: known::StoreView, serial: Seq<char>) -> Option<Seq<char>> {
    if known.nicknames.dom().contains(serial) {
        Some(known.nicknames[serial])
    } else {
        None
    }
}

impl PadsView {
    /// Row of a connected pad.
    pub open spec fn live_row(
        self,
        c: model::StatusView,
        threshold: u8,
        analytics_enabled: bool,
    ) -> RowView {
        RowView {
            serial: c.serial,
            product: c.product,
            nickname: nickname_of(self.known, c.serial),
            connection: c.connection.label(),
            percent: c.percent,
            state: Some(c.state),
            low: c.low_battery(threshold),
            can_power_off: c.connection == Connection::Bluetooth && c.supports_power_off,
            remembered: self.known.records.dom().contains(c.serial),
            can_remember: identity::storable(c.serial) && !is_emulated(c.serial),
            eta: if analytics_enabled {
                eta_text(store::live_hint(self.analytics.records, c))
            } else {
                None
            },
        }
    }

    /// Row of a remembered pad that is not connected.
    pub open spec fn idle_row(self, k: known::RecordView, analytics_enabled: bool) -> RowView {
        RowView {
            serial: k.serial,
            product: k.product,
            nickname: nickname_of(self.known, k.serial),
            connection: k.connection,
            percent: k.percent,
            state: None,
            low: false,
            can_power_off: false,
            remembered: true,
            can_remember: true,
            eta: if analytics_enabled {
                eta_text(store::idle_hint(self.analytics.records, k.serial, k.percent))
            } else {
                None
            },
        }
    }

    /// Remembered pads that are not connected, by serial.
    pub open spec fn idle(self) -> Seq<known::RecordView> {
        known::disconnected(
            self.known.records,
            text_map::in_order(self.known.records.dom()),
            self.controllers,
        )
    }

    /// Rows: connected pads, then (with `all`) the remembered others.
    pub open spec fn rows(self, threshold: u8, analytics_enabled: bool, all: bool) -> Seq<
        RowView,
    > {
        Seq::new(
            self.controllers.len(),
            |i: int| self.live_row(self.controllers[i], threshold, analytics_enabled),
        ) + (if all {
            Seq::new(
                self.idle().len(),
                |i: int| self.idle_row(self.idle()[i], analytics_enabled),
            )
        } else {
            seq![]
        })
    }
}

fn ring_text(hint: Option<EtaHint>) -> (r: Option<String>)
    ensures
        games::text_option(r) == eta_text(hint),
{
    match hint {
        Some(h) => Some(estimate::format_eta_ring(h)),
        None => None,
    }
}

impl Pads {
    fn nickname_text(&self, serial: &str) -> (r: Option<String>)
        ensures
            games::text_option(r) == nickname_of(self@.known, serial@),
    {
        match self.known.nickname(serial) {
            Some(n) => Some(text::own(n)),
            None => None,
        }
    }

    fn live_pad_row(&self, c: &ControllerStatus, threshold: u8, analytics_enabled: bool) -> (r:
        PadRow)
        ensures
            r@ == self@.live_row(c@, threshold, analytics_enabled),
    {
        let serial = c.serial.as_str();
        PadRow {
            serial: c.serial.clone(),
            product: text::own(c.product),
            nickname: self.nickname_text(serial),
            connection: text::own(c.connection.as_str()),
            percent: c.percent,
            state: Some(c.state),
            low: c.is_low_battery(threshold),
            can_power_off: c.connection.is_bluetooth() && c.supports_power_off,
            remembered: self.known.is_remembered(serial),
            can_remember: identity::is_storable_serial(serial) && !emulate::is_emulated(serial),
            eta: if analytics_enabled {
                ring_text(self.analytics.eta_for(c))
            } else {
                None
            },
        }
    }

    fn idle_pad_row(&self, k: &KnownController, analytics_enabled: bool) -> (r: PadRow)
        ensures
            r@ == self@.idle_row(k@, analytics_enabled),
    {
        let serial = k.serial.as_str();
        PadRow {
            serial: k.serial.clone(),
            product: k.product.clone(),
            nickname: self.nickname_text(serial),
            connection: k.connection.clone(),
            percent: k.percent,
            state: None,
            low: false,
            can_power_off: false,
            remembered: true,
            can_remember: true,
            eta: if analytics_enabled {
                ring_text(self.analytics.eta_play_at(serial, k.percent))
            } else {
                None
            },
        }
    }

    /// Rows of the popup (`all`) and the start screen: connected pads, then the remembered
    /// others.
    pub fn pad_rows(&self, prefs: &Prefs, all: bool) -> (r: Vec<PadRow>)
        ensures
            row_views(r@) == self@.rows(prefs.low_battery_percent, prefs.analytics_enabled, all),
    {
        let threshold: u8 = prefs.low_battery_percent;
        let enabled = prefs.analytics_enabled;
        let ghost live = Seq::new(
            self@.controllers.len(),
            |i: int| self@.live_row(self@.controllers[i], threshold, enabled),
        );
        let mut out: Vec<PadRow> = Vec::new();
        let mut i: usize = 0;
        assert(row_views(out@) =~= live.take(0));
        while i < self.controllers.len()
            invariant
                i <= self.controllers@.len(),
                live == Seq::new(
                    self@.controllers.len(),
                    |i: int| self@.live_row(self@.controllers[i], threshold, enabled),
                ),
                row_views(out@) == live.take(i as int),
            decreases self.controllers@.len() - i,
        {
            let row = self.live_pad_row(&self.controllers[i], threshold, enabled);
            let ghost before = row_views(out@);
            out.push(row);
            assert(row_views(out@) =~= before.push(row@));
            assert(live.take(i + 1) =~= live.take(i as int).push(row@));
            i = i + 1;
        }
        assert(live.take(i as int) =~= live);
        if !all {
            assert(row_views(out@) =~= live + Seq::<RowView>::empty());
            return out;
        }
        let idle = self.known.remembered_disconnected(self.controllers.as_slice());
        let ghost rest = Seq::new(
            self@.idle().len(),
            |i: int| self@.idle_row(self@.idle()[i], enabled),
        );
        assert(known::record_refs(idle@) == self@.idle());
        let mut j: usize = 0;
        assert(row_views(out@) =~= live + rest.take(0));
        while j < idle.len()
            invariant
                j <= idle@.len(),
                known::record_refs(idle@) == self@.idle(),
                rest == Seq::new(
                    self@.idle().len(),
                    |i: int| self@.idle_row(self@.idle()[i], enabled),
                ),
                row_views(out@) == live + rest.take(j as int),
            decreases idle@.len() - j,
        {
            assert(known::record_refs(idle@)[j as int] == idle@[j as int]@);
            let row = self.idle_pad_row(idle[j], enabled);
            let ghost before = row_views(out@);
            out.push(row);
            assert(row_views(out@) =~= before.push(row@));
            assert(rest.take(j + 1) =~= rest.take(j as int).push(row@));
            assert((live + rest.take(j as int)).push(row@) =~= live + rest.take(j as int).push(
                row@,
            ));
            j = j + 1;
        }
        assert(rest.take(j as int) =~= rest);
        out
    }

    /// Time left that a toast shows.
    pub fn toast_eta_for(&self, event: &NotifyEvent, prefs: &Prefs) -> (r: Option<String>)
        ensures
            games::text_option(r) == (if prefs.analytics_enabled {
                eta_text(
                    store::live_hint(
                        self@.analytics.records,
                        model::StatusView {
                            index: 0,
                            kind: model::ControllerKind::DualSense,
                            product: "DualSense"@,
                            connection: Connection::Usb,
                            serial: event@.serial,
                            percent: match event.percent {
                                Some(p) => p,
                                None => 0,
                            },
                            state: event.state,
                            supports_lightbar: true,
                            supports_power_off: true,
                        },
                    ),
                )
            } else {
                None
            }),
    {
        if !prefs.analytics_enabled {
            return None;
        }
        let status = dualsense_status(
            0,
            "DualSense",
            Connection::Usb,
            event.serial.clone(),
            match event.percent {
                Some(p) => p,
                None => 0,
            },
            event.state,
        );
        ring_text(self.analytics.eta_for(&status))
    }
}

// ---------------------------------------------------------------------------
// Pads by serial
// ---------------------------------------------------------------------------

/// Place of the first connected pad with a serial, or the length.
pub open spec fn pad_at(s: Seq<model::StatusView>, serial: Seq<char>) -> int
    decreases s.len(),
{
    if s.len() == 0 || s[0].serial == serial {
        0
    } else {
        1 + pad_at(s.drop_first(), serial)
    }
}

proof fn lemma_pad_at(s: Seq<model::StatusView>, serial: Seq<char>, k: int)
    requires
        0 <= k <= s.len(),
        k < s.len() ==> s[k].serial == serial,
        forall|i: int| 0 <= i < k ==> (#[trigger] s[i]).serial != serial,
    ensures
        pad_at(s, serial) == k,
    decreases k,
{
    if k > 0 {
        assert(s[0].serial != serial);
        let t = s.drop_first();
        assert forall|i: int| 0 <= i < k - 1 implies (#[trigger] t[i]).serial != serial by {
            assert(t[i] == s[i + 1]);
        }
        lemma_pad_at(t, serial, k - 1);
    }
}

/// Executable form of [`pad_at`].
pub fn find_pad(v: &[ControllerStatus], serial: &str) -> (r: usize)
    ensures
        r == pad_at(model::statuses(v@), serial@),
        r <= v@.len(),
{
    let ghost s = model::statuses(v@);
    let mut i: usize = 0;
    while i < v.len()
        invariant
            i <= v@.len(),
            s == model::statuses(v@),
            forall|k: int| 0 <= k < i ==> (#[trigger] s[k]).serial != serial@,
        decreases v@.len() - i,
    {
        assert(s[i as int] == v@[i as int]@);
        if text::str_eq(v[i].serial.as_str(), serial) {
            proof {
                lemma_pad_at(s, serial@, i as int);
            }
            return i;
        }
        i = i + 1;
    }
    proof {
        lemma_pad_at(s, serial@, s.len() as int);
    }
    v.len()
}

/// What comes of asking to power a pad off.
#[derive(Debug, Clone, Copy, PartialEq, Eq, Structural)]
pub enum PowerOffGate {
    /// Developer pads have no power.
    Emulated,
    NotConnected,
    /// It is on USB, or cannot be powered off.
    Ignored,
    Send,
}

impl PadsView {
    /// The battery level to identify a pad with: only a connected real pad with a lightbar
    /// can flash.
    pub open spec fn identify_percent(self, serial: Seq<char>) -> Option<u8> {
        let at = pad_at(self.controllers, serial);
        if !is_emulated(serial) && at < self.controllers.len()
            && self.controllers[at].supports_lightbar {
            Some(self.controllers[at].percent)
        } else {
            None
        }
    }

    /// What comes of asking to power a pad off.
    pub open spec fn power_off_gate(self, serial: Seq<char>) -> PowerOffGate {
        let at = pad_at(self.controllers, serial);
        if is_emulated(serial) {
            PowerOffGate::Emulated
        } else if at >= self.controllers.len() {
            PowerOffGate::NotConnected
        } else if !self.controllers[at].supports_power_off || self.controllers[at].connection
            != Connection::Bluetooth {
            PowerOffGate::Ignored
        } else {
            PowerOffGate::Send
        }
    }

    /// Remembered pads once one was toggled.
    pub open spec fn toggled(self, serial: Seq<char>) -> known::StoreView {
        let at = pad_at(self.controllers, serial);
        if is_emulated(serial) {
            self.known
        } else if self.known.records.dom().contains(serial) {
            self.known.without_pad(serial)
        } else if at < self.controllers.len() {
            self.known.with_pad(self.controllers[at])
        } else {
            self.known
        }
    }
}

impl Pads {
    /// The battery level to identify a pad with, where it can flash.
    pub fn identify(&self, serial: &str) -> (r: Option<u8>)
        ensures
            r == self@.identify_percent(serial@),
    {
        if emulate::is_emulated(serial) {
            return None;
        }
        let at: usize = find_pad(self.controllers.as_slice(), serial);
        if at < self.controllers.len() && self.controllers[at].supports_lightbar {
            Some(self.controllers[at].percent)
        } else {
            None
        }
    }

    /// What comes of asking to power a pad off.
    pub fn power_off(&self, serial: &str) -> (r: PowerOffGate)
        ensures
            r == self@.power_off_gate(serial@),
    {
        if emulate::is_emulated(serial) {
            return PowerOffGate::Emulated;
        }
        let at: usize = find_pad(self.controllers.as_slice(), serial);
        if at >= self.controllers.len() {
            return PowerOffGate::NotConnected;
        }
        let c = &self.controllers[at];
        if !c.supports_power_off || !c.connection.is_bluetooth() {
            PowerOffGate::Ignored
        } else {
            PowerOffGate::Send
        }
    }

    /// Remembers a connected pad, or forgets a remembered one; whether the store is to be
    /// saved and the rows redrawn.
    pub fn toggle_remember(&mut self, serial: &str) -> (r: bool)
        ensures
            final(self)@ == (PadsView { known: old(self)@.toggled(serial@), ..old(self)@ }),
            r == !is_emulated(serial@),
    {
        if emulate::is_emulated(serial) {
            return false;
        }
        if self.known.is_remembered(serial) {
            self.known.forget(serial);
        } else {
            let at: usize = find_pad(self.controllers.as_slice(), serial);
            if at < self.controllers.len() {
                self.known.remember(&self.controllers[at]);
            }
        }
        true
    }

    /// Gives a pad a nickname; whether that changed anything.
    pub fn set_nickname(&mut self, serial: &str, nickname: Option<String>) -> (r: bool)
        ensures
            ({
                let next = if is_emulated(serial@) {
                    old(self)@.known
                } else {
                    old(self)@.known.with_nickname(serial@, games::text_option(nickname))
                };
                &&& final(self)@ == (PadsView { known: next, ..old(self)@ })
                &&& r == (next.nicknames != old(self)@.known.nicknames)
            }),
    {
        if emulate::is_emulated(serial) {
            return false;
        }
        self.known.set_nickname(serial, nickname)
    }
}

// ---------------------------------------------------------------------------
// Low batteries
// ---------------------------------------------------------------------------

/// Pads whose lightbar pulses, with their percent.
pub open spec fn low_pads(s: Seq<model::StatusView>, threshold: u8) -> Seq<(Seq<char>, u8)>
    decreases s.len(),
{
    if s.len() == 0 {
        seq![]
    } else if s.last().low_battery(threshold) && !is_emulated(s.last().serial) {
        low_pads(s.drop_last(), threshold).push((s.last().serial, s.last().percent))
    } else {
        low_pads(s.drop_last(), threshold)
    }
}

/// Models of a list of pads with their percent.
pub open spec fn pulse_views(v: Seq<(String, u8)>) -> Seq<(Seq<char>, u8)> {
    Seq::new(v.len(), |i: int| (v[i].0@, v[i].1))
}

/// Pads whose lightbar pulses: real ones with a low battery, while lightbars are driven.
pub fn low_battery_list(controllers: &[ControllerStatus], threshold: u8, lightbars_on: bool) -> (r:
    Vec<(String, u8)>)
    ensures
        pulse_views(r@) == (if lightbars_on {
            low_pads(model::statuses(controllers@), threshold)
        } else {
            seq![]
        }),
{
    let ghost s = model::statuses(controllers@);
    let mut out: Vec<(String, u8)> = Vec::new();
    assert(pulse_views(out@) =~= low_pads(s.take(0), threshold));
    if !lightbars_on {
        assert(pulse_views(out@) =~= Seq::<(Seq<char>, u8)>::empty());
        return out;
    }
    let mut i: usize = 0;
    while i < controllers.len()
        invariant
            i <= controllers@.len(),
            s == model::statuses(controllers@),
            pulse_views(out@) == low_pads(s.take(i as int), threshold),
        decreases controllers@.len() - i,
    {
        let c = &controllers[i];
        assert(s.take(i + 1).drop_last() == s.take(i as int));
        assert(s.take(i + 1).last() == c@);
        if c.is_low_battery(threshold) && !emulate::is_emulated(c.serial.as_str()) {
            let ghost before = pulse_views(out@);
            out.push((c.serial.clone(), c.percent));
            assert(pulse_views(out@) =~= before.push((c@.serial, c@.percent)));
        }
        i = i + 1;
    }
    assert(s.take(i as int) == s);
    out
}

/// Where the low-battery pulse stands in a round over the low pads.
#[derive(Debug, Clone, Copy, PartialEq, Eq, Structural)]
pub enum Pulse {
    /// About to light the pad at this place.
    At(usize),
    /// The pad at this place shines orange.
    Lit(usize),
}

/// What the pulse does next.
#[derive(Debug, Clone, Copy, PartialEq, Eq, Structural)]
pub enum PulseStep {
    /// Wait, then begin a round.
    Rest,
    /// Set the pad at this place to orange and wait.
    Light(usize),
    /// Give the pad at this place its battery color back.
    Restore(usize),
}

/// Where the pulse then stands, and what it does. While it yields (a pad is being identified,
/// or lightbars are off) a round ends at once.
pub open spec fn pulse_after(pulse: Pulse, yielding: bool, targets: nat) -> (Pulse, PulseStep) {
    match pulse {
        Pulse::At(i) => if yielding || i >= targets {
            (Pulse::At(0), PulseStep::Rest)
        } else {
            (Pulse::Lit(i), PulseStep::Light(i))
        },
        Pulse::Lit(i) => if yielding || i >= targets {
            (Pulse::At(0), PulseStep::Rest)
        } else {
            (Pulse::At((i + 1) as usize), PulseStep::Restore(i))
        },
    }
}

/// What the low-battery pulse does next in a round over `targets` pads.
pub fn pulse_next(pulse: &mut Pulse, yielding: bool, targets: usize) -> (r: PulseStep)
    ensures
        (*final(pulse), r) == pulse_after(*old(pulse), yielding, targets as nat),
{
    match *pulse {
        Pulse::At(i) => if yielding || i >= targets {
            *pulse = Pulse::At(0);
            PulseStep::Rest
        } else {
            *pulse = Pulse::Lit(i);
            PulseStep::Light(i)
        },
        Pulse::Lit(i) => if yielding || i >= targets {
            *pulse = Pulse::At(0);
            PulseStep::Rest
        } else {
            *pulse = Pulse::At(i + 1);
            PulseStep::Restore(i)
        },
    }
}

// ---------------------------------------------------------------------------
// Laws
// ---------------------------------------------------------------------------

/// In a round that does not yield every low pad shines once, in order, and gets its color
/// back before the next.
pub proof fn law_pulse_round(i: usize, targets: usize)
    requires
        i < targets,
    ensures
        pulse_after(Pulse::At(i), false, targets as nat) == (Pulse::Lit(i), PulseStep::Light(i)),
        pulse_after(Pulse::Lit(i), false, targets as nat) == (
            Pulse::At((i + 1) as usize),
            PulseStep::Restore(i),
        ),
        i + 1 == targets ==> pulse_after(Pulse::At((i + 1) as usize), false, targets as nat) == (
            Pulse::At(0),
            PulseStep::Rest,
        ),
{
}

/// Taking in the same pads again tells nothing and opens nothing.
pub proof fn law_same_pads_are_quiet(p: PadsView, prefs: Prefs, facts: ApplyFacts)
    ensures
        p.events(p.controllers, prefs).len() == 0,
        p.start_change(p.controllers, prefs, facts) != StartChange::Open,
        p.applied(p.controllers, prefs, facts.now_ms).controllers == p.controllers,
        p.applied(p.controllers, prefs, facts.now_ms).flags == p.flags,
{
    assert(same_pads(p.controllers, p.controllers));
}

/// The start screen opens by itself only on the first pad, never during the cooldown after
/// the last one vanished, and never over a game that covers the screen.
pub proof fn law_start_opens_on_first_pad(
    p: PadsView,
    next: Seq<model::StatusView>,
    prefs: Prefs,
    facts: ApplyFacts,
)
    requires
        p.start_change(next, prefs, facts) == StartChange::Open,
    ensures
        p.controllers.len() == 0,
        next.len() > 0,
        prefs.start_screen_enabled,
        !facts.start_open,
        !facts.fullscreen,
        p.cooldown_until_ms matches Some(until) ==> facts.now_ms >= until,
{
}

/// When the last pad vanishes, a connect within the cooldown does not open the start screen.
pub proof fn law_flap_does_not_open(
    p: PadsView,
    back: Seq<model::StatusView>,
    prefs: Prefs,
    gone: ApplyFacts,
    later: ApplyFacts,
)
    requires
        p.controllers.len() > 0,
        gone.now_ms <= later.now_ms < gone.now_ms + START_CONNECT_COOLDOWN_MS,
        later.now_ms < u64::MAX,
    ensures
        p.applied(seq![], prefs, gone.now_ms).start_change(back, prefs, later)
            != StartChange::Open,
{
    let q = p.applied(seq![], prefs, gone.now_ms);
    assert(!same_pads(p.controllers, Seq::<model::StatusView>::empty()));
    assert(q.controllers.len() == 0);
}

/// Developer pads are never remembered, identified or powered off.
pub proof fn law_developer_pads_are_inert(p: PadsView, serial: Seq<char>)
    requires
        is_emulated(serial),
    ensures
        p.toggled(serial) == p.known,
        p.identify_percent(serial) is None,
        p.power_off_gate(serial) == PowerOffGate::Emulated,
{
}

/// Toggling a connected real pad twice gives the remembered pads back.
pub proof fn law_toggle_remember_undoes(p: PadsView, serial: Seq<char>)
    requires
        !is_emulated(serial),
        identity::storable(serial),
        !p.known.records.dom().contains(serial),
        pad_at(p.controllers, serial) < p.controllers.len(),
    ensures
        (PadsView { known: p.toggled(serial), ..p }).toggled(serial).records == p.known.records,
{
    let at = pad_at(p.controllers, serial);
    lemma_pad_found(p.controllers, serial);
    let q = PadsView { known: p.toggled(serial), ..p };
    assert(q.toggled(serial).records =~= p.known.records);
}

proof fn lemma_pad_found(s: Seq<model::StatusView>, serial: Seq<char>)
    ensures
        0 <= pad_at(s, serial) <= s.len(),
        pad_at(s, serial) < s.len() ==> s[pad_at(s, serial)].serial == serial,
    decreases s.len(),
{
    if s.len() > 0 && s[0].serial != serial {
        lemma_pad_found(s.drop_first(), serial);
    }
}

} // verus!
