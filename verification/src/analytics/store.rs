//! What is learned per pad, and how a poll changes it.
use crate::analytics::estimate;
use crate::analytics::estimate::{
    BucketDirection, EtaHint, InProgressBucket, StepCoverage, StepSample,
};
use crate::controller::emulate;
use crate::controller::identity;
use crate::controller::model;
use crate::controller::model::{ControllerStatus, PowerState};
use crate::text;
use crate::text_map;
use crate::text_map::{TextMap, TextSet};
use vstd::prelude::*;

verus! {

/// Max controller serials retained in the store.
pub const SERIAL_CAP: usize = 32;

/// Drop pads not seen for this long (unless remembered / nicknamed).
pub const STALE_SERIAL_DAYS: u64 = 180;

/// [`STALE_SERIAL_DAYS`] in milliseconds.
pub const STALE_SERIAL_MS: u64 = 15552000000;

/// Heartbeat gaps larger than this are treated as "app was closed" and skipped (ms).
pub const HEARTBEAT_MAX_GAP_MS: u64 = 150000;

/// After a connect, reported percentages are often wrong for a while. No bucket window is
/// opened or committed until this grace elapses (ms).
pub const CONNECT_GRACE_MS: u64 = 1800000;

/// What is learned of one pad.
#[derive(Debug, Clone, PartialEq, Eq)]
pub struct SerialRecord {
    pub last_seen_ms: u64,
    pub drain_steps: Vec<StepSample>,
    pub charge_steps: Vec<StepSample>,
    pub in_progress: Option<InProgressBucket>,
}

/// Model of [`SerialRecord`].
#[verifier::ext_equal]
pub struct RecordView {
    pub last_seen: u64,
    pub drain: Seq<estimate::StepView>,
    pub charge: Seq<estimate::StepView>,
    pub in_progress: Option<InProgressBucket>,
}

impl View for SerialRecord {
    type V = RecordView;

    open spec fn view(&self) -> RecordView {
        RecordView {
            last_seen: self.last_seen_ms,
            drain: estimate::step_views(self.drain_steps@),
            charge: estimate::step_views(self.charge_steps@),
            in_progress: self.in_progress,
        }
    }
}

impl Default for SerialRecord {
    fn default() -> (r: Self)
        ensures
            r@ == fresh_record(0),
    {
        SerialRecord::seen_at(0)
    }
}

impl SerialRecord {
    /// A record of a pad that was just seen.
    pub fn seen_at(now: u64) -> (r: Self)
        ensures
            r@ == fresh_record(now),
    {
        let r = SerialRecord {
            last_seen_ms: now,
            drain_steps: Vec::new(),
            charge_steps: Vec::new(),
            in_progress: None,
        };
        assert(r@ =~= fresh_record(now));
        r
    }
}

/// A record of a pad that was just seen.
pub open spec fn fresh_record(now: u64) -> RecordView {
    RecordView { last_seen: now, drain: seq![], charge: seq![], in_progress: None }
}

/// Models of a map of records.
pub open spec fn record_views(m: Map<Seq<char>, SerialRecord>) -> Map<Seq<char>, RecordView> {
    m.map_values(|r: SerialRecord| r@)
}

// ---------------------------------------------------------------------------
// One pad
// ---------------------------------------------------------------------------

/// Everything known of one pad while it is connected.
pub struct Pad {
    pub record: SerialRecord,
    /// Moment at which the current connect grace began.
    pub connected_at: Option<u64>,
    /// Whether the window was looked at once after leaving the connect grace.
    pub reconciled: bool,
    /// Whether stored data changed.
    pub dirty: bool,
}

/// Model of [`Pad`].
#[verifier::ext_equal]
pub struct PadView {
    pub record: RecordView,
    pub connected_at: Option<u64>,
    pub reconciled: bool,
    pub dirty: bool,
}

impl View for Pad {
    type V = PadView;

    open spec fn view(&self) -> PadView {
        PadView {
            record: self.record@,
            connected_at: self.connected_at,
            reconciled: self.reconciled,
            dirty: self.dirty,
        }
    }
}

/// `now - then`, at least zero.
pub open spec fn since(now: u64, then: u64) -> int {
    if now >= then {
        now - then
    } else {
        0
    }
}

/// Whether a power state moves a battery in a direction.
pub open spec fn moves(direction: BucketDirection, state: PowerState) -> bool {
    match direction {
        BucketDirection::Drain => state == PowerState::Discharging,
        BucketDirection::Charge => state == PowerState::Charging,
    }
}

fn direction_matches(direction: BucketDirection, state: PowerState) -> (r: bool)
    ensures
        r == moves(direction, state),
{
    match direction {
        BucketDirection::Drain => state.is_discharging(),
        BucketDirection::Charge => state == PowerState::Charging,
    }
}

/// Samples of every edge of `path`, `duration` each, added to `steps`.
pub open spec fn with_samples(
    steps: Seq<estimate::StepView>,
    path: Seq<(u8, u8)>,
    duration: u64,
) -> Seq<estimate::StepView>
    decreases path.len(),
{
    if path.len() == 0 {
        steps
    } else {
        let e = path.last();
        estimate::with_sample(with_samples(steps, path.drop_last(), duration), e.0, e.1, duration)
    }
}

/// Steps behind a move from one percentage to another that took `active` milliseconds:
/// a single edge, or a jump between unknown levels, is one sample; a longer jump is
/// shared out evenly unless that leaves too little per edge.
pub open spec fn steps_after_move(
    steps: Seq<estimate::StepView>,
    direction: BucketDirection,
    from: u8,
    to: u8,
    active: u64,
) -> Seq<estimate::StepView> {
    let path = estimate::passed_edges(direction, from, to);
    if path.len() == 0 {
        estimate::with_sample(steps, from, to, active)
    } else if path.len() == 1 {
        estimate::with_sample(steps, path[0].0, path[0].1, active)
    } else {
        let per = (active as int / path.len() as int) as u64;
        if per >= estimate::MIN_STEP_SECS * 1000 {
            with_samples(steps, path, per)
        } else {
            steps
        }
    }
}

impl PadView {
    /// The pad seen again.
    pub open spec fn seen(self, now: u64) -> PadView {
        PadView { record: RecordView { last_seen: now, ..self.record }, ..self }
    }

    /// The in-progress window dropped.
    pub open spec fn cleared(self, now: u64) -> PadView {
        PadView {
            record: RecordView { last_seen: now, in_progress: None, ..self.record },
            dirty: self.dirty || self.record.in_progress is Some,
            ..self
        }
    }

    /// A window opened.
    pub open spec fn started(self, direction: BucketDirection, percent: u8, now: u64) -> PadView {
        PadView {
            record: RecordView {
                last_seen: now,
                in_progress: Some(InProgressBucket { direction, percent, active_ms: 0 }),
                ..self.record
            },
            dirty: true,
            ..self
        }
    }

    /// A finished window learned from, unless it was too short or too long.
    pub open spec fn committed(
        self,
        direction: BucketDirection,
        from: u8,
        to: u8,
        active: u64,
        now: u64,
    ) -> PadView {
        let secs = active as int / 1000;
        if from == to {
            self
        } else if secs < estimate::MIN_STEP_SECS || secs > estimate::MAX_STEP_SECS {
            PadView { dirty: true, ..self.seen(now) }
        } else {
            PadView {
                record: match direction {
                    BucketDirection::Drain => RecordView {
                        last_seen: now,
                        drain: steps_after_move(self.record.drain, direction, from, to, active),
                        ..self.record
                    },
                    BucketDirection::Charge => RecordView {
                        last_seen: now,
                        charge: steps_after_move(self.record.charge, direction, from, to, active),
                        ..self.record
                    },
                },
                dirty: true,
                ..self
            }
        }
    }

    /// A connect taken in. Brief absences keep the grace clock; longer ones, and first
    /// connects, start a new grace and drop any stale window.
    pub open spec fn connected(self, now: u64, last_seen: Option<u64>) -> PadView {
        let brief = match last_seen {
            Some(last) => self.connected_at is Some && since(now, last) <= HEARTBEAT_MAX_GAP_MS,
            None => false,
        };
        if brief {
            self
        } else {
            PadView {
                connected_at: Some(now),
                reconciled: false,
                ..self.cleared(now)
            }
        }
    }

    /// Whether the pad is in its connect grace.
    pub open spec fn in_grace(self, now: u64) -> bool {
        self.connected_at matches Some(t) && since(now, t) < CONNECT_GRACE_MS
    }

    /// The window looked at once after the grace: one that does not fit the pad is dropped.
    pub open spec fn reconciled_with(self, percent: u8, state: PowerState, now: u64) -> PadView {
        let fits = match self.record.in_progress {
            Some(p) => p.percent == percent && moves(p.direction, state),
            None => true,
        };
        if self.reconciled {
            self
        } else if fits {
            PadView { reconciled: true, ..self }
        } else {
            PadView { reconciled: true, ..self.cleared(now) }
        }
    }

    /// The charge finished: its last step learned from, the window closed.
    pub open spec fn charge_finished(self, now: u64) -> PadView {
        match self.record.in_progress {
            Some(p) => if p.direction == BucketDirection::Charge && p.percent
                < estimate::FULL_PERCENT {
                self.committed(
                    BucketDirection::Charge,
                    p.percent,
                    estimate::FULL_PERCENT,
                    p.active_ms,
                    now,
                ).cleared(now)
            } else {
                self.cleared(now)
            },
            None => self.cleared(now),
        }
    }

    /// Whether a window cannot go on: it runs the other way, or the percentage moved back.
    pub open spec fn interrupted(self, want: BucketDirection, percent: u8) -> bool {
        self.record.in_progress matches Some(p) && (p.direction != want || match want {
            BucketDirection::Drain => percent > p.percent,
            BucketDirection::Charge => percent < p.percent,
        })
    }

    /// A percentage taken in while the battery moves: a window is opened, goes on, or is
    /// learned from and followed by the next.
    pub open spec fn moved(self, want: BucketDirection, percent: u8, now: u64) -> PadView {
        let p0 = if self.interrupted(want, percent) {
            self.cleared(now)
        } else {
            self
        };
        match p0.record.in_progress {
            None => p0.started(want, percent, now),
            Some(p) => if p.percent != percent {
                p0.committed(want, p.percent, percent, p.active_ms, now).started(
                    want,
                    percent,
                    now,
                )
            } else {
                p0.seen(now)
            },
        }
    }

    /// A reading taken in once the pad is past its grace.
    pub open spec fn settled(self, percent: u8, state: PowerState, now: u64) -> PadView {
        match state {
            PowerState::Discharging => self.moved(BucketDirection::Drain, percent, now),
            PowerState::Charging => self.moved(BucketDirection::Charge, percent, now),
            PowerState::Complete => self.charge_finished(now),
            _ => self.cleared(now),
        }
    }

    /// A reading taken in. `last_seen` is when the pad was seen before this reading.
    /// Emulated pads have no connect grace.
    pub open spec fn observed(
        self,
        emulated: bool,
        was_present: bool,
        last_seen: Option<u64>,
        percent: u8,
        state: PowerState,
        now: u64,
    ) -> PadView {
        let p1 = if !was_present && !emulated {
            self.connected(now, last_seen)
        } else {
            self
        };
        if !emulated && p1.in_grace(now) {
            p1.seen(now)
        } else {
            let p2 = if emulated {
                p1
            } else {
                p1.reconciled_with(percent, state, now)
            };
            p2.settled(percent, state, now)
        }
    }
}

fn push_all(steps: &mut Vec<StepSample>, path: &Vec<(u8, u8)>, duration: u64)
    ensures
        estimate::step_views(final(steps)@) == with_samples(
            estimate::step_views(old(steps)@),
            path@,
            duration,
        ),
{
    let ghost sv = estimate::step_views(steps@);
    let mut i: usize = 0;
    while i < path.len()
        invariant
            i <= path@.len(),
            sv == estimate::step_views(old(steps)@),
            estimate::step_views(steps@) == with_samples(sv, path@.take(i as int), duration),
        decreases path@.len() - i,
    {
        let (a, b) = path[i];
        assert(path@.take(i + 1).drop_last() == path@.take(i as int));
        assert(path@.take(i + 1).last() == path@[i as int]);
        estimate::push_step_sample(steps, a, b, duration);
        i = i + 1;
    }
    assert(path@.take(i as int) == path@);
}

fn learn_move(
    steps: &mut Vec<StepSample>,
    direction: BucketDirection,
    from: u8,
    to: u8,
    active: u64,
)
    ensures
        estimate::step_views(final(steps)@) == steps_after_move(
            estimate::step_views(old(steps)@),
            direction,
            from,
            to,
            active,
        ),
{
    let path = estimate::expand(direction, from, to);
    if path.len() == 0 {
        estimate::push_step_sample(steps, from, to, active);
    } else if path.len() == 1 {
        let (a, b) = path[0];
        estimate::push_step_sample(steps, a, b, active);
    } else {
        let per: u64 = active / path.len() as u64;
        if per >= estimate::MIN_STEP_SECS * 1000 {
            push_all(steps, &path, per);
        }
    }
}

impl Pad {
    fn clear_in_progress(&mut self, now: u64)
        ensures
            final(self)@ == old(self)@.cleared(now),
    {
        if self.record.in_progress.is_some() {
            self.dirty = true;
        }
        self.record.in_progress = None;
        self.record.last_seen_ms = now;
    }

    fn start_in_progress(&mut self, direction: BucketDirection, percent: u8, now: u64)
        ensures
            final(self)@ == old(self)@.started(direction, percent, now),
    {
        self.record.in_progress = Some(InProgressBucket { direction, percent, active_ms: 0 });
        self.record.last_seen_ms = now;
        self.dirty = true;
    }

    fn commit_step(&mut self, direction: BucketDirection, from: u8, to: u8, active: u64, now: u64)
        ensures
            final(self)@ == old(self)@.committed(direction, from, to, active, now),
    {
        if from == to {
            return;
        }
        let secs: u64 = active / 1000;
        if secs < estimate::MIN_STEP_SECS || secs > estimate::MAX_STEP_SECS {
            self.record.last_seen_ms = now;
            self.dirty = true;
            return;
        }
        match direction {
            BucketDirection::Drain => {
                learn_move(&mut self.record.drain_steps, direction, from, to, active);
            },
            BucketDirection::Charge => {
                learn_move(&mut self.record.charge_steps, direction, from, to, active);
            },
        }
        self.record.last_seen_ms = now;
        self.dirty = true;
    }

    fn on_connect(&mut self, now: u64, last_seen: Option<u64>)
        ensures
            final(self)@ == old(self)@.connected(now, last_seen),
    {
        let brief = match last_seen {
            Some(last) => self.connected_at.is_some() && now.saturating_sub(last)
                <= HEARTBEAT_MAX_GAP_MS,
            None => false,
        };
        if brief {
            return;
        }
        self.connected_at = Some(now);
        self.reconciled = false;
        self.clear_in_progress(now);
    }

    /// Whether the pad is in its connect grace.
    pub fn in_connect_grace(&self, now: u64) -> (r: bool)
        ensures
            r == self@.in_grace(now),
    {
        match self.connected_at {
            Some(t) => now.saturating_sub(t) < CONNECT_GRACE_MS,
            None => false,
        }
    }

    fn finish_charge_to_full(&mut self, now: u64)
        ensures
            final(self)@ == old(self)@.charge_finished(now),
    {
        if let Some(p) = self.record.in_progress {
            if p.direction == BucketDirection::Charge && p.percent < estimate::FULL_PERCENT {
                self.commit_step(
                    BucketDirection::Charge,
                    p.percent,
                    estimate::FULL_PERCENT,
                    p.active_ms,
                    now,
                );
            }
        }
        self.clear_in_progress(now);
    }

    fn on_move(&mut self, want: BucketDirection, percent: u8, now: u64)
        ensures
            final(self)@ == old(self)@.moved(want, percent, now),
    {
        // Mode flip or wrong-way percent: drop the timer only.
        if let Some(p) = self.record.in_progress {
            let wrong_way = match want {
                BucketDirection::Drain => percent > p.percent,
                BucketDirection::Charge => percent < p.percent,
            };
            if p.direction != want || wrong_way {
                self.clear_in_progress(now);
            }
        }
        match self.record.in_progress {
            Some(p) => {
                if percent != p.percent {
                    self.commit_step(want, p.percent, percent, p.active_ms, now);
                    self.start_in_progress(want, percent, now);
                } else {
                    self.record.last_seen_ms = now;
                }
            },
            None => {
                self.start_in_progress(want, percent, now);
            },
        }
    }

    /// Takes in a reading of the pad.
    pub fn on_controller(
        &mut self,
        emulated: bool,
        was_present: bool,
        last_seen: Option<u64>,
        percent: u8,
        state: PowerState,
        now: u64,
    )
        ensures
            final(self)@ == old(self)@.observed(
                emulated,
                was_present,
                last_seen,
                percent,
                state,
                now,
            ),
    {
        if !was_present && !emulated {
            self.on_connect(now, last_seen);
        }
        if !emulated && self.in_connect_grace(now) {
            self.record.last_seen_ms = now;
            return;
        }
        if !emulated && !self.reconciled {
            self.reconciled = true;
            if let Some(p) = self.record.in_progress {
                if p.percent != percent || !direction_matches(p.direction, state) {
                    self.clear_in_progress(now);
                }
            }
        }
        match state {
            PowerState::Discharging => self.on_move(BucketDirection::Drain, percent, now),
            PowerState::Charging => self.on_move(BucketDirection::Charge, percent, now),
            PowerState::Complete => self.finish_charge_to_full(now),
            _ => self.clear_in_progress(now),
        }
    }
}

// ---------------------------------------------------------------------------
// Laws of one pad
// ---------------------------------------------------------------------------

/// Every edge of `before` is still in `after`, in its place, with samples.
pub open spec fn edges_survive(
    before: Seq<estimate::StepView>,
    after: Seq<estimate::StepView>,
) -> bool {
    &&& after.len() >= before.len()
    &&& forall|i: int|
        0 <= i < before.len() && (#[trigger] before[i]).samples.len() > 0 ==> after[i].from
            == before[i].from && after[i].to == before[i].to && after[i].samples.len() > 0
}

proof fn lemma_sample_survives(steps: Seq<estimate::StepView>, from: u8, to: u8, duration: u64)
    ensures
        edges_survive(steps, estimate::with_sample(steps, from, to, duration)),
{
    let next = estimate::with_sample(steps, from, to, duration);
    estimate::lemma_step_index(steps, from, to);
    assert forall|i: int|
        0 <= i < steps.len() && (#[trigger] steps[i]).samples.len() > 0 implies next[i].from
        == steps[i].from && next[i].to == steps[i].to && next[i].samples.len() > 0 by {
        estimate::law_samples_keep_edges(steps, from, to, duration, i);
    }
}

proof fn lemma_samples_survive(
    steps: Seq<estimate::StepView>,
    path: Seq<(u8, u8)>,
    duration: u64,
)
    ensures
        edges_survive(steps, with_samples(steps, path, duration)),
    decreases path.len(),
{
    if path.len() > 0 {
        lemma_samples_survive(steps, path.drop_last(), duration);
        let mid = with_samples(steps, path.drop_last(), duration);
        let e = path.last();
        lemma_sample_survives(mid, e.0, e.1, duration);
        let next = with_samples(steps, path, duration);
        assert forall|i: int|
            0 <= i < steps.len() && (#[trigger] steps[i]).samples.len() > 0 implies next[i].from
            == steps[i].from && next[i].to == steps[i].to && next[i].samples.len() > 0 by {
            assert(mid[i].samples.len() > 0);
        }
    }
}

proof fn lemma_commit_survives(
    pad: PadView,
    direction: BucketDirection,
    from: u8,
    to: u8,
    active: u64,
    now: u64,
)
    ensures
        edges_survive(
            pad.record.drain,
            pad.committed(direction, from, to, active, now).record.drain,
        ),
        edges_survive(
            pad.record.charge,
            pad.committed(direction, from, to, active, now).record.charge,
        ),
{
    let path = estimate::passed_edges(direction, from, to);
    let per = (active as int / path.len() as int) as u64;
    lemma_sample_survives(pad.record.drain, from, to, active);
    lemma_sample_survives(pad.record.charge, from, to, active);
    if path.len() == 1 {
        lemma_sample_survives(pad.record.drain, path[0].0, path[0].1, active);
        lemma_sample_survives(pad.record.charge, path[0].0, path[0].1, active);
    }
    lemma_samples_survive(pad.record.drain, path, per);
    lemma_samples_survive(pad.record.charge, path, per);
}

/// Whatever happens to a pad (interruption, mode flip, disconnect, reconnect), steps that
/// were learned are still there afterwards.
pub proof fn law_learned_steps_survive(
    pad: PadView,
    emulated: bool,
    was_present: bool,
    last_seen: Option<u64>,
    percent: u8,
    state: PowerState,
    now: u64,
)
    ensures
        ({
            let next = pad.observed(emulated, was_present, last_seen, percent, state, now);
            &&& edges_survive(pad.record.drain, next.record.drain)
            &&& edges_survive(pad.record.charge, next.record.charge)
        }),
{
    let p1 = if !was_present && !emulated {
        pad.connected(now, last_seen)
    } else {
        pad
    };
    let p2 = if emulated {
        p1
    } else {
        p1.reconciled_with(percent, state, now)
    };
    assert(p2.record.drain == pad.record.drain && p2.record.charge == pad.record.charge);
    let want = if state == PowerState::Discharging {
        BucketDirection::Drain
    } else {
        BucketDirection::Charge
    };
    let p3 = if p2.interrupted(want, percent) {
        p2.cleared(now)
    } else {
        p2
    };
    if let Some(p) = p3.record.in_progress {
        lemma_commit_survives(p3, want, p.percent, percent, p.active_ms, now);
    }
    if let Some(p) = p2.record.in_progress {
        lemma_commit_survives(
            p2,
            BucketDirection::Charge,
            p.percent,
            estimate::FULL_PERCENT,
            p.active_ms,
            now,
        );
    }
}

/// During the connect grace nothing is learned, and no window opens or moves.
pub proof fn law_grace_learns_nothing(
    pad: PadView,
    was_present: bool,
    last_seen: Option<u64>,
    percent: u8,
    state: PowerState,
    now: u64,
)
    requires
        was_present ==> pad.in_grace(now),
        !was_present ==> pad.connected(now, last_seen).in_grace(now),
    ensures
        ({
            let next = pad.observed(false, was_present, last_seen, percent, state, now);
            &&& next.record.drain == pad.record.drain
            &&& next.record.charge == pad.record.charge
            &&& (next.record.in_progress == pad.record.in_progress || next.record.in_progress
                is None)
            &&& next.in_grace(now)
        }),
{
}

/// A long absence starts the grace anew and drops the window; a brief one keeps both.
pub proof fn law_reconnect(pad: PadView, last: u64, now: u64)
    ensures
        since(now, last) > HEARTBEAT_MAX_GAP_MS ==> {
            &&& pad.connected(now, Some(last)).in_grace(now)
            &&& pad.connected(now, Some(last)).record.in_progress is None
        },
        since(now, last) <= HEARTBEAT_MAX_GAP_MS && pad.connected_at is Some ==> pad.connected(
            now,
            Some(last),
        ) == pad,
{
}

// ---------------------------------------------------------------------------
// Store
// ---------------------------------------------------------------------------

/// What is learned of every pad, with what is known of this run.
#[derive(Debug)]
pub struct AnalyticsStore {
    pub by_serial: TextMap<SerialRecord>,
    pub dirty: bool,
    pub last_tick_ms: Option<u64>,
    /// Moments at which the current connect graces began (this run only).
    pub connected_at_ms: TextMap<u64>,
    /// Serials that have been reconciled once after leaving connect grace.
    pub grace_reconciled: TextSet,
    /// Whether emulated pads are learned from too.
    pub track_emulated: bool,
}

/// Model of [`AnalyticsStore`].
#[verifier::ext_equal]
pub struct StoreView {
    pub records: Map<Seq<char>, RecordView>,
    pub dirty: bool,
    pub last_tick: Option<u64>,
    pub connected: Map<Seq<char>, u64>,
    pub reconciled: Set<Seq<char>>,
    pub track_emulated: bool,
}

impl View for AnalyticsStore {
    type V = StoreView;

    open spec fn view(&self) -> StoreView {
        StoreView {
            records: record_views(self.by_serial@),
            dirty: self.dirty,
            last_tick: self.last_tick_ms,
            connected: self.connected_at_ms@,
            reconciled: self.grace_reconciled@,
            track_emulated: self.track_emulated,
        }
    }
}

/// Whether a serial belongs to an emulated pad.
pub open spec fn is_emulated(serial: Seq<char>) -> bool {
    text::begins(serial, emulate::serial_prefix())
}

impl StoreView {
    /// An empty store.
    pub open spec fn blank(track_emulated: bool) -> StoreView {
        StoreView {
            records: Map::empty(),
            dirty: false,
            last_tick: None,
            connected: Map::empty(),
            reconciled: Set::empty(),
            track_emulated,
        }
    }

    /// Whether a serial is learned from.
    pub open spec fn tracks(self, serial: Seq<char>) -> bool {
        identity::storable(serial) && (self.track_emulated || !is_emulated(serial))
    }

    /// What is known of one pad; a pad not seen before is new at `now`.
    pub open spec fn pad(self, serial: Seq<char>, now: u64) -> PadView {
        PadView {
            record: if self.records.dom().contains(serial) {
                self.records[serial]
            } else {
                fresh_record(now)
            },
            connected_at: if self.connected.dom().contains(serial) {
                Some(self.connected[serial])
            } else {
                None
            },
            reconciled: self.reconciled.contains(serial),
            dirty: self.dirty || !self.records.dom().contains(serial),
        }
    }

    /// The store with what is known of one pad put back.
    pub open spec fn with_pad(self, serial: Seq<char>, pad: PadView) -> StoreView {
        StoreView {
            records: self.records.insert(serial, pad.record),
            dirty: pad.dirty,
            connected: match pad.connected_at {
                Some(t) => self.connected.insert(serial, t),
                None => self.connected.remove(serial),
            },
            reconciled: if pad.reconciled {
                self.reconciled.insert(serial)
            } else {
                self.reconciled.remove(serial)
            },
            ..self
        }
    }

    /// A reading of a connected pad taken in.
    pub open spec fn with_reading(
        self,
        was_present: bool,
        s: model::StatusView,
        now: u64,
    ) -> StoreView {
        if !self.tracks(s.serial) {
            self
        } else {
            let last_seen = if self.records.dom().contains(s.serial) {
                Some(self.records[s.serial].last_seen)
            } else {
                None
            };
            self.with_pad(
                s.serial,
                self.pad(s.serial, now).observed(
                    is_emulated(s.serial),
                    was_present,
                    last_seen,
                    s.percent,
                    s.state,
                    now,
                ),
            )
        }
    }

    /// Readings of every connected pad taken in.
    pub open spec fn with_readings(
        self,
        previous: Seq<model::StatusView>,
        next: Seq<model::StatusView>,
        now: u64,
    ) -> StoreView
        decreases next.len(),
    {
        if next.len() == 0 {
            self
        } else {
            let s = next.last();
            self.with_readings(previous, next.drop_last(), now).with_reading(
                present(previous, s.serial),
                s,
                now,
            )
        }
    }

    /// Active time credited to the window of one pad that did not move.
    pub open spec fn with_heartbeat(self, s: model::StatusView, gap: u64, now: u64) -> StoreView {
        if self.tracks(s.serial) && self.records.dom().contains(s.serial) && beats(
            self.records[s.serial],
            s,
        ) {
            StoreView {
                records: self.records.insert(s.serial, credited(self.records[s.serial], gap, now)),
                dirty: true,
                ..self
            }
        } else {
            self
        }
    }

    /// Active time credited to every window of a pad that did not move.
    pub open spec fn with_heartbeats(
        self,
        next: Seq<model::StatusView>,
        gap: u64,
        now: u64,
    ) -> StoreView
        decreases next.len(),
    {
        if next.len() == 0 {
            self
        } else {
            self.with_heartbeats(next.drop_last(), gap, now).with_heartbeat(next.last(), gap, now)
        }
    }

    /// A disconnected pad noted as just seen; its window stays.
    pub open spec fn with_absence(
        self,
        s: model::StatusView,
        next: Seq<model::StatusView>,
        now: u64,
    ) -> StoreView {
        if self.tracks(s.serial) && !present(next, s.serial) && self.records.dom().contains(
            s.serial,
        ) {
            StoreView {
                records: self.records.insert(
                    s.serial,
                    RecordView { last_seen: now, ..self.records[s.serial] },
                ),
                dirty: true,
                ..self
            }
        } else {
            self
        }
    }

    /// Every disconnected pad noted as just seen.
    pub open spec fn with_absences(
        self,
        previous: Seq<model::StatusView>,
        next: Seq<model::StatusView>,
        now: u64,
    ) -> StoreView
        decreases previous.len(),
    {
        if previous.len() == 0 {
            self
        } else {
            self.with_absences(previous.drop_last(), next, now).with_absence(
                previous.last(),
                next,
                now,
            )
        }
    }

    /// Records that are kept or recent enough.
    pub open spec fn without_stale(self, now: u64, keep: Set<Seq<char>>) -> StoreView {
        let records = self.records.restrict(
            Set::new(|k: Seq<char>| keep.contains(k) || recent(self.records[k], now)),
        );
        StoreView {
            records,
            dirty: self.dirty || records.dom().len() != self.records.dom().len(),
            ..self
        }
    }

    /// The records down to the cap: the longest unseen go first, kept ones never.
    pub open spec fn capped(self, keep: Set<Seq<char>>) -> StoreView
        decreases self.records.dom().len(),
    {
        if self.records.dom().finite() && self.records.dom().len() > SERIAL_CAP {
            match oldest(self.records, text_map::in_order(self.records.dom()), keep) {
                Some(k) => if self.records.dom().contains(k) {
                    StoreView {
                        records: self.records.remove(k),
                        dirty: true,
                        ..self
                    }.capped(keep)
                } else {
                    self
                },
                None => self,
            }
        } else {
            self
        }
    }

    /// Stale and surplus records dropped.
    pub open spec fn pruned(self, now: u64, keep: Set<Seq<char>>) -> StoreView {
        self.without_stale(now, keep).capped(keep)
    }

    /// A poll taken in.
    pub open spec fn observed(
        self,
        previous: Seq<model::StatusView>,
        next: Seq<model::StatusView>,
        keep: Set<Seq<char>>,
        now: u64,
    ) -> StoreView {
        let gap = match self.last_tick {
            Some(t) => since(now, t),
            None => 0,
        };
        let s0 = StoreView { last_tick: Some(now), ..self };
        let s1 = if 0 < gap <= HEARTBEAT_MAX_GAP_MS {
            s0.with_heartbeats(next, gap as u64, now)
        } else {
            s0
        };
        s1.with_absences(previous, next, now).with_readings(previous, next, now).pruned(now, keep)
    }
}

/// Whether a pad with this serial is among `s`.
pub open spec fn present(s: Seq<model::StatusView>, serial: Seq<char>) -> bool {
    exists|i: int| 0 <= i < s.len() && (#[trigger] s[i]).serial == serial
}

/// Whether the window of a record fits a pad that did not move.
pub open spec fn beats(r: RecordView, s: model::StatusView) -> bool {
    r.in_progress matches Some(p) && moves(p.direction, s.state) && p.percent == s.percent
}

/// A record with active time credited to its window.
pub open spec fn credited(r: RecordView, gap: u64, now: u64) -> RecordView {
    RecordView {
        last_seen: now,
        in_progress: match r.in_progress {
            Some(p) => Some(
                InProgressBucket { active_ms: estimate::capped(p.active_ms + gap), ..p },
            ),
            None => None,
        },
        ..r
    }
}

/// Whether a record was seen recently enough.
pub open spec fn recent(r: RecordView, now: u64) -> bool {
    since(now, r.last_seen) <= STALE_SERIAL_MS
}

/// The key among `keys` that was not seen for the longest time and is not kept; the first
/// of those in order.
pub open spec fn oldest(
    records: Map<Seq<char>, RecordView>,
    keys: Seq<Seq<char>>,
    keep: Set<Seq<char>>,
) -> Option<Seq<char>>
    decreases keys.len(),
{
    if keys.len() == 0 {
        None
    } else {
        let best = oldest(records, keys.drop_last(), keep);
        let k = keys.last();
        if keep.contains(k) {
            best
        } else {
            match best {
                None => Some(k),
                Some(b) => if records[k].last_seen < records[b].last_seen {
                    Some(k)
                } else {
                    best
                },
            }
        }
    }
}

fn has_serial(v: &[ControllerStatus], serial: &str) -> (r: bool)
    ensures
        r == present(model::statuses(v@), serial@),
{
    let ghost s = model::statuses(v@);
    let mut i: usize = 0;
    while i < v.len()
        invariant
            i <= v@.len(),
            s == model::statuses(v@),
            forall|k: int| 0 <= k < i ==> (#[trigger] s[k]).serial != serial@,
        decreases v@.len() - i,
    {
        assert(s[i as int].serial == v@[i as int].serial@);
        if text::str_eq(v[i].serial.as_str(), serial) {
            return true;
        }
        i = i + 1;
    }
    false
}

proof fn lemma_record_views(m: Map<Seq<char>, SerialRecord>, k: Seq<char>, r: SerialRecord)
    ensures
        record_views(m.insert(k, r)) == record_views(m).insert(k, r@),
        record_views(m.remove(k)) == record_views(m).remove(k),
        record_views(m).dom() == m.dom(),
        record_views(m.remove(k)).insert(k, r@) == record_views(m).insert(k, r@),
{
    assert(record_views(m.insert(k, r)) =~= record_views(m).insert(k, r@));
    assert(record_views(m.remove(k)) =~= record_views(m).remove(k));
    assert(record_views(m).dom() =~= m.dom());
    assert(record_views(m.remove(k)).insert(k, r@) =~= record_views(m).insert(k, r@));
}

impl Default for AnalyticsStore {
    fn default() -> (r: Self)
        ensures
            r@ == StoreView::blank(false),
    {
        AnalyticsStore::new(false)
    }
}

impl AnalyticsStore {
    /// An empty store.
    pub fn new(track_emulated: bool) -> (r: Self)
        ensures
            r@ == StoreView::blank(track_emulated),
    {
        let r = AnalyticsStore {
            by_serial: TextMap::new(),
            dirty: false,
            last_tick_ms: None,
            connected_at_ms: TextMap::new(),
            grace_reconciled: TextSet::new(),
            track_emulated,
        };
        assert(r@ =~= StoreView::blank(track_emulated));
        r
    }

    /// A store with records that were read back; nothing of this run is known yet.
    pub fn from_records(by_serial: TextMap<SerialRecord>, track_emulated: bool) -> (r: Self)
        ensures
            r@ == (StoreView {
                records: record_views(by_serial@),
                ..StoreView::blank(track_emulated)
            }),
    {
        AnalyticsStore {
            by_serial,
            dirty: false,
            last_tick_ms: None,
            connected_at_ms: TextMap::new(),
            grace_reconciled: TextSet::new(),
            track_emulated,
        }
    }

    /// Wipes learned analytics.
    pub fn clear(&mut self)
        ensures
            final(self)@ == (StoreView {
                dirty: true,
                ..StoreView::blank(old(self)@.track_emulated)
            }),
    {
        self.by_serial = TextMap::new();
        self.last_tick_ms = None;
        self.connected_at_ms = TextMap::new();
        self.grace_reconciled = TextSet::new();
        self.dirty = true;
        assert(self@ =~= (StoreView {
            dirty: true,
            ..StoreView::blank(old(self)@.track_emulated)
        }));
    }

    /// Whether a serial is a real pad identity that is learned from.
    pub fn is_storable_serial(serial: &str) -> (r: bool)
        ensures
            r == StoreView::blank(false).tracks(serial@),
    {
        identity::is_storable_serial(serial) && !emulate::is_emulated(serial)
    }

    /// Whether this store learns from a serial.
    pub fn tracks(&self, serial: &str) -> (r: bool)
        ensures
            r == self@.tracks(serial@),
    {
        identity::is_storable_serial(serial) && (self.track_emulated || !emulate::is_emulated(
            serial,
        ))
    }

    /// Whether a connected pad is in its connect grace.
    pub fn in_connect_grace(&self, serial: &str, now: u64) -> (r: bool)
        ensures
            r == (!is_emulated(serial@) && self@.pad(serial@, now).in_grace(now)),
    {
        if emulate::is_emulated(serial) {
            return false;
        }
        match self.connected_at_ms.get(serial) {
            Some(t) => now.saturating_sub(*t) < CONNECT_GRACE_MS,
            None => false,
        }
    }

    /// Takes what is known of a pad out of the store.
    fn take_pad(&mut self, serial: &str, now: u64) -> (r: (Pad, Option<u64>))
        ensures
            r.0@ == old(self)@.pad(serial@, now),
            r.1 == if old(self)@.records.dom().contains(serial@) {
                Some(old(self)@.records[serial@].last_seen)
            } else {
                None
            },
            final(self)@ == (StoreView {
                records: old(self)@.records.remove(serial@),
                ..old(self)@
            }),
    {
        proof {
            assert(record_views(self.by_serial@).dom() =~= self.by_serial@.dom());
            assert(record_views(self.by_serial@.remove(serial@)) =~= record_views(
                self.by_serial@,
            ).remove(serial@));
        }
        let connected_at: Option<u64> = match self.connected_at_ms.get(serial) {
            Some(t) => Some(*t),
            None => None,
        };
        let reconciled = self.grace_reconciled.contains(serial);
        match self.by_serial.remove(serial) {
            Some(record) => {
                let last: u64 = record.last_seen_ms;
                (Pad { record, connected_at, reconciled, dirty: self.dirty }, Some(last))
            },
            None => {
                let record = SerialRecord::seen_at(now);
                (Pad { record, connected_at, reconciled, dirty: true }, None)
            },
        }
    }

    /// Puts what is known of a pad back.
    fn put_pad(&mut self, serial: &str, pad: Pad)
        ensures
            final(self)@ == old(self)@.with_pad(serial@, pad@),
    {
        proof {
            lemma_record_views(self.by_serial@, serial@, pad.record);
        }
        self.dirty = pad.dirty;
        match pad.connected_at {
            Some(t) => {
                self.connected_at_ms.insert(text::own(serial), t);
            },
            None => {
                self.connected_at_ms.remove(serial);
            },
        }
        if pad.reconciled {
            self.grace_reconciled.insert(text::own(serial));
        } else {
            self.grace_reconciled.remove(serial);
        }
        self.by_serial.insert(text::own(serial), pad.record);
    }

    fn read_pad(&mut self, was_present: bool, c: &ControllerStatus, now: u64)
        ensures
            final(self)@ == old(self)@.with_reading(was_present, c@, now),
    {
        let serial = c.serial.as_str();
        if !self.tracks(serial) {
            return;
        }
        let (mut pad, last_seen) = self.take_pad(serial, now);
        let emulated = emulate::is_emulated(serial);
        pad.on_controller(emulated, was_present, last_seen, c.percent, c.state, now);
        let ghost mid = self@;
        self.put_pad(serial, pad);
        assert(mid.records.insert(serial@, pad@.record) =~= old(self)@.records.insert(
            serial@,
            pad@.record,
        ));
    }

    fn heartbeat(&mut self, c: &ControllerStatus, gap: u64, now: u64)
        ensures
            final(self)@ == old(self)@.with_heartbeat(c@, gap, now),
    {
        let serial = c.serial.as_str();
        if !self.tracks(serial) {
            return;
        }
        proof {
            assert(record_views(self.by_serial@).dom() =~= self.by_serial@.dom());
        }
        let progress = match self.by_serial.get(serial) {
            Some(record) => match record.in_progress {
                Some(p) => p,
                None => return,
            },
            None => return,
        };
        if !direction_matches(progress.direction, c.state) || progress.percent != c.percent {
            return;
        }
        match self.by_serial.remove(serial) {
            Some(record) => {
                let mut record = record;
                let ghost before = record@;
                record.in_progress = Some(
                    InProgressBucket {
                        direction: progress.direction,
                        percent: progress.percent,
                        active_ms: progress.active_ms.saturating_add(gap),
                    },
                );
                record.last_seen_ms = now;
                proof {
                    assert(record@ =~= credited(before, gap, now));
                    lemma_record_views(old(self).by_serial@, serial@, record);
                    lemma_record_views(self.by_serial@, serial@, record);
                }
                self.by_serial.insert(text::own(serial), record);
                self.dirty = true;
            },
            None => {},
        }
    }

    fn note_absence(&mut self, c: &ControllerStatus, next: &[ControllerStatus], now: u64)
        ensures
            final(self)@ == old(self)@.with_absence(c@, model::statuses(next@), now),
    {
        let serial = c.serial.as_str();
        proof {
            assert(record_views(self.by_serial@).dom() =~= self.by_serial@.dom());
        }
        if !self.tracks(serial) || has_serial(next, serial) || !self.by_serial.contains_key(
            serial,
        ) {
            return;
        }
        match self.by_serial.remove(serial) {
            Some(record) => {
                let mut record = record;
                record.last_seen_ms = now;
                proof {
                    lemma_record_views(old(self).by_serial@, serial@, record);
                    lemma_record_views(self.by_serial@, serial@, record);
                }
                self.by_serial.insert(text::own(serial), record);
                self.dirty = true;
            },
            None => {},
        }
    }

    fn find_oldest(&self, keep: &TextSet) -> (r: Option<String>)
        ensures
            match r {
                Some(k) => oldest(
                    self@.records,
                    text_map::in_order(self@.records.dom()),
                    keep@,
                ) == Some(k@) && self@.records.dom().contains(k@),
                None => oldest(
                    self@.records,
                    text_map::in_order(self@.records.dom()),
                    keep@,
                ) is None,
            },
    {
        let ghost records = self@.records;
        let ghost keys = text_map::in_order(self.by_serial@.dom());
        assert(records.dom() =~= self.by_serial@.dom());
        let n: usize = self.by_serial.len();
        let mut best: Option<usize> = None;
        let mut i: usize = 0;
        while i < n
            invariant
                i <= n,
                n == keys.len(),
                n == self.by_serial@.dom().len(),
                records == self@.records,
                keys == text_map::in_order(self.by_serial@.dom()),
                match best {
                    Some(b) => b < i && oldest(records, keys.take(i as int), keep@) == Some(
                        keys[b as int],
                    ),
                    None => oldest(records, keys.take(i as int), keep@) is None,
                },
            decreases n - i,
        {
            assert(keys.take(i + 1).drop_last() == keys.take(i as int));
            assert(keys.take(i + 1).last() == keys[i as int]);
            let k = self.by_serial.key_at(i);
            if !keep.contains(k.as_str()) {
                match best {
                    None => {
                        best = Some(i);
                    },
                    Some(b) => {
                        let mine = self.by_serial.value_at(i).last_seen_ms;
                        let theirs = self.by_serial.value_at(b).last_seen_ms;
                        assert(records[keys[i as int]].last_seen == mine);
                        assert(records[keys[b as int]].last_seen == theirs);
                        if mine < theirs {
                            best = Some(i);
                        }
                    },
                }
            }
            i = i + 1;
        }
        assert(keys.take(i as int) == keys);
        match best {
            Some(b) => Some(self.by_serial.key_at(b).clone()),
            None => None,
        }
    }

    /// Drops records that are stale, then the longest unseen ones above the cap. Serials in
    /// `keep` always stay.
    pub fn prune(&mut self, now: u64, keep: &TextSet)
        ensures
            final(self)@ == old(self)@.pruned(now, keep@),
    {
        self.drop_stale(now, keep);
        let ghost target = self@.capped(keep@);
        loop
            invariant
                self@.capped(keep@) == target,
                target == old(self)@.pruned(now, keep@),
            decreases self.by_serial@.dom().len(),
        {
            let n: usize = self.by_serial.len();
            let ghost before = self@;
            proof {
                assert(before.records.dom() =~= self.by_serial@.dom());
            }
            if n <= SERIAL_CAP {
                return;
            }
            match self.find_oldest(keep) {
                Some(k) => {
                    proof {
                        assert(record_views(self.by_serial@.remove(k@)) =~= before.records.remove(
                            k@,
                        ));
                    }
                    self.by_serial.remove(k.as_str());
                    self.dirty = true;
                },
                None => {
                    return;
                },
            }
        }
    }

    fn drop_stale(&mut self, now: u64, keep: &TextSet)
        ensures
            final(self)@ == old(self)@.without_stale(now, keep@),
    {
        let ghost start = self@;
        let ghost keys = text_map::in_order(self.by_serial@.dom());
        let ghost old_map = self.by_serial@;
        let n: usize = self.by_serial.len();
        proof {
            text_map::lemma_in_order_exists(old_map.dom());
            assert(start.records.dom() =~= old_map.dom());
        }
        let mut stale: Vec<String> = Vec::new();
        let mut i: usize = 0;
        while i < n
            invariant
                i <= n,
                n == keys.len(),
                n == self.by_serial@.dom().len(),
                *self == *old(self),
                start == self@,
                keys == text_map::in_order(self.by_serial@.dom()),
                text_map::ascending(keys),
                forall|k: int|
                    0 <= k < stale@.len() ==> start.records.dom().contains((#[trigger] stale@[k])@)
                        && !keep@.contains(stale@[k]@) && !recent(start.records[stale@[k]@], now),
                forall|j: int|
                    0 <= j < i ==> keep@.contains(#[trigger] keys[j]) || recent(
                        start.records[keys[j]],
                        now,
                    ) || text::views(stale@).contains(keys[j]),
            decreases n - i,
        {
            let k = self.by_serial.key_at(i);
            let last = self.by_serial.value_at(i).last_seen_ms;
            assert(start.records[keys[i as int]].last_seen == last);
            let ghost before = text::views(stale@);
            if !keep.contains(k.as_str()) && now.saturating_sub(last) > STALE_SERIAL_MS {
                stale.push(k.clone());
                assert(text::views(stale@)[before.len() as int] == k@);
            }
            assert forall|j: int| 0 <= j < i + 1 implies keep@.contains(#[trigger] keys[j])
                || recent(start.records[keys[j]], now) || text::views(stale@).contains(
                keys[j],
            ) by {
                if j < i && before.contains(keys[j]) {
                    let x = choose|x: int| 0 <= x < before.len() && before[x] == keys[j];
                    assert(text::views(stale@)[x] == keys[j]);
                }
            }
            i = i + 1;
        }
        let ghost gone = text::views(stale@);
        let mut j: usize = 0;
        while j < stale.len()
            invariant
                j <= stale@.len(),
                gone == text::views(stale@),
                self.dirty == old(self).dirty,
                self.last_tick_ms == old(self).last_tick_ms,
                self.connected_at_ms == old(self).connected_at_ms,
                self.grace_reconciled == old(self).grace_reconciled,
                self.track_emulated == old(self).track_emulated,
                forall|k: Seq<char>| #[trigger]
                    self.by_serial@.dom().contains(k) <==> old_map.dom().contains(k)
                        && !gone.take(j as int).contains(k),
                forall|k: Seq<char>|
                    self.by_serial@.dom().contains(k) ==> #[trigger] self.by_serial@[k]
                        == old_map[k],
            decreases stale@.len() - j,
        {
            let ghost before = self.by_serial@;
            self.by_serial.remove(stale[j].as_str());
            proof {
                let a = gone.take(j as int);
                let b = gone.take(j + 1);
                assert(b == a.push(stale@[j as int]@));
                assert forall|k: Seq<char>| #[trigger]
                    self.by_serial@.dom().contains(k) <==> old_map.dom().contains(k)
                        && !b.contains(k) by {
                    assert(before.dom().contains(k) <==> old_map.dom().contains(k) && !a.contains(
                        k,
                    ));
                    if b.contains(k) && k != stale@[j as int]@ {
                        let x = choose|x: int| 0 <= x < b.len() && b[x] == k;
                        assert(a[x] == k);
                    }
                    if a.contains(k) {
                        let x = choose|x: int| 0 <= x < a.len() && a[x] == k;
                        assert(b[x] == k);
                    }
                    assert(b[a.len() as int] == stale@[j as int]@);
                }
            }
            j = j + 1;
        }
        proof {
            assert(gone.take(j as int) == gone);
            let want = start.records.restrict(
                Set::new(|k: Seq<char>| keep@.contains(k) || recent(start.records[k], now)),
            );
            assert forall|k: Seq<char>| record_views(self.by_serial@).dom().contains(k)
                == want.dom().contains(k) by {
                if old_map.dom().contains(k) {
                    assert(keys.to_set().contains(k));
                    let x = choose|x: int| 0 <= x < keys.len() && keys[x] == k;
                    assert(keep@.contains(keys[x]) || recent(start.records[keys[x]], now)
                        || gone.contains(keys[x]));
                    if gone.contains(k) {
                        let y = choose|y: int| 0 <= y < gone.len() && gone[y] == k;
                        assert(start.records.dom().contains(stale@[y]@));
                    }
                }
            }
            assert(record_views(self.by_serial@) =~= want);
            assert(want.dom() =~= self.by_serial@.dom());
        }
        if self.by_serial.len() != n {
            self.dirty = true;
        }
    }

    /// Observes a poll snapshot. When `enabled` is false, does nothing. `keep` names the
    /// serials that are never pruned.
    pub fn observe(
        &mut self,
        previous: &[ControllerStatus],
        next: &[ControllerStatus],
        enabled: bool,
        keep: &TextSet,
        now: u64,
    )
        ensures
            final(self)@ == if enabled {
                old(self)@.observed(
                    model::statuses(previous@),
                    model::statuses(next@),
                    keep@,
                    now,
                )
            } else {
                old(self)@
            },
    {
        if !enabled {
            return;
        }
        let ghost pv = model::statuses(previous@);
        let ghost nv = model::statuses(next@);
        let gap: u64 = match self.last_tick_ms {
            Some(t) => now.saturating_sub(t),
            None => 0,
        };
        self.last_tick_ms = Some(now);
        let ghost s0 = self@;
        if gap > 0 && gap <= HEARTBEAT_MAX_GAP_MS {
            let mut i: usize = 0;
            while i < next.len()
                invariant
                    i <= next@.len(),
                    nv == model::statuses(next@),
                    self@ == s0.with_heartbeats(nv.take(i as int), gap, now),
                decreases next@.len() - i,
            {
                assert(nv.take(i + 1).drop_last() == nv.take(i as int));
                assert(nv.take(i + 1).last() == next@[i as int]@);
                self.heartbeat(&next[i], gap, now);
                i = i + 1;
            }
            assert(nv.take(i as int) == nv);
        }
        let ghost s1 = self@;
        let mut j: usize = 0;
        while j < previous.len()
            invariant
                j <= previous@.len(),
                pv == model::statuses(previous@),
                nv == model::statuses(next@),
                self@ == s1.with_absences(pv.take(j as int), nv, now),
            decreases previous@.len() - j,
        {
            assert(pv.take(j + 1).drop_last() == pv.take(j as int));
            assert(pv.take(j + 1).last() == previous@[j as int]@);
            self.note_absence(&previous[j], next, now);
            j = j + 1;
        }
        assert(pv.take(j as int) == pv);
        let ghost s2 = self@;
        let mut k: usize = 0;
        while k < next.len()
            invariant
                k <= next@.len(),
                pv == model::statuses(previous@),
                nv == model::statuses(next@),
                self@ == s2.with_readings(pv, nv.take(k as int), now),
            decreases next@.len() - k,
        {
            assert(nv.take(k + 1).drop_last() == nv.take(k as int));
            assert(nv.take(k + 1).last() == next@[k as int]@);
            let was_present = has_serial(previous, next[k].serial.as_str());
            self.read_pad(was_present, &next[k], now);
            k = k + 1;
        }
        assert(nv.take(k as int) == nv);
        self.prune(now, keep);
    }
}

// ---------------------------------------------------------------------------
// Estimates
// ---------------------------------------------------------------------------

/// Snapshot of estimates / coverage (durations in milliseconds).
#[derive(Debug, Clone, PartialEq, Eq)]
pub struct ControllerAnalytics {
    pub serial: String,
    pub typical_charge: Option<u64>,
    pub typical_play: Option<u64>,
    pub in_progress: Option<InProgressBucket>,
    pub drain_coverage: Vec<StepCoverage>,
    pub charge_coverage: Vec<StepCoverage>,
}

/// Model of [`ControllerAnalytics`].
#[verifier::ext_equal]
pub struct AnalyticsRow {
    pub serial: Seq<char>,
    pub typical_charge: Option<u64>,
    pub typical_play: Option<u64>,
    pub in_progress: Option<InProgressBucket>,
    pub drain_coverage: Seq<StepCoverage>,
    pub charge_coverage: Seq<StepCoverage>,
}

impl View for ControllerAnalytics {
    type V = AnalyticsRow;

    open spec fn view(&self) -> AnalyticsRow {
        AnalyticsRow {
            serial: self.serial@,
            typical_charge: self.typical_charge,
            typical_play: self.typical_play,
            in_progress: self.in_progress,
            drain_coverage: self.drain_coverage@,
            charge_coverage: self.charge_coverage@,
        }
    }
}

/// Models of a list of rows.
pub open spec fn row_views(v: Seq<ControllerAnalytics>) -> Seq<AnalyticsRow> {
    Seq::new(v.len(), |i: int| v[i]@)
}

/// Expected time for a whole charge or drain.
pub open spec fn typical(r: RecordView, direction: BucketDirection) -> Option<u64> {
    estimate::chain_ms(
        match direction {
            BucketDirection::Drain => r.drain,
            BucketDirection::Charge => r.charge,
        },
        estimate::all_edges(direction),
    )
}

/// Expected time left in a direction at `percent`; nothing when it is zero or unknown.
pub open spec fn eta(r: RecordView, direction: BucketDirection, percent: u8) -> Option<u64> {
    let steps = match direction {
        BucketDirection::Drain => r.drain,
        BucketDirection::Charge => r.charge,
    };
    match estimate::edges_from(direction, percent) {
        None => None,
        Some(path) => match estimate::chain_ms(steps, path) {
            None => None,
            Some(chain) => {
                let left = estimate::remaining_ms(
                    chain,
                    path,
                    steps,
                    r.in_progress,
                    direction,
                    percent,
                );
                if left == 0 {
                    None
                } else {
                    Some(left)
                }
            },
        },
    }
}

/// Row of a pad of which something is known.
pub open spec fn row_of(serial: Seq<char>, r: RecordView) -> AnalyticsRow {
    AnalyticsRow {
        serial,
        typical_charge: typical(r, BucketDirection::Charge),
        typical_play: typical(r, BucketDirection::Drain),
        in_progress: r.in_progress,
        drain_coverage: estimate::coverage(
            r.drain,
            estimate::all_edges(BucketDirection::Drain),
        ),
        charge_coverage: estimate::coverage(
            r.charge,
            estimate::all_edges(BucketDirection::Charge),
        ),
    }
}

/// Rows of the pads among `keys` of which something is known.
pub open spec fn rows(
    records: Map<Seq<char>, RecordView>,
    keys: Seq<Seq<char>>,
) -> Seq<AnalyticsRow>
    decreases keys.len(),
{
    if keys.len() == 0 {
        seq![]
    } else {
        let rest = rows(records, keys.drop_last());
        let r = records[keys.last()];
        if r.drain.len() == 0 && r.charge.len() == 0 && r.in_progress is None {
            rest
        } else {
            rest.push(row_of(keys.last(), r))
        }
    }
}

fn record_eta(record: &SerialRecord, direction: BucketDirection, percent: u8) -> (r: Option<u64>)
    ensures
        r == eta(record@, direction, percent),
{
    let path = match direction {
        BucketDirection::Drain => estimate::drain_edges_from(percent),
        BucketDirection::Charge => estimate::charge_edges_from(percent),
    };
    let path = match path {
        Some(p) => p,
        None => return None,
    };
    let steps: &Vec<StepSample> = match direction {
        BucketDirection::Drain => &record.drain_steps,
        BucketDirection::Charge => &record.charge_steps,
    };
    let chain: u64 = match estimate::speculative_chain_ms(steps, &path) {
        Some(c) => c,
        None => return None,
    };
    let left: u64 = estimate::interpolate_remaining_ms(
        chain,
        &path,
        steps,
        record.in_progress,
        direction,
        percent,
    );
    if left == 0 {
        None
    } else {
        Some(left)
    }
}

fn make_row(serial: &str, record: &SerialRecord) -> (r: ControllerAnalytics)
    ensures
        r@ == row_of(serial@, record@),
{
    let drain = estimate::drain_edges();
    let charge = estimate::charge_edges();
    ControllerAnalytics {
        serial: text::own(serial),
        typical_charge: estimate::speculative_chain_ms(&record.charge_steps, &charge),
        typical_play: estimate::speculative_chain_ms(&record.drain_steps, &drain),
        in_progress: record.in_progress,
        drain_coverage: estimate::coverage_list(&record.drain_steps, &drain),
        charge_coverage: estimate::coverage_list(&record.charge_steps, &charge),
    }
}

/// Time left of one step in the seeded drain chain: eight hours over ten steps (ms).
pub const SEED_DRAIN_STEP_MS: u64 = 2880000;

/// Time of one step in the seeded charge chain: two hours over ten steps (ms).
pub const SEED_CHARGE_STEP_MS: u64 = 720000;

impl AnalyticsStore {
    /// Expected time of a whole charge (ms).
    pub fn typical_charge(&self, serial: &str) -> (r: Option<u64>)
        ensures
            r == if self@.records.dom().contains(serial@) {
                typical(self@.records[serial@], BucketDirection::Charge)
            } else {
                None
            },
    {
        match self.by_serial.get(serial) {
            Some(record) => estimate::speculative_chain_ms(
                &record.charge_steps,
                &estimate::charge_edges(),
            ),
            None => None,
        }
    }

    /// Expected play time of a whole battery (ms).
    pub fn typical_play(&self, serial: &str) -> (r: Option<u64>)
        ensures
            r == if self@.records.dom().contains(serial@) {
                typical(self@.records[serial@], BucketDirection::Drain)
            } else {
                None
            },
    {
        match self.by_serial.get(serial) {
            Some(record) => estimate::speculative_chain_ms(
                &record.drain_steps,
                &estimate::drain_edges(),
            ),
            None => None,
        }
    }

    /// The open window of a pad.
    pub fn in_progress(&self, serial: &str) -> (r: Option<InProgressBucket>)
        ensures
            r == if self@.records.dom().contains(serial@) {
                self@.records[serial@].in_progress
            } else {
                None
            },
    {
        match self.by_serial.get(serial) {
            Some(record) => record.in_progress,
            None => None,
        }
    }

    /// Rows of every pad of which something is known, sorted by serial.
    pub fn panel_rows(&self) -> (r: Vec<ControllerAnalytics>)
        ensures
            row_views(r@) == rows(self@.records, text_map::in_order(self@.records.dom())),
    {
        let ghost records = self@.records;
        let ghost keys = text_map::in_order(self.by_serial@.dom());
        assert(records.dom() =~= self.by_serial@.dom());
        let n: usize = self.by_serial.len();
        let mut out: Vec<ControllerAnalytics> = Vec::new();
        let mut i: usize = 0;
        assert(row_views(out@) =~= rows(records, keys.take(0)));
        while i < n
            invariant
                i <= n,
                n == keys.len(),
                n == self.by_serial@.dom().len(),
                records == self@.records,
                keys == text_map::in_order(self.by_serial@.dom()),
                row_views(out@) == rows(records, keys.take(i as int)),
            decreases n - i,
        {
            assert(keys.take(i + 1).drop_last() == keys.take(i as int));
            assert(keys.take(i + 1).last() == keys[i as int]);
            let record = self.by_serial.value_at(i);
            assert(records[keys[i as int]] == record@);
            let ghost before = row_views(out@);
            if record.drain_steps.len() > 0 || record.charge_steps.len() > 0
                || record.in_progress.is_some() {
                let row = make_row(self.by_serial.key_at(i).as_str(), record);
                out.push(row);
                assert(row_views(out@) =~= before.push(row@));
            }
            i = i + 1;
        }
        assert(keys.take(i as int) == keys);
        out
    }

    /// Remaining-time hint of a connected pad.
    pub fn eta_for(&self, controller: &ControllerStatus) -> (r: Option<EtaHint>)
        ensures
            r == live_hint(self@.records, controller@),
    {
        match controller.state {
            PowerState::Discharging => self.eta_play_at(
                controller.serial.as_str(),
                controller.percent,
            ),
            PowerState::Charging => self.eta_charge_at(
                controller.serial.as_str(),
                controller.percent,
            ),
            _ => None,
        }
    }

    /// Remaining play time at `percent` (used for live drain and disconnected last-known %).
    pub fn eta_play_at(&self, serial: &str, percent: u8) -> (r: Option<EtaHint>)
        ensures
            r == idle_hint(self@.records, serial@, percent),
    {
        match self.by_serial.get(serial) {
            Some(record) => match record_eta(record, BucketDirection::Drain, percent) {
                Some(ms) => Some(EtaHint::PlayLeft(ms)),
                None => None,
            },
            None => None,
        }
    }

    fn eta_charge_at(&self, serial: &str, percent: u8) -> (r: Option<EtaHint>)
        ensures
            r == if self@.records.dom().contains(serial@) {
                hint_charge(eta(self@.records[serial@], BucketDirection::Charge, percent))
            } else {
                None
            },
    {
        match self.by_serial.get(serial) {
            Some(record) => match record_eta(record, BucketDirection::Charge, percent) {
                Some(ms) => Some(EtaHint::ChargeToFull(ms)),
                None => None,
            },
            None => None,
        }
    }

    /// Developer helper: seeds full drain/charge step chains.
    pub fn dev_seed_estimates(&mut self, serial: &str, now: u64)
        ensures
            final(self)@ == old(self)@.dev_seeded(serial@, now),
    {
        if !self.tracks(serial) {
            return;
        }
        let mut record = SerialRecord::seen_at(now);
        push_all(&mut record.drain_steps, &estimate::drain_edges(), SEED_DRAIN_STEP_MS);
        push_all(&mut record.charge_steps, &estimate::charge_edges(), SEED_CHARGE_STEP_MS);
        proof {
            lemma_record_views(self.by_serial@, serial@, record);
        }
        self.by_serial.insert(text::own(serial), record);
        self.dirty = true;
    }

    /// Developer helper: credits active time on the in-progress bucket.
    pub fn dev_credit_active(&mut self, serial: &str, extra_ms: u64)
        ensures
            final(self)@ == old(self)@.dev_credited(serial@, extra_ms),
    {
        proof {
            assert(record_views(self.by_serial@).dom() =~= self.by_serial@.dom());
        }
        let progress = match self.by_serial.get(serial) {
            Some(record) => match record.in_progress {
                Some(p) => p,
                None => return,
            },
            None => return,
        };
        match self.by_serial.remove(serial) {
            Some(record) => {
                let mut record = record;
                let ghost before = record@;
                record.in_progress = Some(
                    InProgressBucket {
                        direction: progress.direction,
                        percent: progress.percent,
                        active_ms: progress.active_ms.saturating_add(extra_ms),
                    },
                );
                proof {
                    assert(record@ =~= credited(before, extra_ms, before.last_seen));
                    lemma_record_views(old(self).by_serial@, serial@, record);
                    lemma_record_views(self.by_serial@, serial@, record);
                }
                self.by_serial.insert(text::own(serial), record);
                self.dirty = true;
            },
            None => {},
        }
    }
}

impl StoreView {
    /// The store with full step chains seeded for a pad.
    pub open spec fn dev_seeded(self, serial: Seq<char>, now: u64) -> StoreView {
        if self.tracks(serial) {
            StoreView {
                records: self.records.insert(
                    serial,
                    RecordView {
                        last_seen: now,
                        drain: with_samples(
                            seq![],
                            estimate::all_edges(BucketDirection::Drain),
                            SEED_DRAIN_STEP_MS,
                        ),
                        charge: with_samples(
                            seq![],
                            estimate::all_edges(BucketDirection::Charge),
                            SEED_CHARGE_STEP_MS,
                        ),
                        in_progress: None,
                    },
                ),
                dirty: true,
                ..self
            }
        } else {
            self
        }
    }

    /// The store with active time credited to a pad's open window.
    pub open spec fn dev_credited(self, serial: Seq<char>, extra_ms: u64) -> StoreView {
        if self.records.dom().contains(serial) && self.records[serial].in_progress is Some {
            StoreView {
                records: self.records.insert(
                    serial,
                    credited(self.records[serial], extra_ms, self.records[serial].last_seen),
                ),
                dirty: true,
                ..self
            }
        } else {
            self
        }
    }
}

/// Remaining play time of a pad at `percent`.
pub open spec fn idle_hint(
    records: Map<Seq<char>, RecordView>,
    serial: Seq<char>,
    percent: u8,
) -> Option<EtaHint> {
    if records.dom().contains(serial) {
        hint_play(eta(records[serial], BucketDirection::Drain, percent))
    } else {
        None
    }
}

/// Remaining-time hint of a connected pad: play time while it drains, charge time while it
/// charges.
pub open spec fn live_hint(
    records: Map<Seq<char>, RecordView>,
    s: model::StatusView,
) -> Option<EtaHint> {
    match s.state {
        PowerState::Discharging => idle_hint(records, s.serial, s.percent),
        PowerState::Charging => if records.dom().contains(s.serial) {
            hint_charge(eta(records[s.serial], BucketDirection::Charge, s.percent))
        } else {
            None
        },
        _ => None,
    }
}

/// Hint for remaining play time.
pub open spec fn hint_play(ms: Option<u64>) -> Option<EtaHint> {
    match ms {
        Some(ms) => Some(EtaHint::PlayLeft(ms)),
        None => None,
    }
}

/// Hint for remaining charge time.
pub open spec fn hint_charge(ms: Option<u64>) -> Option<EtaHint> {
    match ms {
        Some(ms) => Some(EtaHint::ChargeToFull(ms)),
        None => None,
    }
}

// ---------------------------------------------------------------------------
// Laws of the store
// ---------------------------------------------------------------------------

proof fn lemma_oldest(
    records: Map<Seq<char>, RecordView>,
    keys: Seq<Seq<char>>,
    keep: Set<Seq<char>>,
)
    ensures
        match oldest(records, keys, keep) {
            Some(k) => keys.contains(k) && !keep.contains(k),
            None => forall|i: int| 0 <= i < keys.len() ==> keep.contains(#[trigger] keys[i]),
        },
    decreases keys.len(),
{
    if keys.len() > 0 {
        let init = keys.drop_last();
        lemma_oldest(records, init, keep);
        match oldest(records, keys, keep) {
            Some(k) => {
                if k == keys.last() {
                    assert(keys[keys.len() - 1] == k);
                } else {
                    assert(init.contains(k));
                    let i = choose|i: int| 0 <= i < init.len() && init[i] == k;
                    assert(keys[i] == k);
                }
            },
            None => {
                assert forall|i: int| 0 <= i < keys.len() implies keep.contains(
                    #[trigger] keys[i],
                ) by {
                    if i < init.len() {
                        assert(init[i] == keys[i]);
                    }
                }
            },
        }
    }
}

/// Every kept serial of `before` is still in `after`.
pub open spec fn keeps_serials(
    before: Map<Seq<char>, RecordView>,
    after: Map<Seq<char>, RecordView>,
    keep: Set<Seq<char>>,
) -> bool {
    forall|k: Seq<char>|
        before.dom().contains(k) && keep.contains(k) ==> #[trigger] after.dom().contains(k)
}

/// Every serial is kept.
pub open spec fn all_kept(records: Map<Seq<char>, RecordView>, keep: Set<Seq<char>>) -> bool {
    forall|k: Seq<char>| #[trigger] records.dom().contains(k) ==> keep.contains(k)
}

proof fn lemma_capped(store: StoreView, keep: Set<Seq<char>>)
    requires
        store.records.dom().finite(),
    ensures
        store.capped(keep).records.dom().finite(),
        store.capped(keep).records.submap_of(store.records),
        keeps_serials(store.records, store.capped(keep).records, keep),
        store.capped(keep).records.dom().len() <= SERIAL_CAP || all_kept(
            store.capped(keep).records,
            keep,
        ),
    decreases store.records.dom().len(),
{
    if store.records.dom().len() > SERIAL_CAP {
        let keys = text_map::in_order(store.records.dom());
        text_map::lemma_in_order_exists(store.records.dom());
        lemma_oldest(store.records, keys, keep);
        match oldest(store.records, keys, keep) {
            Some(k) => {
                assert(keys.to_set().contains(k));
                let next = StoreView { records: store.records.remove(k), dirty: true, ..store };
                lemma_capped(next, keep);
                let end = next.capped(keep);
                assert forall|x: Seq<char>|
                    store.records.dom().contains(x) && keep.contains(
                        x,
                    ) implies #[trigger] end.records.dom().contains(x) by {
                    assert(next.records.dom().contains(x));
                }
            },
            None => {
                assert forall|x: Seq<char>| #[trigger]
                    store.records.dom().contains(x) implies keep.contains(x) by {
                    assert(keys.to_set().contains(x));
                    let i = choose|i: int| 0 <= i < keys.len() && keys[i] == x;
                    assert(keep.contains(keys[i]));
                }
            },
        }
    }
}

/// Pruning only drops records; kept serials always stay, and at most [`SERIAL_CAP`] records
/// remain unless every one that remains is kept.
pub proof fn law_prune(store: StoreView, now: u64, keep: Set<Seq<char>>)
    requires
        store.records.dom().finite(),
    ensures
        store.pruned(now, keep).records.submap_of(store.records),
        keeps_serials(store.records, store.pruned(now, keep).records, keep),
        store.pruned(now, keep).records.dom().len() <= SERIAL_CAP || all_kept(
            store.pruned(now, keep).records,
            keep,
        ),
        forall|k: Seq<char>| #[trigger]
            store.pruned(now, keep).records.dom().contains(k) ==> keep.contains(k) || recent(
                store.records[k],
                now,
            ),
{
    let mid = store.without_stale(now, keep);
    assert(mid.records.dom().subset_of(store.records.dom()));
    vstd::set_lib::lemma_len_subset(mid.records.dom(), store.records.dom());
    lemma_capped(mid, keep);
    let next = store.pruned(now, keep);
    assert forall|k: Seq<char>| next.records.dom().contains(k) implies store.records.dom().contains(
        k,
    ) && #[trigger] next.records[k] == store.records[k] by {
        assert(next.records[k] == mid.records[k]);
    }
    assert forall|k: Seq<char>| store.records.dom().contains(k) && keep.contains(
        k,
    ) implies #[trigger] next.records.dom().contains(k) by {
        assert(mid.records.dom().contains(k));
    }
    assert forall|k: Seq<char>| #[trigger] next.records.dom().contains(k) implies keep.contains(k)
        || recent(store.records[k], now) by {
        assert(mid.records.dom().contains(k));
    }
}

/// A reading of one pad leaves every other pad as it was, and a serial that is not learned
/// from changes nothing.
pub proof fn law_readings_are_local(
    store: StoreView,
    was_present: bool,
    s: model::StatusView,
    now: u64,
    other: Seq<char>,
)
    requires
        other != s.serial,
    ensures
        ({
            let next = store.with_reading(was_present, s, now);
            &&& next.records.dom().contains(other) == store.records.dom().contains(other)
            &&& store.records.dom().contains(other) ==> next.records[other] == store.records[other]
            &&& next.connected.dom().contains(other) == store.connected.dom().contains(other)
            &&& next.reconciled.contains(other) == store.reconciled.contains(other)
            &&& !store.tracks(s.serial) ==> next == store
        }),
{
}

} // verus!
