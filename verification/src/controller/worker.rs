//! Decisions of the thread that owns all pad I/O.
//!
//! The thread runs commands, the identify sequence and input sampling. Lightbar writes
//! never use a cached input handle: such a handle can accept a write without updating the
//! bar and so poison its claim. A write therefore drops the cached handle first, and a pad
//! that had one is claimed afresh.
use crate::controller::identity;
use crate::controller::identity::{Bus, HidNode};
use crate::controller::input::PadSample;
use crate::controller::lightbar;
use crate::controller::lightbar::{
    identify_flash_color, LightbarState, Rgb, IDENTIFY_FLASH_MS,
};
use crate::text;
use crate::text_map::TextSet;
use vstd::prelude::*;
use vstd::string::StringExecFns;

verus! {

/// Shortest pause between two lines about frequent commands (ms).
pub const PULSE_SAMPLE_LOG_INTERVAL_MS: u64 = 1000;

/// From here on a frequent command counts as slow (ms).
pub const SLOW_CMD_LOG_MS: u64 = 20;

/// Background input wake cadence (ms).
pub const BACKGROUND_POLL_MS: u64 = 50;

/// Active input wake cadence while navigation or recording needs low latency (ms).
pub const ACTIVE_POLL_MS: u64 = 16;

/// While waiting for the next identify flash, still sample this often (ms).
pub const IDENTIFY_SAMPLE_POLL_MS: u64 = 16;

/// Writes of one identify sequence.
pub const IDENTIFY_WRITES: u32 = 10;

/// Work handed to the thread.
#[derive(Debug)]
pub enum HidCmd {
    Poll { previously: Vec<String> },
    Identify { serial: String, normal: Rgb },
    PowerOff { serial: String },
    SetRgb { serial: String, color: Rgb },
    Shutdown,
}

/// What the thread is to do next.
#[derive(Debug, PartialEq, Eq)]
pub enum WorkerAction {
    /// Close every cached handle.
    DropAll,
    /// Close the cached handle of one pad.
    DropSerial(String),
    /// Publish an empty input snapshot.
    PublishNothing,
    /// Open the pad, set its lightbar, close it.
    Write { serial: String, color: Rgb },
    PowerOff(String),
    Poll(Vec<String>),
    /// Read one pad into the snapshot.
    SampleSerial(String),
    /// Read every pad into the snapshot.
    SampleAll,
    Stop,
}

/// Model of [`WorkerAction`].
pub enum ActionView {
    DropAll,
    DropSerial(Seq<char>),
    PublishNothing,
    Write(Seq<char>, Rgb),
    PowerOff(Seq<char>),
    Poll(Seq<Seq<char>>),
    SampleSerial(Seq<char>),
    SampleAll,
    Stop,
}

impl View for WorkerAction {
    type V = ActionView;

    open spec fn view(&self) -> ActionView {
        match *self {
            WorkerAction::DropAll => ActionView::DropAll,
            WorkerAction::DropSerial(s) => ActionView::DropSerial(s@),
            WorkerAction::PublishNothing => ActionView::PublishNothing,
            WorkerAction::Write { serial, color } => ActionView::Write(serial@, color),
            WorkerAction::PowerOff(s) => ActionView::PowerOff(s@),
            WorkerAction::Poll(v) => ActionView::Poll(text::views(v@)),
            WorkerAction::SampleSerial(s) => ActionView::SampleSerial(s@),
            WorkerAction::SampleAll => ActionView::SampleAll,
            WorkerAction::Stop => ActionView::Stop,
        }
    }
}

/// Models of a list of actions.
pub open spec fn actions(v: Seq<WorkerAction>) -> Seq<ActionView> {
    Seq::new(v.len(), |i: int| v[i]@)
}

/// An identify sequence under way.
#[derive(Debug)]
pub struct IdentifySession {
    pub serial: String,
    pub normal: Rgb,
    pub next_write: u32,
    pub wake_at: u64,
    pub flashes: u32,
}

/// Model of [`IdentifySession`].
#[verifier::ext_equal]
pub struct SessionView {
    pub serial: Seq<char>,
    pub normal: Rgb,
    pub next_write: int,
    pub wake_at: int,
    pub flashes: int,
}

impl View for IdentifySession {
    type V = SessionView;

    open spec fn view(&self) -> SessionView {
        SessionView {
            serial: self.serial@,
            normal: self.normal,
            next_write: self.next_write as int,
            wake_at: self.wake_at as int,
            flashes: self.flashes as int,
        }
    }
}

/// State of the thread.
#[derive(Debug)]
pub struct Worker {
    pub session: Option<IdentifySession>,
    pub identifying: bool,
    pub cached: TextSet,
    pub lightbar: LightbarState,
}

/// Model of [`Worker`].
#[verifier::ext_equal]
pub struct WorkerView {
    pub session: Option<SessionView>,
    pub identifying: bool,
    pub cached: Set<Seq<char>>,
    pub claimed: Set<Seq<char>>,
    pub automatic: bool,
    pub seq: u8,
}

impl View for Worker {
    type V = WorkerView;

    open spec fn view(&self) -> WorkerView {
        WorkerView {
            session: match self.session {
                Some(s) => Some(s@),
                None => None,
            },
            identifying: self.identifying,
            cached: self.cached@,
            claimed: self.lightbar.claimed@,
            automatic: self.lightbar.automatic,
            seq: self.lightbar.seq,
        }
    }
}

/// A moment `IDENTIFY_FLASH_MS` after `now`.
pub open spec fn flash_later(now: u64) -> int {
    if now + IDENTIFY_FLASH_MS <= u64::MAX {
        now + IDENTIFY_FLASH_MS
    } else {
        u64::MAX as int
    }
}

impl WorkerView {
    /// Writes never run past the end of the sequence.
    pub open spec fn wf(self) -> bool {
        self.session matches Some(s) ==> 0 <= s.next_write <= s.flashes <= IDENTIFY_WRITES
            && s.flashes <= s.next_write + 1
    }

    /// Whether a write of the sequence was asked for and not reported back yet.
    pub open spec fn write_pending(self) -> bool {
        self.session matches Some(s) && s.flashes == s.next_write + 1
    }

    /// The handle of a pad closed.
    pub open spec fn without_handle(self, serial: Seq<char>) -> WorkerView {
        WorkerView { cached: self.cached.remove(lightbar::claim_key(serial)), ..self }
    }

    /// A pad about to be written: its handle closed, its claim dropped if it had one.
    pub open spec fn exclusive(self, serial: Seq<char>) -> WorkerView {
        let key = lightbar::claim_key(serial);
        WorkerView {
            cached: self.cached.remove(key),
            claimed: if self.cached.contains(key) {
                self.claimed.remove(key)
            } else {
                self.claimed
            },
            ..self
        }
    }

    /// The identify sequence given up.
    pub open spec fn aborted(self) -> WorkerView {
        match self.session {
            Some(s) => WorkerView {
                session: None,
                identifying: false,
                ..self.without_handle(s.serial)
            },
            None => self,
        }
    }

    /// What giving the sequence up asks for.
    pub open spec fn abort_actions(self) -> Seq<ActionView> {
        match self.session {
            Some(s) => seq![ActionView::DropSerial(s.serial)],
            None => seq![],
        }
    }

    /// Whether the sequence runs on `serial`.
    pub open spec fn identifies(self, serial: Seq<char>) -> bool {
        self.session matches Some(s) && s.serial == serial
    }

    /// Every handle closed.
    pub open spec fn no_handles(self) -> WorkerView {
        WorkerView { cached: Set::empty(), ..self }
    }

    /// The sequence on `serial` about to make its first write.
    pub open spec fn begun(self, serial: Seq<char>, normal: Rgb, now: u64) -> WorkerView {
        WorkerView {
            session: Some(
                SessionView { serial, normal, next_write: 0, wake_at: now as int, flashes: 1 },
            ),
            identifying: true,
            ..self.aborted().exclusive(serial)
        }
    }

    /// Worker behind a command, and what it does for it.
    pub open spec fn handled(self, cmd: HidCmd, now: u64) -> (WorkerView, Seq<ActionView>) {
        match cmd {
            HidCmd::Shutdown => (
                self.aborted().no_handles(),
                self.abort_actions() + seq![
                    ActionView::DropAll,
                    ActionView::PublishNothing,
                    ActionView::Stop,
                ],
            ),
            HidCmd::Identify { serial, normal } => (
                self.begun(serial@, normal, now),
                self.abort_actions() + seq![
                    ActionView::Write(serial@, lightbar::flash_color(0, normal)),
                ],
            ),
            HidCmd::PowerOff { serial } => {
                let ends = self.identifies(serial@);
                (
                    if ends {
                        self.aborted().no_handles()
                    } else {
                        self.no_handles()
                    },
                    (if ends {
                        self.abort_actions()
                    } else {
                        seq![]
                    }) + seq![
                        ActionView::DropAll,
                        ActionView::PublishNothing,
                        ActionView::PowerOff(serial@),
                    ],
                )
            },
            HidCmd::SetRgb { serial, color } => if self.identifies(serial@) {
                (self, seq![])
            } else {
                (self.exclusive(serial@), seq![ActionView::Write(serial@, color)])
            },
            HidCmd::Poll { previously } => (
                self.no_handles(),
                seq![
                    ActionView::DropAll,
                    ActionView::PublishNothing,
                    ActionView::Poll(text::views(previously@)),
                ],
            ),
        }
    }

    /// Worker behind a look at the identify that runs, and what is due.
    pub open spec fn advanced(self, now: u64) -> (WorkerView, Seq<ActionView>) {
        match self.session {
            Some(s) => if now < s.wake_at {
                (self, seq![])
            } else if s.next_write >= IDENTIFY_WRITES {
                (
                    WorkerView { session: None, identifying: false, ..self },
                    seq![ActionView::SampleAll],
                )
            } else {
                (
                    WorkerView {
                        session: Some(SessionView { flashes: s.flashes + 1, ..s }),
                        ..self.exclusive(s.serial)
                    },
                    seq![
                        ActionView::Write(s.serial, lightbar::flash_color(s.next_write, s.normal)),
                    ],
                )
            },
            None => (self, seq![]),
        }
    }

    /// Worker behind a write of the identify, and what follows it.
    pub open spec fn written(self, ok: bool, now: u64) -> (WorkerView, Seq<ActionView>) {
        match self.session {
            Some(s) => if ok {
                (
                    WorkerView {
                        session: Some(
                            SessionView {
                                next_write: s.next_write + 1,
                                wake_at: flash_later(now),
                                ..s
                            },
                        ),
                        ..self
                    },
                    seq![ActionView::SampleSerial(s.serial)],
                )
            } else {
                (self.aborted(), self.abort_actions())
            },
            None => (self, seq![]),
        }
    }

    /// How long the worker waits for a command.
    pub open spec fn waits(self, now: u64, input_hot: bool) -> int {
        match self.session {
            Some(s) => {
                let left = s.wake_at - now;
                if left < 1 {
                    1
                } else if left > IDENTIFY_SAMPLE_POLL_MS {
                    IDENTIFY_SAMPLE_POLL_MS as int
                } else {
                    left
                }
            },
            None => if input_hot {
                ACTIVE_POLL_MS as int
            } else {
                BACKGROUND_POLL_MS as int
            },
        }
    }
}

impl Worker {
    /// A thread that has opened nothing; claims of earlier runs are not trusted.
    pub fn new() -> (r: Self)
        ensures
            r@ == (WorkerView {
                session: None,
                identifying: false,
                cached: Set::empty(),
                claimed: Set::empty(),
                automatic: true,
                seq: 0,
            }),
    {
        Worker {
            session: None,
            identifying: false,
            cached: TextSet::new(),
            lightbar: LightbarState::new(),
        }
    }

    fn drop_serial(&mut self, serial: &str)
        ensures
            final(self)@ == old(self)@.without_handle(serial@),
            final(self).session == old(self).session,
    {
        let key = identity::normalize_identity(serial);
        self.cached.remove(key.as_str());
    }

    fn make_exclusive(&mut self, serial: &str)
        ensures
            final(self)@ == old(self)@.exclusive(serial@),
            final(self).session == old(self).session,
    {
        let key = identity::normalize_identity(serial);
        if self.cached.remove(key.as_str()) {
            lightbar::prepare_connect_apply(&mut self.lightbar, serial);
        }
    }

    fn abort_identify(&mut self) -> (r: Vec<WorkerAction>)
        ensures
            final(self)@ == old(self)@.aborted(),
            actions(r@) == old(self)@.abort_actions(),
    {
        let mut out: Vec<WorkerAction> = Vec::new();
        let ended = self.session.take();
        match ended {
            Some(s) => {
                self.drop_serial(s.serial.as_str());
                self.identifying = false;
                out.push(WorkerAction::DropSerial(s.serial));
            },
            None => {},
        }
        assert(actions(out@) =~= old(self)@.abort_actions());
        out
    }

    /// Notes that a pad's input handle is open.
    pub fn opened(&mut self, serial: &str)
        ensures
            final(self)@ == (WorkerView {
                cached: old(self)@.cached.insert(lightbar::claim_key(serial@)),
                ..old(self)@
            }),
    {
        self.cached.insert(identity::normalize_identity(serial));
    }

    /// Runs a command.
    pub fn handle_cmd(&mut self, cmd: HidCmd, now: u64) -> (r: Vec<WorkerAction>)
        requires
            old(self)@.wf(),
        ensures
            final(self)@.wf(),
            (final(self)@, actions(r@)) == old(self)@.handled(cmd, now),
    {
        match cmd {
            HidCmd::Shutdown => {
                let mut out = self.abort_identify();
                let ghost head = actions(out@);
                self.cached.clear();
                out.push(WorkerAction::DropAll);
                out.push(WorkerAction::PublishNothing);
                out.push(WorkerAction::Stop);
                assert(actions(out@) =~= head + seq![
                    ActionView::DropAll,
                    ActionView::PublishNothing,
                    ActionView::Stop,
                ]);
                out
            },
            HidCmd::Identify { serial, normal } => {
                let mut out = self.abort_identify();
                let ghost head = actions(out@);
                self.identifying = true;
                self.make_exclusive(serial.as_str());
                let color = identify_flash_color(0, normal);
                out.push(WorkerAction::Write { serial: serial.clone(), color });
                self.session = Some(
                    IdentifySession { serial, normal, next_write: 0, wake_at: now, flashes: 1 },
                );
                assert(actions(out@) =~= head + seq![ActionView::Write(serial@, color)]);
                out
            },
            HidCmd::PowerOff { serial } => {
                let ends = match &self.session {
                    Some(s) => text::str_eq(s.serial.as_str(), serial.as_str()),
                    None => false,
                };
                let mut out: Vec<WorkerAction> = if ends {
                    self.abort_identify()
                } else {
                    Vec::new()
                };
                let ghost head = actions(out@);
                assert(!ends ==> head =~= Seq::<ActionView>::empty());
                self.cached.clear();
                out.push(WorkerAction::DropAll);
                out.push(WorkerAction::PublishNothing);
                out.push(WorkerAction::PowerOff(serial));
                assert(actions(out@) =~= head + seq![
                    ActionView::DropAll,
                    ActionView::PublishNothing,
                    ActionView::PowerOff(serial@),
                ]);
                out
            },
            HidCmd::SetRgb { serial, color } => {
                let mut out: Vec<WorkerAction> = Vec::new();
                let busy = match &self.session {
                    Some(s) => text::str_eq(s.serial.as_str(), serial.as_str()),
                    None => false,
                };
                if busy {
                    assert(actions(out@) =~= Seq::<ActionView>::empty());
                    return out;
                }
                self.make_exclusive(serial.as_str());
                out.push(WorkerAction::Write { serial, color });
                assert(actions(out@) =~= seq![ActionView::Write(serial@, color)]);
                out
            },
            HidCmd::Poll { previously } => {
                let mut out: Vec<WorkerAction> = Vec::new();
                self.cached.clear();
                out.push(WorkerAction::DropAll);
                out.push(WorkerAction::PublishNothing);
                out.push(WorkerAction::Poll(previously));
                assert(actions(out@) =~= seq![
                    ActionView::DropAll,
                    ActionView::PublishNothing,
                    ActionView::Poll(text::views(previously@)),
                ]);
                out
            },
        }
    }

    /// Moves the identify sequence on when its next flash is due.
    pub fn advance_identify(&mut self, now: u64) -> (r: Vec<WorkerAction>)
        requires
            old(self)@.wf(),
            !old(self)@.write_pending(),
        ensures
            final(self)@.wf(),
            (final(self)@, actions(r@)) == old(self)@.advanced(now),
    {
        let mut out: Vec<WorkerAction> = Vec::new();
        let (serial, color, flashes, next_write, wake_at, normal) = match &self.session {
            Some(s) => {
                if now < s.wake_at {
                    assert(actions(out@) =~= Seq::<ActionView>::empty());
                    return out;
                }
                if s.next_write >= IDENTIFY_WRITES {
                    self.session = None;
                    self.identifying = false;
                    out.push(WorkerAction::SampleAll);
                    assert(actions(out@) =~= seq![ActionView::SampleAll]);
                    return out;
                }
                (
                    s.serial.clone(),
                    identify_flash_color(s.next_write, s.normal),
                    s.flashes,
                    s.next_write,
                    s.wake_at,
                    s.normal,
                )
            },
            None => {
                assert(actions(out@) =~= Seq::<ActionView>::empty());
                return out;
            },
        };
        self.make_exclusive(serial.as_str());
        out.push(WorkerAction::Write { serial: serial.clone(), color });
        assert(actions(out@) =~= seq![ActionView::Write(serial@, color)]);
        self.session = Some(
            IdentifySession { serial, normal, next_write, wake_at, flashes: flashes + 1 },
        );
        out
    }

    /// Takes in how the write of the identify sequence went.
    pub fn identify_written(&mut self, ok: bool, now: u64) -> (r: Vec<WorkerAction>)
        requires
            old(self)@.wf(),
            old(self)@.session is Some ==> old(self)@.write_pending(),
        ensures
            final(self)@.wf(),
            (final(self)@, actions(r@)) == old(self)@.written(ok, now),
    {
        if !ok {
            return self.abort_identify();
        }
        let mut out: Vec<WorkerAction> = Vec::new();
        let session = self.session.take();
        match session {
            Some(s) => {
                out.push(WorkerAction::SampleSerial(s.serial.clone()));
                self.session = Some(
                    IdentifySession {
                        serial: s.serial,
                        normal: s.normal,
                        next_write: s.next_write + 1,
                        wake_at: now.saturating_add(IDENTIFY_FLASH_MS),
                        flashes: s.flashes,
                    },
                );
                assert(actions(out@) =~= seq![ActionView::SampleSerial(s.serial@)]);
            },
            None => {
                assert(actions(out@) =~= Seq::<ActionView>::empty());
            },
        }
        out
    }

    /// How long to wait for the next command (ms).
    pub fn wait_ms(&self, now: u64, input_hot: bool) -> (r: u64)
        ensures
            r == self@.waits(now, input_hot),
    {
        match &self.session {
            Some(s) => {
                let left: u64 = s.wake_at.saturating_sub(now);
                if left < 1 {
                    1
                } else if left > IDENTIFY_SAMPLE_POLL_MS {
                    IDENTIFY_SAMPLE_POLL_MS
                } else {
                    left
                }
            },
            None => if input_hot {
                ACTIVE_POLL_MS
            } else {
                BACKGROUND_POLL_MS
            },
        }
    }

    /// What to do when no command came in time: sample the pad that is identified, or all.
    pub fn on_idle(&self) -> (r: WorkerAction)
        ensures
            r@ == match self@.session {
                Some(s) => ActionView::SampleSerial(s.serial),
                None => ActionView::SampleAll,
            },
    {
        match &self.session {
            Some(s) => WorkerAction::SampleSerial(s.serial.clone()),
            None => WorkerAction::SampleAll,
        }
    }
}

/// Starts an identify unless one runs; true when it may be enqueued.
pub fn claim_identify(identifying: &mut bool) -> (r: bool)
    ensures
        r == !*old(identifying),
        *final(identifying),
{
    let free = !*identifying;
    *identifying = true;
    free
}

/// An identify sequence makes its writes in turn: after a write that succeeded, the next
/// due step writes the next color, and once all were made the sequence ends.
pub proof fn law_identify_alternates(w: WorkerView, s: SessionView, now: u64)
    requires
        w.wf(),
        w.session == Some(s),
        w.write_pending(),
    ensures
        ({
            let next = SessionView { next_write: s.next_write + 1, wake_at: flash_later(now), ..s };
            let written = WorkerView { session: Some(next), ..w };
            &&& written.wf()
            &&& !written.write_pending()
            &&& lightbar::flash_color(next.next_write, s.normal) == if s.next_write % 2 == 0 {
                s.normal
            } else {
                Rgb::white_color()
            }
            &&& next.wake_at >= now
        }),
{
}

// ---------------------------------------------------------------------------
// Opening pads
// ---------------------------------------------------------------------------

/// Whether a node may be skipped before it is opened: its own serial is already cached.
pub fn already_open(cached: &TextSet, node: &HidNode) -> (r: bool)
    ensures
        r == (node.serial matches Some(s) && s@.len() > 0 && cached@.contains(
            lightbar::claim_key(s@),
        )),
{
    match &node.serial {
        Some(s) => {
            if s.as_str().is_empty() {
                return false;
            }
            let key = identity::normalize_identity(s.as_str());
            cached.contains(key.as_str())
        },
        None => false,
    }
}

/// Whether the node at `i` is the one to keep open for its pad.
pub open spec fn keeps_open(
    cached: Set<Seq<char>>,
    ids: Seq<Seq<char>>,
    usb: Seq<bool>,
    i: int,
) -> bool {
    !cached.contains(ids[i]) && lightbar::chosen_node(ids, usb, ids[i], ids.len()) == Some(i)
}

/// Which of the opened nodes stay open: one per pad that has no handle yet, USB preferred.
pub fn nodes_to_keep(cached: &TextSet, ids: &[String], buses: &[Bus]) -> (r: Vec<bool>)
    requires
        ids@.len() == buses@.len(),
    ensures
        r@.len() == ids@.len(),
        forall|i: int|
            0 <= i < ids@.len() ==> #[trigger] r@[i] == keeps_open(
                cached@,
                text::views(ids@),
                lightbar::usb_flags(buses@),
                i,
            ),
{
    let ghost iv = text::views(ids@);
    let ghost uv = lightbar::usb_flags(buses@);
    let mut r: Vec<bool> = Vec::new();
    let mut i: usize = 0;
    while i < ids.len()
        invariant
            i <= ids@.len(),
            ids@.len() == buses@.len(),
            iv == text::views(ids@),
            uv == lightbar::usb_flags(buses@),
            r@.len() == i,
            forall|k: int| 0 <= k < i ==> #[trigger] r@[k] == keeps_open(cached@, iv, uv, k),
        decreases ids@.len() - i,
    {
        let id = ids[i].as_str();
        assert(iv[i as int] == id@);
        let keep = if cached.contains(id) {
            false
        } else {
            match lightbar::choose_node(ids, buses, id) {
                Some(b) => b == i,
                None => false,
            }
        };
        r.push(keep);
        i = i + 1;
    }
    r
}

/// No pad is opened twice: two nodes that stay open belong to different pads.
pub proof fn law_one_handle_per_pad(
    cached: Set<Seq<char>>,
    ids: Seq<Seq<char>>,
    usb: Seq<bool>,
    i: int,
    j: int,
)
    requires
        0 <= i < ids.len(),
        0 <= j < ids.len(),
        i != j,
        keeps_open(cached, ids, usb, i),
        keeps_open(cached, ids, usb, j),
    ensures
        ids[i] != ids[j],
{
}

// ---------------------------------------------------------------------------
// Input snapshot
// ---------------------------------------------------------------------------

/// Latest controls of one pad.
#[derive(Debug, Clone, PartialEq, Eq)]
pub struct NavReading {
    pub id: String,
    pub sample: PadSample,
}

/// A snapshot as pairs of pad and controls.
pub open spec fn reading_pairs(v: Seq<NavReading>) -> Seq<(Seq<char>, PadSample)> {
    Seq::new(v.len(), |i: int| (v[i].id@, v[i].sample))
}

/// A snapshot with one pad's controls replaced, or added when the pad is new.
pub open spec fn with_reading(
    q: Seq<(Seq<char>, PadSample)>,
    id: Seq<char>,
    sample: PadSample,
) -> Seq<(Seq<char>, PadSample)>
    decreases q.len(),
{
    if q.len() == 0 {
        seq![(id, sample)]
    } else if q[0].0 == id {
        q.update(0, (id, sample))
    } else {
        seq![q[0]] + with_reading(q.drop_first(), id, sample)
    }
}

/// Puts one pad's controls into a snapshot.
pub fn put_reading(snapshot: &mut Vec<NavReading>, reading: NavReading)
    ensures
        reading_pairs(final(snapshot)@) == with_reading(
            reading_pairs(old(snapshot)@),
            reading.id@,
            reading.sample,
        ),
{
    let ghost q = reading_pairs(snapshot@);
    let ghost id = reading.id@;
    let ghost x = (reading.id@, reading.sample);
    let mut i: usize = 0;
    assert(q.skip(0) == q);
    assert(q.take(0) + with_reading(q, id, x.1) =~= with_reading(q, id, x.1));
    while i < snapshot.len()
        invariant
            i <= snapshot@.len(),
            q == reading_pairs(snapshot@),
            snapshot@ == old(snapshot)@,
            id == reading.id@,
            x == (reading.id@, reading.sample),
            with_reading(q, id, x.1) == q.take(i as int) + with_reading(
                q.skip(i as int),
                id,
                x.1,
            ),
        decreases snapshot@.len() - i,
    {
        let ghost rest = q.skip(i as int);
        assert(rest[0] == (snapshot@[i as int].id@, snapshot@[i as int].sample));
        if text::str_eq(snapshot[i].id.as_str(), reading.id.as_str()) {
            snapshot.set(i, reading);
            assert(reading_pairs(snapshot@) =~= q.update(i as int, x));
            assert(q.take(i as int) + rest.update(0, x) =~= q.update(i as int, x));
            return;
        }
        assert(rest.drop_first() == q.skip(i + 1));
        assert(q.take(i as int) + (seq![rest[0]] + with_reading(q.skip(i + 1), id, x.1)) =~= q.take(
            i + 1,
        ) + with_reading(q.skip(i + 1), id, x.1));
        i = i + 1;
    }
    snapshot.push(reading);
    assert(q.take(i as int) == q);
    assert(reading_pairs(snapshot@) =~= q + seq![x]);
}

// ---------------------------------------------------------------------------
// Timing lines
// ---------------------------------------------------------------------------

/// Time spent per phase of pad I/O (ms).
#[derive(Debug, Clone, Copy, PartialEq, Eq, Structural)]
pub struct HidPhaseTiming {
    pub enumerate_ms: u64,
    pub open_ms: u64,
    pub io_ms: u64,
}

/// Sum that stays at the largest number.
pub open spec fn capped_sum(a: u64, b: u64) -> u64 {
    if a + b > u64::MAX {
        u64::MAX
    } else {
        (a + b) as u64
    }
}

impl HidPhaseTiming {
    /// Adds the phases of another operation.
    pub fn add_assign(&mut self, other: HidPhaseTiming)
        ensures
            final(self).enumerate_ms == capped_sum(old(self).enumerate_ms, other.enumerate_ms),
            final(self).open_ms == capped_sum(old(self).open_ms, other.open_ms),
            final(self).io_ms == capped_sum(old(self).io_ms, other.io_ms),
    {
        self.enumerate_ms = self.enumerate_ms.saturating_add(other.enumerate_ms);
        self.open_ms = self.open_ms.saturating_add(other.open_ms);
        self.io_ms = self.io_ms.saturating_add(other.io_ms);
    }
}

/// Whether a command is logged: always, or when it was slow, or when the last line about
/// frequent commands is old enough.
pub fn should_log(always: bool, total_ms: u64, since_last_ms: u64) -> (r: bool)
    ensures
        r == (always || total_ms >= SLOW_CMD_LOG_MS || since_last_ms
            >= PULSE_SAMPLE_LOG_INTERVAL_MS),
{
    always || total_ms >= SLOW_CMD_LOG_MS || since_last_ms >= PULSE_SAMPLE_LOG_INTERVAL_MS
}

/// Line about a command.
pub fn log_line(cmd: &str, flashes: Option<u32>, timing: &HidPhaseTiming, total_ms: u64) -> (r:
    String)
    ensures
        r@ == "hid-worker: cmd="@ + cmd@ + (match flashes {
            Some(n) => " flashes="@ + text::dec(n as nat),
            None => seq![],
        }) + " enumerate_ms="@ + text::dec(timing.enumerate_ms as nat) + " open_ms="@ + text::dec(
            timing.open_ms as nat,
        ) + " io_ms="@ + text::dec(timing.io_ms as nat) + " total_ms="@ + text::dec(
            total_ms as nat,
        ),
{
    let mut m = text::cat2("hid-worker: cmd=", cmd);
    let ghost head = m@;
    match flashes {
        Some(n) => {
            m.append(" flashes=");
            text::push_dec(&mut m, n as u64);
            assert(m@ =~= head + (" flashes="@ + text::dec(n as nat)));
        },
        None => {
            assert(m@ =~= head + Seq::<char>::empty());
        },
    }
    m.append(" enumerate_ms=");
    text::push_dec(&mut m, timing.enumerate_ms);
    m.append(" open_ms=");
    text::push_dec(&mut m, timing.open_ms);
    m.append(" io_ms=");
    text::push_dec(&mut m, timing.io_ms);
    m.append(" total_ms=");
    text::push_dec(&mut m, total_ms);
    m
}

} // verus!
