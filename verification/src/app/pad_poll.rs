//! What a look at the pads' input is for, and what is said when it goes wrong.
use crate::app::polling;
use crate::controller::input::PadSample;
use crate::controller::worker;
use crate::controller::worker::NavReading;
use crate::gesture;
use crate::gesture::{format_gesture, GestureControl, GestureDetector, GestureRecorder};
use crate::text;
use crate::text_map::TextMap;
use vstd::prelude::*;

verus! {

/// A gap between two looks that counts as a stall.
pub const PAD_POLL_STALL_MS: u64 = 80;

/// Age at which a snapshot counts as stale.
pub const SNAPSHOT_STALE_MS: u64 = 100;

/// Time after which an open start screen that takes no input is reported.
pub const START_NAV_NOT_READY_MS: u64 = 200;

/// What was already said of the start screen's input.
#[derive(Debug, Clone, Copy, PartialEq, Eq, Structural)]
pub struct NavDiag {
    pub last_poll_ms: Option<u64>,
    pub opened_at_ms: Option<u64>,
    /// Since when there is no snapshot.
    pub missing_since_ms: Option<u64>,
    pub missing_warned: bool,
    pub stale_warned: bool,
    pub not_ready_warned: bool,
    pub unarmed_warned: bool,
}

/// What is known when pads are looked at.
#[derive(Debug, Clone, Copy, PartialEq, Eq, Structural)]
pub struct PadPollFacts {
    pub now_ms: u64,
    pub start_open: bool,
    /// The start screen is shown and takes input.
    pub nav_ready: bool,
    /// The settings show the pad-input page.
    pub pad_input_page: bool,
    pub start_screen_enabled: bool,
    pub no_pads: bool,
    pub recording: bool,
    /// Pads in the snapshot.
    pub readings: usize,
    /// Age of the snapshot.
    pub age_ms: u64,
}

/// Something to say of the start screen's input.
#[derive(Debug, Clone, Copy, PartialEq, Eq, Structural)]
pub enum PadWarning {
    Stall { gap_ms: u64 },
    NotReady { for_ms: u64 },
    Missing { age_ms: u64 },
    Restored { gap_ms: u64 },
    Stale { age_ms: u64 },
}

/// What a look is for.
#[derive(Debug, Clone, Copy, PartialEq, Eq, Structural)]
pub enum PadRoute {
    Nothing,
    /// A gesture is being recorded.
    Record,
    /// The start screen takes the input.
    Navigate,
    /// The gesture that opens the start screen is looked for.
    Reopen,
}

/// Milliseconds since `then`.
pub open spec fn age(then: u64, now: u64) -> u64 {
    polling::elapsed(then, now) as u64
}

/// Whether pads are listened to for the start screen.
pub open spec fn listening(f: PadPollFacts) -> bool {
    f.start_screen_enabled && (!f.no_pads || f.recording)
}

/// What a look is for.
pub open spec fn route(f: PadPollFacts) -> PadRoute {
    if !listening(f) {
        PadRoute::Nothing
    } else if f.recording {
        PadRoute::Record
    } else if f.start_open {
        if f.nav_ready && f.readings > 0 {
            PadRoute::Navigate
        } else {
            PadRoute::Nothing
        }
    } else {
        PadRoute::Reopen
    }
}

/// Whether an open start screen takes no input for too long.
pub open spec fn not_ready(d: NavDiag, f: PadPollFacts) -> bool {
    f.start_open && !f.nav_ready && !d.not_ready_warned && (d.opened_at_ms matches Some(t) && age(
        t,
        f.now_ms,
    ) >= START_NAV_NOT_READY_MS)
}

/// Whether the start screen would take input if there was any.
pub open spec fn wants_input(f: PadPollFacts) -> bool {
    listening(f) && !f.recording && f.start_open && f.nav_ready
}

/// What is said.
pub open spec fn warnings(d: NavDiag, f: PadPollFacts) -> Seq<PadWarning> {
    (match d.last_poll_ms {
        Some(t) => if f.start_open && age(t, f.now_ms) >= PAD_POLL_STALL_MS {
            seq![PadWarning::Stall { gap_ms: age(t, f.now_ms) }]
        } else {
            seq![]
        },
        None => seq![],
    }) + (if not_ready(d, f) {
        seq![PadWarning::NotReady { for_ms: age(d.opened_at_ms->0, f.now_ms) }]
    } else {
        seq![]
    }) + (if wants_input(f) && f.readings == 0 && !d.missing_warned && !f.no_pads {
        seq![PadWarning::Missing { age_ms: f.age_ms }]
    } else {
        seq![]
    }) + (match d.missing_since_ms {
        Some(t) => if wants_input(f) && f.readings > 0 {
            seq![PadWarning::Restored { gap_ms: age(t, f.now_ms) }]
        } else {
            seq![]
        },
        None => seq![],
    }) + (if wants_input(f) && f.readings > 0 && f.age_ms >= SNAPSHOT_STALE_MS
        && !d.stale_warned {
        seq![PadWarning::Stale { age_ms: f.age_ms }]
    } else {
        seq![]
    })
}

/// What was said, afterwards.
pub open spec fn diag_after(d: NavDiag, f: PadPollFacts) -> NavDiag {
    let here = wants_input(f) && f.readings > 0;
    let gone = wants_input(f) && f.readings == 0;
    NavDiag {
        last_poll_ms: if f.start_open {
            Some(f.now_ms)
        } else {
            d.last_poll_ms
        },
        opened_at_ms: d.opened_at_ms,
        missing_since_ms: if here {
            None
        } else if gone && d.missing_since_ms is None {
            Some(f.now_ms)
        } else {
            d.missing_since_ms
        },
        missing_warned: if here {
            false
        } else {
            d.missing_warned || (gone && !f.no_pads)
        },
        stale_warned: if here {
            f.age_ms >= SNAPSHOT_STALE_MS
        } else {
            d.stale_warned
        },
        not_ready_warned: d.not_ready_warned || not_ready(d, f),
        unarmed_warned: d.unarmed_warned,
    }
}

/// What a look at the pads leads to.
#[derive(Debug)]
pub struct PadPoll {
    pub warnings: Vec<PadWarning>,
    /// The pad-input page shows what was read.
    pub show_panel: bool,
    pub route: PadRoute,
}

impl NavDiag {
    /// Nothing was said.
    pub open spec fn blank() -> NavDiag {
        NavDiag {
            last_poll_ms: None,
            opened_at_ms: None,
            missing_since_ms: None,
            missing_warned: false,
            stale_warned: false,
            not_ready_warned: false,
            unarmed_warned: false,
        }
    }

    /// Nothing was said.
    pub fn new() -> (r: Self)
        ensures
            r == Self::blank(),
    {
        NavDiag {
            last_poll_ms: None,
            opened_at_ms: None,
            missing_since_ms: None,
            missing_warned: false,
            stale_warned: false,
            not_ready_warned: false,
            unarmed_warned: false,
        }
    }

    /// A look at the pads.
    pub fn on_pad_poll(&mut self, f: PadPollFacts) -> (r: PadPoll)
        ensures
            *final(self) == diag_after(*old(self), f),
            r.warnings@ == warnings(*old(self), f),
            r.show_panel == f.pad_input_page,
            r.route == route(f),
    {
        let ghost d = *self;
        let mut said: Vec<PadWarning> = Vec::new();
        if f.start_open {
            if let Some(t) = self.last_poll_ms {
                let gap: u64 = f.now_ms.saturating_sub(t);
                if gap >= PAD_POLL_STALL_MS {
                    said.push(PadWarning::Stall { gap_ms: gap });
                }
            }
            self.last_poll_ms = Some(f.now_ms);
            if !f.nav_ready && !self.not_ready_warned {
                if let Some(t) = self.opened_at_ms {
                    let waited: u64 = f.now_ms.saturating_sub(t);
                    if waited >= START_NAV_NOT_READY_MS {
                        said.push(PadWarning::NotReady { for_ms: waited });
                        self.not_ready_warned = true;
                    }
                }
            }
        }
        let listens = f.start_screen_enabled && (!f.no_pads || f.recording);
        let mut route = PadRoute::Nothing;
        if listens {
            if f.recording {
                route = PadRoute::Record;
            } else if !f.start_open {
                route = PadRoute::Reopen;
            } else if f.nav_ready {
                if f.readings == 0 {
                    if self.missing_since_ms.is_none() {
                        self.missing_since_ms = Some(f.now_ms);
                    }
                    if !self.missing_warned && !f.no_pads {
                        said.push(PadWarning::Missing { age_ms: f.age_ms });
                        self.missing_warned = true;
                    }
                } else {
                    if let Some(t) = self.missing_since_ms {
                        said.push(PadWarning::Restored { gap_ms: f.now_ms.saturating_sub(t) });
                        self.missing_since_ms = None;
                    }
                    if f.age_ms >= SNAPSHOT_STALE_MS {
                        if !self.stale_warned {
                            said.push(PadWarning::Stale { age_ms: f.age_ms });
                            self.stale_warned = true;
                        }
                    } else {
                        self.stale_warned = false;
                    }
                    self.missing_warned = false;
                    route = PadRoute::Navigate;
                }
            }
        }
        assert(said@ =~= warnings(d, f));
        PadPoll { warnings: said, show_panel: f.pad_input_page, route }
    }

    /// Whether to say that no pad may navigate yet, because all must be let go first.
    pub open spec fn waits(self, armed: usize, unarmed: usize) -> bool {
        unarmed > 0 && armed == 0 && !self.unarmed_warned
    }

    /// What was said, once it is known how many pads may navigate.
    pub open spec fn armed(self, armed: usize, unarmed: usize) -> NavDiag {
        NavDiag {
            unarmed_warned: if armed > 0 {
                false
            } else {
                self.unarmed_warned || unarmed > 0
            },
            ..self
        }
    }

    /// Takes note of how many pads may navigate; whether to say that none may yet, because all
    /// must be let go first.
    pub fn note_arming(&mut self, armed: usize, unarmed: usize) -> (r: bool)
        ensures
            r == old(self).waits(armed, unarmed),
            *final(self) == old(self).armed(armed, unarmed),
    {
        if unarmed > 0 && armed == 0 {
            let first = !self.unarmed_warned;
            self.unarmed_warned = true;
            first
        } else {
            if armed > 0 {
                self.unarmed_warned = false;
            }
            false
        }
    }
}

// ---------------------------------------------------------------------------
// Gestures
// ---------------------------------------------------------------------------

/// What a look while a gesture is recorded comes to.
#[derive(Debug)]
pub enum RecordStep {
    Nothing,
    /// No pad could be read: this is said once.
    Unreadable,
    /// The gesture is recorded and saved.
    Recorded(Vec<GestureControl>),
}

/// Feeds a gesture recording with the pad it is latched to; `None` when no pad could be read.
pub fn on_gesture_record(
    recorder: &mut GestureRecorder,
    warned: &mut bool,
    sample: Option<&PadSample>,
    no_pads: bool,
) -> (r: RecordStep)
    ensures
        match sample {
            None => {
                &&& *final(recorder) == *old(recorder)
                &&& *final(warned) == (*old(warned) || !no_pads)
                &&& r is Unreadable <==> !*old(warned) && !no_pads
                &&& !(r is Recorded)
            },
            Some(s) => {
                let none = Set::<GestureControl>::empty();
                let held = s.held@;
                let was = *old(recorder);
                let now = *final(recorder);
                &&& !*final(warned)
                &&& if was.active && held != none {
                    r is Nothing && now.active && now.saw_input && now.peak@
                        == gesture::larger_hold(was.peak@, held)
                } else if was.active && was.saw_input && was.peak@ != none {
                    &&& r matches RecordStep::Recorded(v) && v@ == gesture::members(was.peak@)
                    &&& !now.active && !now.saw_input && now.peak@ == none
                } else {
                    r is Nothing && now == was
                }
            },
        },
{
    match sample {
        None => {
            if !*warned && !no_pads {
                *warned = true;
                RecordStep::Unreadable
            } else {
                RecordStep::Nothing
            }
        },
        Some(s) => {
            *warned = false;
            match recorder.update(&s.held) {
                Some(v) => RecordStep::Recorded(v),
                None => RecordStep::Nothing,
            }
        },
    }
}

/// A detector for each pad, so that controls of two pads do not make up one gesture.
#[derive(Debug)]
pub struct GestureDetectorBank {
    pub by_pad: TextMap<GestureDetector>,
}

/// Whether a pad's detector is armed.
pub open spec fn armed_at(m: Map<Seq<char>, GestureDetector>, id: Seq<char>) -> bool {
    m.dom().contains(id) && m[id].armed
}

/// Detectors once the first `n` readings were taken.
pub open spec fn bank_after(
    m: Map<Seq<char>, GestureDetector>,
    required: Seq<GestureControl>,
    readings: Seq<(Seq<char>, PadSample)>,
) -> Map<Seq<char>, GestureDetector>
    decreases readings.len(),
{
    if readings.len() == 0 {
        m
    } else {
        bank_after(m, required, readings.drop_last()).insert(
            readings.last().0,
            GestureDetector {
                armed: GestureDetector::armed_by(required, readings.last().1.held@),
            },
        )
    }
}

/// Whether any reading fires its pad's detector.
pub open spec fn bank_fires(
    m: Map<Seq<char>, GestureDetector>,
    required: Seq<GestureControl>,
    readings: Seq<(Seq<char>, PadSample)>,
) -> bool
    decreases readings.len(),
{
    if readings.len() == 0 {
        false
    } else {
        let before = bank_after(m, required, readings.drop_last());
        bank_fires(m, required, readings.drop_last()) || GestureDetector::fires(
            armed_at(before, readings.last().0),
            required,
            readings.last().1.held@,
        )
    }
}

impl GestureDetectorBank {
    /// No pad was seen.
    pub fn new() -> (r: Self)
        ensures
            r.by_pad@ == Map::<Seq<char>, GestureDetector>::empty(),
    {
        GestureDetectorBank { by_pad: TextMap::new() }
    }

    /// Forgets what every pad holds.
    pub fn reset(&mut self)
        ensures
            final(self).by_pad@ == Map::<Seq<char>, GestureDetector>::empty(),
    {
        self.by_pad = TextMap::new();
    }

    /// Takes what every pad holds; whether a pad newly holds the whole gesture.
    pub fn update(&mut self, required: &[GestureControl], readings: &[NavReading]) -> (r: bool)
        ensures
            final(self).by_pad@ == bank_after(
                old(self).by_pad@,
                required@,
                worker::reading_pairs(readings@),
            ),
            r == bank_fires(old(self).by_pad@, required@, worker::reading_pairs(readings@)),
    {
        let ghost m = self.by_pad@;
        let ghost q = worker::reading_pairs(readings@);
        let mut fired = false;
        let mut i: usize = 0;
        assert(q.take(0) =~= Seq::<(Seq<char>, PadSample)>::empty());
        while i < readings.len()
            invariant
                i <= readings@.len(),
                q == worker::reading_pairs(readings@),
                self.by_pad@ == bank_after(m, required@, q.take(i as int)),
                fired == bank_fires(m, required@, q.take(i as int)),
            decreases readings@.len() - i,
        {
            assert(q.take(i + 1).drop_last() =~= q.take(i as int));
            assert(q.take(i + 1).last() == (readings@[i as int].id@, readings@[i as int].sample));
            let id = readings[i].id.as_str();
            let mut detector = match self.by_pad.get(id) {
                Some(d) => *d,
                None => GestureDetector::new(),
            };
            if detector.update(required, &readings[i].sample.held) {
                fired = true;
            }
            self.by_pad.insert(text::own(id), detector);
            i = i + 1;
        }
        assert(q.take(i as int) =~= q);
        fired
    }
}

/// Looks for the gesture that opens the start screen; whether it opens.
pub fn on_reopen_gesture(
    bank: &mut GestureDetectorBank,
    enabled: bool,
    required: &[GestureControl],
    readings: &[NavReading],
) -> (r: bool)
    ensures
        ({
            let q = worker::reading_pairs(readings@);
            let looks = readings@.len() > 0 && enabled && required@.len() > 0;
            &&& r == (looks && bank_fires(old(bank).by_pad@, required@, q))
            &&& final(bank).by_pad@ == (if looks {
                bank_after(old(bank).by_pad@, required@, q)
            } else {
                old(bank).by_pad@
            })
        }),
{
    if readings.len() == 0 || !enabled || required.len() == 0 {
        return false;
    }
    bank.update(required, readings)
}

// ---------------------------------------------------------------------------
// Pad-input page
// ---------------------------------------------------------------------------

/// What the pad-input page shows.
#[derive(Debug, Clone, PartialEq, Eq)]
pub struct PadInputPanel {
    pub has_sample: bool,
    pub cross: bool,
    pub circle: bool,
    pub dpad_up: bool,
    pub dpad_down: bool,
    /// Held controls, in words.
    pub held: String,
}

/// What the pad-input page shows of a pad, or of none.
pub fn pad_input_panel(sample: Option<&PadSample>) -> (r: PadInputPanel)
    ensures
        match sample {
            Some(s) => {
                &&& r.has_sample
                &&& r.cross == s.cross
                &&& r.circle == s.circle
                &&& r.dpad_up == s.dpad_up
                &&& r.dpad_down == s.dpad_down
                &&& r.held@ == gesture::gesture_label(gesture::members(s.held@))
            },
            None => {
                &&& !r.has_sample && !r.cross && !r.circle && !r.dpad_up && !r.dpad_down
                &&& r.held@.len() == 0
            },
        },
{
    match sample {
        Some(s) => {
            let held = s.held.to_vec();
            PadInputPanel {
                has_sample: true,
                cross: s.cross,
                circle: s.circle,
                dpad_up: s.dpad_up,
                dpad_down: s.dpad_down,
                held: format_gesture(held.as_slice()),
            }
        },
        None => PadInputPanel {
            has_sample: false,
            cross: false,
            circle: false,
            dpad_up: false,
            dpad_down: false,
            held: String::new(),
        },
    }
}

// ---------------------------------------------------------------------------
// Laws
// ---------------------------------------------------------------------------

/// Each fault of the start screen's input is said once, until it is over.
pub proof fn law_faults_are_said_once(d: NavDiag, f: PadPollFacts, g: PadPollFacts)
    requires
        wants_input(f),
        wants_input(g),
        f.readings == 0,
        g.readings == 0,
        !f.no_pads,
    ensures
        forall|i: int|
            0 <= i < warnings(diag_after(d, f), g).len() ==> !(#[trigger] warnings(
                diag_after(d, f),
                g,
            )[i] is Missing),
{
}

/// The start screen takes pad input only when it is shown, ready, and no gesture is recorded.
pub proof fn law_input_reaches_a_ready_screen(f: PadPollFacts)
    requires
        route(f) == PadRoute::Navigate,
    ensures
        f.start_open,
        f.nav_ready,
        !f.recording,
        f.readings > 0,
{
}

/// Controls that two pads hold do not make up one gesture: one pad must hold it all.
pub proof fn law_one_pad_makes_the_gesture(
    m: Map<Seq<char>, GestureDetector>,
    required: Seq<GestureControl>,
    readings: Seq<(Seq<char>, PadSample)>,
)
    requires
        bank_fires(m, required, readings),
    ensures
        exists|i: int|
            0 <= i < readings.len() && gesture::all_held(required, (#[trigger] readings[i]).1.held@),
    decreases readings.len(),
{
    if readings.len() > 0 {
        let t = readings.drop_last();
        if bank_fires(m, required, t) {
            law_one_pad_makes_the_gesture(m, required, t);
            let i = choose|i: int|
                0 <= i < t.len() && gesture::all_held(required, (#[trigger] t[i]).1.held@);
            assert(readings[i] == t[i]);
        } else {
            assert(gesture::all_held(required, readings[readings.len() - 1].1.held@));
        }
    }
}

} // verus!
