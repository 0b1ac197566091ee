//! When pads are scanned and polled, and which timers run.
use crate::controller::poll::{
    BATTERY_INTERVAL_MS, LIVENESS_INTERVAL_MS, PRESENCE_INTERVAL_EMPTY_MS, PRESENCE_INTERVAL_MS,
    UNREAD_RETRY_INTERVAL_MS,
};
use crate::text;
use vstd::prelude::*;

verus! {

/// Poll rate while pad input is live.
pub const PAD_POLL_ACTIVE_MS: u64 = 4;

/// Animation tick.
pub const UI_TICK_MS: u64 = 16;

/// Wait after the last color edit before it is saved and written.
pub const SPECTRUM_DEBOUNCE_MS: u64 = 150;

/// What is known of the last scan and poll.
#[derive(Debug)]
pub struct Polling {
    /// Device paths of the last presence scan.
    pub last_discovered: Vec<String>,
    pub last_battery_poll_ms: u64,
    /// A poll is running.
    pub refreshing: bool,
}

/// Model of [`Polling`].
#[verifier::ext_equal]
pub struct PollingView {
    pub last_discovered: Seq<Seq<char>>,
    pub last_battery_poll_ms: u64,
    pub refreshing: bool,
}

impl View for Polling {
    type V = PollingView;

    open spec fn view(&self) -> PollingView {
        PollingView {
            last_discovered: text::views(self.last_discovered@),
            last_battery_poll_ms: self.last_battery_poll_ms,
            refreshing: self.refreshing,
        }
    }
}

/// What is known from elsewhere at a tick.
#[derive(Debug, Clone, Copy, PartialEq, Eq, Structural)]
pub struct TickFacts {
    pub now_ms: u64,
    /// Developer pads stand in for real ones.
    pub emulating: bool,
    /// A pad is being identified.
    pub identifying: bool,
    /// No pad is shown.
    pub no_pads: bool,
    pub start_screen_enabled: bool,
}

/// What a tick comes to.
#[derive(Debug, Clone, Copy, PartialEq, Eq, Structural)]
pub enum TickAction {
    Nothing,
    /// Every device is gone: claims are dropped, and shown pads with them.
    Vanished,
    /// Pads are polled.
    Refresh,
}

/// Time since `then`.
pub open spec fn elapsed(then: u64, now: u64) -> int {
    if now >= then {
        now - then
    } else {
        0
    }
}

/// Whether a tick leaves everything alone.
pub open spec fn tick_rests(p: PollingView, f: TickFacts) -> bool {
    f.emulating || f.identifying || p.refreshing
}

/// Whether a poll is due: membership changed, the battery or (with pads shown) the liveness
/// interval passed, or listed devices could not be read yet.
pub open spec fn poll_due(p: PollingView, discovered: Seq<Seq<char>>, f: TickFacts) -> bool {
    let age = elapsed(p.last_battery_poll_ms, f.now_ms);
    ||| discovered != p.last_discovered
    ||| age >= BATTERY_INTERVAL_MS
    ||| !f.no_pads && age >= LIVENESS_INTERVAL_MS
    ||| discovered.len() > 0 && f.no_pads && age >= (if f.start_screen_enabled {
        PRESENCE_INTERVAL_EMPTY_MS
    } else {
        UNREAD_RETRY_INTERVAL_MS
    })
}

/// Whether every device is gone since the last scan.
pub open spec fn all_gone(p: PollingView, discovered: Seq<Seq<char>>) -> bool {
    discovered != p.last_discovered && discovered.len() == 0
}

/// What a tick comes to.
pub open spec fn tick_action(
    p: PollingView,
    discovered: Seq<Seq<char>>,
    f: TickFacts,
) -> TickAction {
    if tick_rests(p, f) {
        TickAction::Nothing
    } else if all_gone(p, discovered) {
        TickAction::Vanished
    } else if poll_due(p, discovered, f) {
        TickAction::Refresh
    } else {
        TickAction::Nothing
    }
}

/// State after a tick.
pub open spec fn after_tick(
    p: PollingView,
    discovered: Seq<Seq<char>>,
    f: TickFacts,
) -> PollingView {
    if tick_rests(p, f) {
        p
    } else {
        PollingView {
            last_discovered: discovered,
            last_battery_poll_ms: if all_gone(p, discovered) {
                f.now_ms
            } else {
                p.last_battery_poll_ms
            },
            ..p
        }
    }
}

fn same_texts(a: &[String], b: &[String]) -> (r: bool)
    ensures
        r == (text::views(a@) == text::views(b@)),
{
    let ghost av = text::views(a@);
    let ghost bv = text::views(b@);
    if a.len() != b.len() {
        assert(av.len() != bv.len());
        return false;
    }
    let mut i: usize = 0;
    while i < a.len()
        invariant
            i <= a@.len(),
            a@.len() == b@.len(),
            av == text::views(a@),
            bv == text::views(b@),
            forall|k: int| 0 <= k < i ==> #[trigger] av[k] == bv[k],
        decreases a@.len() - i,
    {
        assert(av[i as int] == a@[i as int]@ && bv[i as int] == b@[i as int]@);
        if !text::str_eq(a[i].as_str(), b[i].as_str()) {
            return false;
        }
        i = i + 1;
    }
    assert(av =~= bv);
    true
}

impl Polling {
    /// State before the first tick.
    pub fn new(discovered: Vec<String>, now_ms: u64) -> (r: Self)
        ensures
            r@ == (PollingView {
                last_discovered: text::views(discovered@),
                last_battery_poll_ms: now_ms,
                refreshing: false,
            }),
    {
        Polling { last_discovered: discovered, last_battery_poll_ms: now_ms, refreshing: false }
    }

    /// A presence tick, with the devices that are listed now.
    pub fn on_tick(&mut self, discovered: Vec<String>, f: TickFacts) -> (r: TickAction)
        ensures
            final(self)@ == after_tick(old(self)@, text::views(discovered@), f),
            r == tick_action(old(self)@, text::views(discovered@), f),
    {
        if f.emulating || f.identifying || self.refreshing {
            return TickAction::Nothing;
        }
        let changed = !same_texts(discovered.as_slice(), self.last_discovered.as_slice());
        self.last_discovered = discovered;
        let listed = self.last_discovered.len() > 0;
        if changed && !listed {
            self.last_battery_poll_ms = f.now_ms;
            return TickAction::Vanished;
        }
        let age: u64 = f.now_ms.saturating_sub(self.last_battery_poll_ms);
        let unread_after: u64 = if f.start_screen_enabled {
            PRESENCE_INTERVAL_EMPTY_MS
        } else {
            UNREAD_RETRY_INTERVAL_MS
        };
        let due = changed || age >= BATTERY_INTERVAL_MS || (!f.no_pads && age
            >= LIVENESS_INTERVAL_MS) || (listed && f.no_pads && age >= unread_after);
        if due {
            TickAction::Refresh
        } else {
            TickAction::Nothing
        }
    }

    /// Asks for a poll; whether one starts. Only one runs at a time.
    pub fn request_refresh(&mut self, emulating: bool, identifying: bool) -> (r: bool)
        ensures
            r == (!emulating && !identifying && !old(self).refreshing),
            final(self)@ == (PollingView { refreshing: old(self).refreshing || r, ..old(self)@ }),
    {
        if emulating || identifying || self.refreshing {
            return false;
        }
        self.refreshing = true;
        true
    }

    /// A poll came back; whether its pads are taken in.
    pub fn on_poll_result(&mut self, succeeded: bool, emulating: bool, now_ms: u64) -> (r: bool)
        ensures
            r == (succeeded && !emulating),
            final(self)@ == (PollingView {
                refreshing: false,
                last_battery_poll_ms: now_ms,
                ..old(self)@
            }),
    {
        self.refreshing = false;
        self.last_battery_poll_ms = now_ms;
        succeeded && !emulating
    }
}

// ---------------------------------------------------------------------------
// Timers
// ---------------------------------------------------------------------------

/// What the timers depend on.
#[derive(Debug, Clone, Copy, PartialEq, Eq, Structural)]
pub struct TimerFacts {
    pub start_screen_enabled: bool,
    pub no_pads: bool,
    /// Generation of the toast on screen.
    pub toast: Option<u64>,
    /// An identify flash is drawn.
    pub identify_flash: bool,
    pub configure_open: bool,
    /// The settings show the pad-input page.
    pub pad_input_page: bool,
    pub recording_gesture: bool,
    pub start_open: bool,
    /// The start screen is animating.
    pub start_needs_frames: bool,
}

/// Which timers and listeners run beside the window and tray events.
#[derive(Debug, Clone, Copy, PartialEq, Eq, Structural)]
pub struct Timers {
    pub presence_ms: u64,
    /// Escape dismisses the toast of this generation.
    pub escape_for: Option<u64>,
    pub toast_frames: bool,
    pub identify_frames: bool,
    /// Pads are read at the active rate.
    pub pad_poll: bool,
    pub start_frames: bool,
}

/// Whether pads are read at the active rate: for the pad-input page, and for the start screen
/// and its gesture while a pad is there or a gesture is recorded.
pub open spec fn listens(f: TimerFacts) -> bool {
    (f.configure_open && f.pad_input_page) || (f.start_screen_enabled && (!f.no_pads
        || f.recording_gesture))
}

/// Which timers run.
pub open spec fn timers(f: TimerFacts) -> Timers {
    Timers {
        presence_ms: if f.start_screen_enabled && f.no_pads {
            PRESENCE_INTERVAL_EMPTY_MS
        } else {
            PRESENCE_INTERVAL_MS
        },
        escape_for: f.toast,
        toast_frames: f.toast is Some,
        identify_frames: f.identify_flash,
        pad_poll: listens(f),
        start_frames: f.start_open && f.start_needs_frames,
    }
}

/// Which timers run.
pub fn subscription(f: TimerFacts) -> (r: Timers)
    ensures
        r == timers(f),
{
    let pad_input_live = f.configure_open && f.pad_input_page;
    Timers {
        presence_ms: if f.start_screen_enabled && f.no_pads {
            PRESENCE_INTERVAL_EMPTY_MS
        } else {
            PRESENCE_INTERVAL_MS
        },
        escape_for: f.toast,
        toast_frames: f.toast.is_some(),
        identify_frames: f.identify_flash,
        pad_poll: pad_input_live || (f.start_screen_enabled && (!f.no_pads
            || f.recording_gesture)),
        start_frames: f.start_open && f.start_needs_frames,
    }
}

/// Whether pad input is wanted at the active rate at all.
pub fn pad_input_hot(f: TimerFacts) -> (r: bool)
    ensures
        r == (f.start_open || f.recording_gesture || (f.configure_open && f.pad_input_page) || (
        f.start_screen_enabled && !f.no_pads)),
{
    f.start_open || f.recording_gesture || (f.configure_open && f.pad_input_page) || (
    f.start_screen_enabled && !f.no_pads)
}

/// A key of the keyboard that the start screen may take.
#[derive(Debug, Clone, Copy, PartialEq, Eq, Structural)]
pub enum KeyName {
    Escape,
    Enter,
    ArrowUp,
    ArrowDown,
    Other,
}

/// What a key means on the start screen.
#[derive(Debug, Clone, Copy, PartialEq, Eq, Structural)]
pub enum StartKeyAction {
    Up,
    Down,
    Confirm,
    Cancel,
}

/// What a key means: arrows only when pressed, Enter and Escape also when released.
pub fn start_key(key: KeyName, pressed: bool) -> (r: Option<StartKeyAction>)
    ensures
        r == match key {
            KeyName::Escape => Some(StartKeyAction::Cancel),
            KeyName::Enter => Some(StartKeyAction::Confirm),
            KeyName::ArrowUp => if pressed {
                Some(StartKeyAction::Up)
            } else {
                None
            },
            KeyName::ArrowDown => if pressed {
                Some(StartKeyAction::Down)
            } else {
                None
            },
            KeyName::Other => None,
        },
{
    match key {
        KeyName::Escape => Some(StartKeyAction::Cancel),
        KeyName::Enter => Some(StartKeyAction::Confirm),
        KeyName::ArrowUp => if pressed {
            Some(StartKeyAction::Up)
        } else {
            None
        },
        KeyName::ArrowDown => if pressed {
            Some(StartKeyAction::Down)
        } else {
            None
        },
        KeyName::Other => None,
    }
}

// ---------------------------------------------------------------------------
// Spectrum edits
// ---------------------------------------------------------------------------

/// Counts color edits, so that only the last one is saved and written.
#[derive(Debug, Clone, Copy, PartialEq, Eq, Structural)]
pub struct SpectrumEdits {
    pub generation: u64,
}

/// What a commit of a color edit comes to.
#[derive(Debug, Clone, Copy, PartialEq, Eq, Structural)]
pub enum SpectrumCommit {
    /// A later edit follows.
    Stale,
    /// Preferences are saved.
    Save,
    /// Preferences are saved and every real pad is given its color.
    SaveAndWrite,
}

/// The generation behind another.
pub open spec fn next_generation(g: u64) -> u64 {
    if g == u64::MAX {
        0
    } else {
        (g + 1) as u64
    }
}

impl SpectrumEdits {
    /// Counts an edit and returns the generation to commit after the wait.
    pub fn edit(&mut self) -> (r: u64)
        ensures
            r == next_generation(old(self).generation),
            final(self).generation == r,
    {
        self.generation = self.generation.wrapping_add(1);
        self.generation
    }

    /// The wait of an edit is over.
    pub fn on_spectrum_commit(&self, generation: u64, lightbars_on: bool) -> (r: SpectrumCommit)
        ensures
            r == (if self.generation != generation {
                SpectrumCommit::Stale
            } else if lightbars_on {
                SpectrumCommit::SaveAndWrite
            } else {
                SpectrumCommit::Save
            }),
    {
        if self.generation != generation {
            SpectrumCommit::Stale
        } else if lightbars_on {
            SpectrumCommit::SaveAndWrite
        } else {
            SpectrumCommit::Save
        }
    }
}

// ---------------------------------------------------------------------------
// Laws
// ---------------------------------------------------------------------------

/// A change of membership is never missed: it is polled, or empties the tray at once.
pub proof fn law_changes_are_noticed(p: PollingView, discovered: Seq<Seq<char>>, f: TickFacts)
    requires
        !tick_rests(p, f),
        discovered != p.last_discovered,
    ensures
        tick_action(p, discovered, f) != TickAction::Nothing,
        tick_action(p, discovered, f) == TickAction::Vanished <==> discovered.len() == 0,
{
}

/// Shown pads are polled again at the latest after the liveness interval, and with none shown
/// after the battery interval.
pub proof fn law_pads_are_polled(p: PollingView, discovered: Seq<Seq<char>>, f: TickFacts)
    requires
        !tick_rests(p, f),
        elapsed(p.last_battery_poll_ms, f.now_ms) >= BATTERY_INTERVAL_MS || (!f.no_pads
            && elapsed(p.last_battery_poll_ms, f.now_ms) >= LIVENESS_INTERVAL_MS),
    ensures
        tick_action(p, discovered, f) != TickAction::Nothing,
{
}

/// While an edit follows, an earlier one is not committed.
pub proof fn law_only_the_last_edit_counts(g: u64)
    ensures
        next_generation(g) != g,
{
}

} // verus!
