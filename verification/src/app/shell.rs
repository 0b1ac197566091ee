//! The application as a whole: what each event does to its windows, toasts and start screen,
//! and what is left for others to do.
use crate::app::pad_poll::NavDiag;
use crate::app::polling::StartKeyAction;
use crate::app::start;
use crate::app::start::{FaceHeld, Overlay, StartEffect, StartFacts, StartMessage, StartNav};
use crate::app::start_input;
use crate::app::start_input::{
    handle_start_nav, merged_held, nav_gates, on_start_frame, on_start_key, KeyHold, KeyHolds,
    NavGates, NavTick,
};
use crate::app::toast;
use crate::app::toast::{ToastEffect, Toasts};
use crate::app::windows;
use crate::app::windows::{WindowEffect, WindowRole, Windows};
use crate::platform::UiSoundKind;
use vstd::prelude::*;

verus! {

/// State of the application that events change here.
#[derive(Debug)]
pub struct Shell {
    pub windows: Windows,
    pub nav: StartNav,
    pub keys: KeyHolds,
    /// Face buttons that pads hold.
    pub pad_held: FaceHeld,
    pub toasts: Toasts,
    pub diag: NavDiag,
    /// The start screen is shown and takes pad input.
    pub nav_ready: bool,
    /// Scale and monitor of the flyout are known.
    pub popup_measured: bool,
}

/// Model of [`Shell`].
#[verifier::ext_equal]
pub struct ShellView {
    pub windows: Windows,
    pub nav: StartNav,
    pub keys: KeyHolds,
    pub pad_held: FaceHeld,
    pub toasts: toast::ToastsView,
    pub diag: NavDiag,
    pub nav_ready: bool,
    pub popup_measured: bool,
}

impl View for Shell {
    type V = ShellView;

    open spec fn view(&self) -> ShellView {
        ShellView {
            windows: self.windows,
            nav: self.nav,
            keys: self.keys,
            pad_held: self.pad_held,
            toasts: self.toasts@,
            diag: self.diag,
            nav_ready: self.nav_ready,
            popup_measured: self.popup_measured,
        }
    }
}

/// An item of the tray menu.
#[derive(Debug, Clone, Copy, PartialEq, Eq, Structural)]
pub enum TrayItem {
    Settings,
    Quit,
    Other,
}

/// An event.
#[derive(Debug, Clone, Copy, PartialEq, Eq, Structural)]
pub enum Message {
    /// An event with a handler of its own, which gets what came with it.
    Forward(Handler),
    TrayMenu(TrayItem),
    TrayLeftClick,
    WindowClosed(u64),
    WindowUnfocused(u64),
    PopupOpened(u64),
    PlacePopup(u64),
    ConfigureOpened(u64),
    StartOpened(u64),
    StartFrame,
    Start(StartMessage),
    StartKey { id: u64, action: StartKeyAction, pressed: bool },
    ManualFilePicked { picked: bool },
    ManualIconPicked,
    /// The game of a macro was focused, or could not be.
    MacroFocusDone { focused: bool },
    MacroRunDone { finished: bool },
    PlaceToast { generation: u64 },
    ToastFrame,
    IdentifyFrame,
    ToastDismiss(u64),
    Exit,
}

/// Who handles an event.
#[derive(Debug, Clone, Copy, PartialEq, Eq, Structural)]
pub enum Handler {
    Tick,
    PollResult,
    ProcessList,
    Popup,
    Configure,
    PadPoll,
    SteamScan,
    SpectrumCommit,
}

/// What is known from elsewhere when an event comes.
#[derive(Debug, Clone, Copy, PartialEq, Eq, Structural)]
pub struct ShellFacts {
    pub start: StartFacts,
    /// How far Enter has been held.
    pub key: KeyHold,
    /// A nickname is being typed in the flyout.
    pub typing: bool,
    /// A gesture is being recorded.
    pub recording: bool,
    pub now_ms: u64,
    /// How long a toast slides.
    pub slide_ms: u64,
    /// Id of the next window that opens.
    pub next_id: u64,
}

/// Something to do.
#[derive(Debug, Clone, Copy, PartialEq, Eq, Structural)]
pub enum Effect {
    Handle(Handler),
    Window(WindowEffect),
    Toast(ToastEffect),
    Start(StartEffect),
    /// Throw away the nickname that is being typed.
    CancelTyping,
    CancelRecording,
    /// Load the stored spectrum into the settings.
    LoadSpectrum,
    /// Remember where the tray icon was clicked.
    AnchorPopup,
    /// Remember scale and monitor of the flyout.
    KeepMetrics,
    ResetPadNav,
    /// Pads have to rest before their input counts.
    PreparePads,
    ResetGestures,
    /// List processes at once.
    CheckRunning,
    /// Bring the badge of the running game up to date, which lists processes now and then.
    RefreshRunning,
    TickAnimation,
    /// Draw these face buttons pressed.
    DrawHeld(FaceHeld),
    /// Write down what pads sent, where it is news.
    LogNav,
    /// Say that no pad may navigate before it was let go.
    WarnUnarmed,
    TickFlashes,
    /// The picked program becomes a shortcut in the form.
    LoadPickedFile,
    LoadPickedIcon,
    RunMacroKeys,
    WarnFocusFailed,
    LogMacroFinished,
    WarnMacroFailed,
    CreateTray,
    SyncRows,
    SyncLowBattery,
    RefreshAnalyticsPage,
    RequestRefresh,
    ScanSteam,
    SaveKnown,
    StopWorker,
    DropTray,
    Quit,
}

/// What pads did since the last look, and how many of them count.
#[derive(Debug, Clone, Copy, PartialEq, Eq, Structural)]
pub struct PadsTick {
    pub tick: NavTick,
    /// Face buttons that pads hold.
    pub held: FaceHeld,
    /// Pads that may navigate.
    pub armed: usize,
    /// Pads that have to be let go first.
    pub unarmed: usize,
    /// There is a sample to write down.
    pub sampled: bool,
}

/// How a look at the pads begins.
#[derive(Debug)]
pub struct NavLook {
    pub effects: Vec<Effect>,
    pub gates: NavGates,
}

/// Window effects among the others.
pub open spec fn window_effects(v: Seq<WindowEffect>) -> Seq<Effect> {
    Seq::new(v.len(), |i: int| Effect::Window(v[i]))
}

/// Toast effects among the others.
pub open spec fn toast_effects(v: Seq<ToastEffect>) -> Seq<Effect> {
    Seq::new(v.len(), |i: int| Effect::Toast(v[i]))
}

fn push_windows(out: &mut Vec<Effect>, more: &[WindowEffect])
    ensures
        final(out)@ == old(out)@ + window_effects(more@),
{
    let ghost before = out@;
    let ghost want = window_effects(more@);
    let mut i: usize = 0;
    while i < more.len()
        invariant
            i <= more@.len(),
            want == window_effects(more@),
            out@ == before + want.take(i as int),
        decreases more@.len() - i,
    {
        out.push(Effect::Window(more[i]));
        assert(out@ =~= before + want.take(i + 1));
        i = i + 1;
    }
    assert(want.take(i as int) =~= want);
}

fn push_toasts(out: &mut Vec<Effect>, more: &[ToastEffect])
    ensures
        final(out)@ == old(out)@ + toast_effects(more@),
{
    let ghost before = out@;
    let ghost want = toast_effects(more@);
    let mut i: usize = 0;
    while i < more.len()
        invariant
            i <= more@.len(),
            want == toast_effects(more@),
            out@ == before + want.take(i as int),
        decreases more@.len() - i,
    {
        out.push(Effect::Toast(more[i]));
        assert(out@ =~= before + want.take(i + 1));
        i = i + 1;
    }
    assert(want.take(i as int) =~= want);
}

// ---------------------------------------------------------------------------
// Models
// ---------------------------------------------------------------------------

impl ShellView {
    /// Whether a toast is on screen.
    pub open spec fn toast_on(self) -> bool {
        self.toasts.current is Some
    }

    /// Whether the toast window is known wherever it exists.
    pub open spec fn wf(self) -> bool {
        self.toasts.window == (self.windows.toast is Some)
    }

    /// The state once the start window was told to close.
    pub open spec fn start_closing(self) -> ShellView {
        ShellView {
            nav_ready: false,
            keys: KeyHolds { confirm: false, cancel: false },
            pad_held: FaceHeld::blank(),
            diag: NavDiag::blank(),
            ..self
        }
    }

    /// What closing the start window takes.
    pub open spec fn start_close_effects(self) -> Seq<Effect> {
        seq![Effect::ResetPadNav] + window_effects(windows::hidden_and_closed(self.windows.start))
    }

    /// What the start screen asks for is passed on; that its window closes is done here.
    pub open spec fn absorbed(self, more: Seq<StartEffect>) -> (ShellView, Seq<Effect>)
        decreases more.len(),
    {
        if more.len() == 0 {
            (self, seq![])
        } else {
            let (s, out) = self.absorbed(more.drop_last());
            if more.last() == StartEffect::CloseWindow {
                (s.start_closing(), out + s.start_close_effects())
            } else {
                (s, out.push(Effect::Start(more.last())))
            }
        }
    }

    /// The start screen closed.
    pub open spec fn start_closed(self) -> (ShellView, Seq<Effect>) {
        (ShellView { nav: self.nav.screen_closed(), ..self }).absorbed(
            start::close_screen_effects(),
        )
    }

    /// The flyout told to close.
    pub open spec fn popup_closed(self) -> (ShellView, Seq<Effect>) {
        (
            self,
            seq![Effect::CancelTyping] + window_effects(
                windows::hidden_and_closed(self.windows.popup),
            ),
        )
    }

    /// A window opened, or focused where it is there.
    pub open spec fn opened(self, role: WindowRole, id: u64) -> (ShellView, Seq<Effect>) {
        match self.windows.id(role) {
            Some(i) => (self, seq![Effect::Window(WindowEffect::Focus(i))]),
            None => {
                let w = self.windows.with(role, id);
                (
                    ShellView { windows: w, ..self },
                    window_effects(
                        seq![WindowEffect::Open(role, id)] + w.zorder(self.toast_on()),
                    ),
                )
            },
        }
    }

    /// The settings opened.
    pub open spec fn configure_opened(self, id: u64) -> (ShellView, Seq<Effect>) {
        let r = self.opened(WindowRole::Configure, id);
        match self.windows.configure {
            Some(_) => r,
            None => (r.0, seq![Effect::LoadSpectrum] + r.1),
        }
    }

    /// The flyout opened or closed.
    pub open spec fn popup_toggled(self, id: u64) -> (ShellView, Seq<Effect>) {
        match self.windows.popup {
            Some(_) => self.popup_closed(),
            None => {
                let r = self.opened(WindowRole::Popup, id);
                (r.0, seq![Effect::CancelTyping] + r.1)
            },
        }
    }

    /// The toast window made anew where it is gone.
    pub open spec fn toast_ensured(self, id: u64) -> (ShellView, Seq<Effect>) {
        if self.toasts.window {
            (self, seq![])
        } else {
            (
                ShellView {
                    toasts: toast::ToastsView { window: true, ..self.toasts },
                    windows: self.windows.with(WindowRole::Toast, id),
                    ..self
                },
                seq![Effect::Toast(ToastEffect::OpenHidden)],
            )
        }
    }

    /// Toasts changed; a window that they open is known from then on.
    pub open spec fn with_toasts(self, r: (toast::ToastsView, Seq<ToastEffect>), id: u64) -> (
        ShellView,
        Seq<Effect>,
    ) {
        (
            ShellView {
                toasts: r.0,
                windows: if r.0.window && !self.toasts.window {
                    self.windows.with(WindowRole::Toast, id)
                } else {
                    self.windows
                },
                ..self
            },
            toast_effects(r.1),
        )
    }

    /// A window is gone.
    pub open spec fn window_gone(self, id: u64, next_id: u64) -> (ShellView, Seq<Effect>) {
        match self.windows.role(id) {
            Some(role) => {
                let s = ShellView { windows: self.windows.without(role), ..self };
                let restack = window_effects(s.windows.zorder(self.toast_on()));
                match role {
                    WindowRole::Popup => (s, seq![Effect::CancelTyping] + restack),
                    WindowRole::Configure => (s, seq![Effect::CancelRecording] + restack),
                    WindowRole::Start => (
                        ShellView { nav_ready: false, diag: NavDiag::blank(), ..s },
                        seq![Effect::ResetPadNav] + restack,
                    ),
                    WindowRole::Toast => (ShellView {
                        toasts: toast::ToastsView { window: false, ..s.toasts },
                        ..s
                    }).toast_ensured(next_id),
                }
            },
            None => (self, seq![]),
        }
    }

    /// A window lost the focus: the flyout goes, and so does the start screen, unless something
    /// of its own took the focus.
    pub open spec fn unfocused(self, id: u64, typing: bool) -> (ShellView, Seq<Effect>) {
        if self.windows.popup == Some(id) && !typing {
            self.popup_closed()
        } else if self.windows.start == Some(id) && !(self.nav.manual_add || self.nav.overlay
            != Overlay::Closed || self.nav.file_dialog) {
            self.start_closed()
        } else {
            (self, seq![])
        }
    }

    /// A frame of the start screen.
    pub open spec fn start_framed(self, key: KeyHold) -> (ShellView, Seq<Effect>) {
        let shown = if self.nav.replace_next is Some {
            StartNav {
                cross_progress: start_input::larger(self.nav.cross_progress, key.progress),
                ..self.nav
            }
        } else {
            self.nav
        };
        if self.nav.replace_next is Some && key.completed {
            let r = start_input::replace_result(shown);
            let a = (ShellView {
                nav: r.0,
                keys: KeyHolds { confirm: false, ..self.keys },
                ..self
            }).absorbed(seq![StartEffect::Sound(UiSoundKind::Hold)] + r.1);
            (a.0, seq![Effect::TickAnimation] + a.1)
        } else {
            (
                ShellView { nav: shown, ..self },
                seq![
                    Effect::TickAnimation,
                    Effect::Start(StartEffect::SyncHeld),
                    Effect::Start(StartEffect::TickHints),
                ],
            )
        }
    }

    /// A key came to a window: the start screen takes it, and Escape in the settings gives up a
    /// gesture that is being recorded.
    pub open spec fn keyed(
        self,
        id: u64,
        action: StartKeyAction,
        pressed: bool,
        f: ShellFacts,
    ) -> (ShellView, Seq<Effect>) {
        if self.windows.start == Some(id) {
            let r = start_input::key_result(self.nav, self.keys, action, pressed, f.start);
            (ShellView { nav: r.0, keys: r.1, ..self }).absorbed(r.2)
        } else if self.windows.configure == Some(id) && action == StartKeyAction::Cancel && pressed
            && f.recording {
            (self, seq![Effect::CancelRecording])
        } else {
            (self, seq![])
        }
    }

    /// A toast has its place.
    pub open spec fn toast_placed(self, generation: u64, now: u64) -> (ShellView, Seq<Effect>) {
        if generation != self.toasts.generation || self.toasts.current is None {
            (self, seq![])
        } else {
            (
                ShellView {
                    toasts: toast::ToastsView {
                        placed: true,
                        anim_started_ms: now,
                        dismissing: false,
                        ..self.toasts
                    },
                    ..self
                },
                seq![Effect::Toast(ToastEffect::Present(generation))] + window_effects(
                    self.windows.raise_all(true),
                ),
            )
        }
    }

    /// A frame of the toast; the windows stay above it.
    pub open spec fn toast_framed(self, f: ShellFacts) -> (ShellView, Seq<Effect>) {
        let r = self.with_toasts(
            if self.toasts.animating(f.now_ms, f.slide_ms) {
                self.toasts.animated(f.now_ms, f.slide_ms)
            } else {
                (self.toasts, seq![])
            },
            f.next_id,
        );
        (r.0, r.1 + window_effects(r.0.windows.raise_all(false)))
    }

    /// What an event leads to.
    pub open spec fn updated(self, m: Message, f: ShellFacts) -> (ShellView, Seq<Effect>) {
        match m {
            Message::Forward(h) => (self, seq![Effect::Handle(h)]),
            Message::TrayMenu(item) => match item {
                TrayItem::Settings => self.configure_opened(f.next_id),
                TrayItem::Quit => (self, exit_effects()),
                TrayItem::Other => (self, seq![]),
            },
            Message::TrayLeftClick => {
                let r = self.popup_toggled(f.next_id);
                (r.0, seq![Effect::AnchorPopup] + r.1)
            },
            Message::WindowClosed(id) => self.window_gone(id, f.next_id),
            Message::WindowUnfocused(id) => self.unfocused(id, f.typing),
            Message::PopupOpened(id) => (
                self,
                seq![
                    Effect::Window(
                        if self.popup_measured {
                            WindowEffect::RevealPopup(id)
                        } else {
                            WindowEffect::MeasurePopup(id)
                        },
                    ),
                ],
            ),
            Message::PlacePopup(id) => (
                ShellView { popup_measured: true, ..self },
                seq![Effect::KeepMetrics, Effect::Window(WindowEffect::RevealPopup(id))],
            ),
            Message::ConfigureOpened(id) => (
                self,
                seq![Effect::Window(WindowEffect::Focus(id))],
            ),
            Message::StartOpened(id) => (
                ShellView {
                    nav_ready: true,
                    diag: NavDiag { not_ready_warned: false, ..self.diag },
                    ..self
                },
                seq![
                    Effect::Window(WindowEffect::Show(id)),
                    Effect::Window(WindowEffect::Focus(id)),
                ],
            ),
            Message::StartFrame => self.start_framed(f.key),
            Message::Start(m) => {
                let r = start::message_result(self.nav, m, f.start);
                (ShellView { nav: r.0, ..self }).absorbed(r.1)
            },
            Message::StartKey { id, action, pressed } => self.keyed(id, action, pressed, f),
            Message::ManualFilePicked { picked } => (
                ShellView {
                    nav: StartNav {
                        file_dialog: false,
                        manual_add: self.nav.manual_add || (picked && self.nav.editing),
                        ..self.nav
                    },
                    ..self
                },
                if picked && self.nav.editing {
                    seq![Effect::LoadPickedFile]
                } else {
                    seq![]
                },
            ),
            Message::ManualIconPicked => (
                ShellView { nav: StartNav { file_dialog: false, ..self.nav }, ..self },
                if self.nav.manual_add {
                    seq![Effect::LoadPickedIcon]
                } else {
                    seq![]
                },
            ),
            Message::MacroFocusDone { focused } => if focused {
                let r = self.start_closed();
                (r.0, r.1.push(Effect::RunMacroKeys))
            } else {
                (self, seq![Effect::WarnFocusFailed])
            },
            Message::MacroRunDone { finished } => (
                self,
                seq![
                    if finished {
                        Effect::LogMacroFinished
                    } else {
                        Effect::WarnMacroFailed
                    },
                ],
            ),
            Message::PlaceToast { generation } => self.toast_placed(generation, f.now_ms),
            Message::ToastFrame => self.toast_framed(f),
            Message::IdentifyFrame => (self, seq![Effect::TickFlashes]),
            Message::ToastDismiss(generation) => self.with_toasts(
                if generation == self.toasts.generation {
                    self.toasts.dismissed(f.now_ms, f.slide_ms)
                } else {
                    (self.toasts, seq![])
                },
                f.next_id,
            ),
            Message::Exit => (self, exit_effects()),
        }
    }

    /// What a look at the pads begins with: pads and badge are brought up to date, unless a
    /// slide is moving, and the slide moves on.
    pub open spec fn nav_begun(self, f: StartFacts) -> (ShellView, Seq<Effect>) {
        (
            ShellView { diag: NavDiag { missing_warned: false, ..self.diag }, ..self },
            if f.animating {
                seq![Effect::TickAnimation]
            } else {
                seq![
                    Effect::Start(StartEffect::RefreshControllers),
                    Effect::RefreshRunning,
                    Effect::TickAnimation,
                ]
            },
        )
    }

    /// The state as the start screen gets what pads did: their held buttons are taken over.
    pub open spec fn pads_taken(self, p: PadsTick) -> ShellView {
        ShellView { pad_held: p.held, diag: self.diag.armed(p.armed, p.unarmed), ..self }
    }

    /// What is said and drawn before the start screen gets what pads did.
    pub open spec fn pads_shown(self, p: PadsTick) -> Seq<Effect> {
        (if p.sampled {
            seq![Effect::LogNav]
        } else {
            seq![]
        }) + (if p.sampled && self.diag.waits(p.armed, p.unarmed) {
            seq![Effect::WarnUnarmed]
        } else {
            seq![]
        }) + seq![Effect::DrawHeld(start_input::held_of(p.held, self.keys))]
    }

    /// What pads did, on the start screen.
    pub open spec fn pads_handled(self, p: PadsTick, key: KeyHold, f: StartFacts) -> (
        ShellView,
        Seq<Effect>,
    ) {
        let r = start_input::tick_result(self.nav, p.tick, key, f);
        let a = (ShellView {
            nav: r.0,
            keys: start_input::keys_after(self.keys, self.nav, p.tick, key, f),
            ..self.pads_taken(p)
        }).absorbed(r.1);
        (a.0, self.pads_shown(p) + a.1)
    }

    /// The start screen opened: on the games page, waiting for the pads to rest, and with
    /// nothing edited.
    pub open spec fn start_prepared(self) -> ShellView {
        ShellView {
            nav: StartNav { editing: false, replace_next: None, ..self.nav.released() },
            keys: KeyHolds { confirm: false, cancel: false },
            pad_held: FaceHeld::blank(),
            ..self
        }
    }

    /// What opening the start screen leads to.
    pub open spec fn start_opened(self, enabled: bool, now: u64, id: u64) -> (
        ShellView,
        Seq<Effect>,
    ) {
        let s = self.start_prepared();
        if !enabled {
            (self, seq![])
        } else {
            match self.windows.start {
                Some(i) => (
                    s,
                    open_effects() + seq![
                        Effect::CheckRunning,
                        Effect::Window(WindowEffect::Focus(i)),
                    ],
                ),
                None => {
                    let r = (ShellView {
                        nav_ready: false,
                        diag: NavDiag { opened_at_ms: Some(now), ..NavDiag::blank() },
                        ..s
                    }).opened(WindowRole::Start, id);
                    (
                        r.0,
                        open_effects() + seq![Effect::ResetGestures, Effect::CheckRunning] + r.1,
                    )
                },
            }
        }
    }

    /// The application as it starts.
    pub open spec fn fresh(now: u64) -> ShellView {
        ShellView {
            windows: Windows { popup: None, configure: None, start: None, toast: None },
            nav: StartNav {
                editing: false,
                overlay: Overlay::Closed,
                manual_add: false,
                replace_next: None,
                rows: 0,
                game_selected: 0,
                pads: 0,
                pad_selected: 0,
                macro_rows: 0,
                macro_selected: 0,
                file_dialog: false,
                cross_progress: 0,
                triangle_progress: 0,
            },
            keys: KeyHolds { confirm: false, cancel: false },
            pad_held: FaceHeld::blank(),
            toasts: toast::ToastsView {
                current: None,
                queue: seq![],
                generation: 0,
                placed: false,
                anim_started_ms: now,
                dismissing: false,
                window: false,
            },
            diag: NavDiag::blank(),
            nav_ready: false,
            popup_measured: false,
        }
    }

    /// What starting leads to: the tray shows at once, the toast window is made hidden, and a
    /// restart after a crash is told of.
    pub open spec fn booted(now: u64, crashed: bool, id: u64) -> (ShellView, Seq<Effect>) {
        let e = ShellView::fresh(now).toast_ensured(id);
        let t = if crashed {
            (toast::ToastsView {
                queue: e.0.toasts.queue.push(toast::ToastView::CrashRestart),
                ..e.0.toasts
            }).shown_next()
        } else {
            (e.0.toasts, seq![])
        };
        let r = e.0.with_toasts(t, id);
        (r.0, boot_effects() + e.1 + r.1 + seq![Effect::ScanSteam])
    }
}

/// What leaving takes.
pub open spec fn exit_effects() -> Seq<Effect> {
    seq![Effect::SaveKnown, Effect::StopWorker, Effect::DropTray, Effect::Quit]
}

/// What opening the start screen begins with.
pub open spec fn open_effects() -> Seq<Effect> {
    seq![
        Effect::Start(StartEffect::DropDraft),
        Effect::Start(StartEffect::RefreshRows),
        Effect::Start(StartEffect::RefreshControllers),
        Effect::Start(StartEffect::ResetToGames),
        Effect::PreparePads,
        Effect::Start(StartEffect::KeyboardHoldReset),
    ]
}

/// What starting begins with.
pub open spec fn boot_effects() -> Seq<Effect> {
    seq![
        Effect::CreateTray,
        Effect::SyncRows,
        Effect::SyncLowBattery,
        Effect::RefreshAnalyticsPage,
        Effect::RequestRefresh,
    ]
}

// ---------------------------------------------------------------------------
// Events
// ---------------------------------------------------------------------------

fn push_exit(out: &mut Vec<Effect>)
    ensures
        final(out)@ == old(out)@ + exit_effects(),
{
    let ghost before = out@;
    out.push(Effect::SaveKnown);
    out.push(Effect::StopWorker);
    out.push(Effect::DropTray);
    out.push(Effect::Quit);
    assert(out@ =~= before + exit_effects());
}

impl Shell {
    /// Passes on what the start screen asks for, and closes its window.
    fn absorb(&mut self, more: &[StartEffect], out: &mut Vec<Effect>)
        ensures
            final(self)@ == old(self)@.absorbed(more@).0,
            final(out)@ == old(out)@ + old(self)@.absorbed(more@).1,
    {
        let ghost start = self@;
        let ghost before = out@;
        let mut i: usize = 0;
        assert(out@ =~= before + start.absorbed(more@.take(0)).1);
        while i < more.len()
            invariant
                i <= more@.len(),
                self@ == start.absorbed(more@.take(i as int)).0,
                out@ == before + start.absorbed(more@.take(i as int)).1,
            decreases more@.len() - i,
        {
            let ghost t = more@.take(i + 1);
            assert(t.drop_last() =~= more@.take(i as int));
            assert(t.last() == more@[i as int]);
            let ghost s = self@;
            if more[i] == StartEffect::CloseWindow {
                let mut w: Vec<WindowEffect> = Vec::new();
                windows::push_hide_and_close(self.windows.start, &mut w);
                assert(w@ =~= windows::hidden_and_closed(s.windows.start));
                self.nav_ready = false;
                self.keys = KeyHolds { confirm: false, cancel: false };
                self.pad_held = FaceHeld::none();
                self.diag = NavDiag::new();
                out.push(Effect::ResetPadNav);
                push_windows(out, w.as_slice());
                assert(self@ =~= s.start_closing());
                assert(out@ =~= before + (start.absorbed(more@.take(i as int)).1
                    + s.start_close_effects()));
            } else {
                out.push(Effect::Start(more[i]));
                assert(out@ =~= before + start.absorbed(more@.take(i as int)).1.push(
                    Effect::Start(more@[i as int]),
                ));
            }
            i = i + 1;
        }
        assert(more@.take(i as int) =~= more@);
    }

    fn close_start(&mut self, out: &mut Vec<Effect>)
        ensures
            final(self)@ == old(self)@.start_closed().0,
            final(out)@ == old(out)@ + old(self)@.start_closed().1,
    {
        let ghost start = self@;
        let more = self.nav.close_start_screen();
        assert(self@ =~= (ShellView { nav: start.nav.screen_closed(), ..start }));
        self.absorb(more.as_slice(), out);
    }

    fn close_popup(&self, out: &mut Vec<Effect>)
        ensures
            final(out)@ == old(out)@ + self@.popup_closed().1,
    {
        let ghost before = out@;
        let mut w: Vec<WindowEffect> = Vec::new();
        windows::push_hide_and_close(self.windows.popup, &mut w);
        assert(w@ =~= windows::hidden_and_closed(self.windows.popup));
        out.push(Effect::CancelTyping);
        push_windows(out, w.as_slice());
        assert(out@ =~= before + self@.popup_closed().1);
    }

    fn open(&mut self, role: WindowRole, id: u64, out: &mut Vec<Effect>)
        ensures
            final(self)@ == old(self)@.opened(role, id).0,
            final(out)@ == old(out)@ + old(self)@.opened(role, id).1,
    {
        let ghost start = self@;
        let on = self.toasts.current.is_some();
        let w = self.windows.open(role, id, on);
        let ghost before = out@;
        push_windows(out, w.as_slice());
        assert(self@ =~= start.opened(role, id).0);
        assert(window_effects(w@) =~= start.opened(role, id).1);
    }

    fn toggle_popup(&mut self, id: u64, out: &mut Vec<Effect>)
        ensures
            final(self)@ == old(self)@.popup_toggled(id).0,
            final(out)@ == old(out)@ + old(self)@.popup_toggled(id).1,
    {
        let ghost start = self@;
        let ghost before = out@;
        if self.windows.popup.is_some() {
            self.close_popup(out);
        } else {
            out.push(Effect::CancelTyping);
            self.open(WindowRole::Popup, id, out);
            assert(out@ =~= before + start.popup_toggled(id).1);
        }
    }

    fn open_configure(&mut self, id: u64, out: &mut Vec<Effect>)
        ensures
            final(self)@ == old(self)@.configure_opened(id).0,
            final(out)@ == old(out)@ + old(self)@.configure_opened(id).1,
    {
        let ghost start = self@;
        let ghost before = out@;
        if self.windows.configure.is_none() {
            out.push(Effect::LoadSpectrum);
        }
        self.open(WindowRole::Configure, id, out);
        assert(out@ =~= before + start.configure_opened(id).1);
    }

    fn ensure_toast(&mut self, id: u64, out: &mut Vec<Effect>)
        ensures
            final(self)@ == old(self)@.toast_ensured(id).0,
            final(out)@ == old(out)@ + old(self)@.toast_ensured(id).1,
    {
        let ghost start = self@;
        let ghost before = out@;
        let had = self.toasts.window;
        let more = self.toasts.ensure_toast_window();
        if !had {
            self.windows.toast = Some(id);
        }
        push_toasts(out, more.as_slice());
        assert(self@ =~= start.toast_ensured(id).0);
        assert(out@ =~= before + start.toast_ensured(id).1);
    }

    fn restack(&self, out: &mut Vec<Effect>)
        ensures
            final(out)@ == old(out)@ + window_effects(self@.windows.zorder(self@.toast_on())),
    {
        let mut w: Vec<WindowEffect> = Vec::new();
        self.windows.sync_toast_zorder(self.toasts.current.is_some(), &mut w);
        assert(w@ =~= self@.windows.zorder(self@.toast_on()));
        push_windows(out, w.as_slice());
    }

    fn on_window_closed(&mut self, id: u64, next_id: u64, out: &mut Vec<Effect>)
        ensures
            final(self)@ == old(self)@.window_gone(id, next_id).0,
            final(out)@ == old(out)@ + old(self)@.window_gone(id, next_id).1,
    {
        let ghost start = self@;
        let ghost before = out@;
        match self.windows.role_of(id) {
            Some(WindowRole::Popup) => {
                self.windows.forget(WindowRole::Popup);
                out.push(Effect::CancelTyping);
                self.restack(out);
            },
            Some(WindowRole::Configure) => {
                self.windows.forget(WindowRole::Configure);
                out.push(Effect::CancelRecording);
                self.restack(out);
            },
            Some(WindowRole::Start) => {
                self.windows.forget(WindowRole::Start);
                self.nav_ready = false;
                self.diag = NavDiag::new();
                out.push(Effect::ResetPadNav);
                self.restack(out);
            },
            Some(WindowRole::Toast) => {
                self.windows.forget(WindowRole::Toast);
                self.toasts.window = false;
                self.ensure_toast(next_id, out);
            },
            None => {},
        }
        assert(self@ =~= start.window_gone(id, next_id).0);
        assert(out@ =~= before + start.window_gone(id, next_id).1);
    }

    fn on_window_unfocused(&mut self, id: u64, typing: bool, out: &mut Vec<Effect>)
        ensures
            final(self)@ == old(self)@.unfocused(id, typing).0,
            final(out)@ == old(out)@ + old(self)@.unfocused(id, typing).1,
    {
        let ghost before = out@;
        if self.windows.popup == Some(id) && !typing {
            self.close_popup(out);
        } else if self.windows.start == Some(id) && !(self.nav.manual_add || self.nav.overlay
            != Overlay::Closed || self.nav.file_dialog) {
            self.close_start(out);
        } else {
            assert(out@ =~= before + Seq::<Effect>::empty());
        }
    }

    fn on_frame(&mut self, key: KeyHold, out: &mut Vec<Effect>)
        ensures
            final(self)@ == old(self)@.start_framed(key).0,
            final(out)@ == old(out)@ + old(self)@.start_framed(key).1,
    {
        let ghost start = self@;
        let ghost before = out@;
        out.push(Effect::TickAnimation);
        let completed = self.nav.replace_next.is_some() && key.completed;
        let more = on_start_frame(&mut self.nav, &mut self.keys, key);
        if completed {
            self.absorb(more.as_slice(), out);
            assert(out@ =~= before + start.start_framed(key).1);
        } else {
            out.push(Effect::Start(StartEffect::SyncHeld));
            out.push(Effect::Start(StartEffect::TickHints));
            assert(self@ =~= start.start_framed(key).0);
            assert(out@ =~= before + start.start_framed(key).1);
        }
    }

    fn on_key(
        &mut self,
        id: u64,
        action: StartKeyAction,
        pressed: bool,
        f: ShellFacts,
        out: &mut Vec<Effect>,
    )
        ensures
            final(self)@ == old(self)@.keyed(id, action, pressed, f).0,
            final(out)@ == old(out)@ + old(self)@.keyed(id, action, pressed, f).1,
    {
        let ghost before = out@;
        if self.windows.start == Some(id) {
            let more = on_start_key(&mut self.nav, &mut self.keys, action, pressed, f.start);
            self.absorb(more.as_slice(), out);
        } else if self.windows.configure == Some(id) && action == StartKeyAction::Cancel && pressed
            && f.recording {
            out.push(Effect::CancelRecording);
            assert(out@ =~= before + seq![Effect::CancelRecording]);
        } else {
            assert(out@ =~= before + Seq::<Effect>::empty());
        }
    }

    fn on_place_toast(&mut self, generation: u64, now_ms: u64, out: &mut Vec<Effect>)
        ensures
            final(self)@ == old(self)@.toast_placed(generation, now_ms).0,
            final(out)@ == old(out)@ + old(self)@.toast_placed(generation, now_ms).1,
    {
        let ghost start = self@;
        let ghost before = out@;
        let more = self.toasts.place(generation, now_ms);
        push_toasts(out, more.as_slice());
        if more.len() > 0 {
            let mut w: Vec<WindowEffect> = Vec::new();
            self.windows.raise_interactive_ui_above_toast(true, &mut w);
            assert(w@ =~= self@.windows.raise_all(true));
            push_windows(out, w.as_slice());
        }
        assert(self@ =~= start.toast_placed(generation, now_ms).0);
        assert(out@ =~= before + start.toast_placed(generation, now_ms).1);
    }

    /// Takes over a window that the toasts opened.
    fn adopt_toasts(
        &mut self,
        had: bool,
        more: &[ToastEffect],
        id: u64,
        out: &mut Vec<Effect>,
        Ghost(before): Ghost<ShellView>,
    )
        requires
            had == before.toasts.window,
            old(self)@ == (ShellView { toasts: old(self)@.toasts, ..before }),
        ensures
            final(self)@ == before.with_toasts((old(self)@.toasts, more@), id).0,
            final(out)@ == old(out)@ + before.with_toasts((old(self)@.toasts, more@), id).1,
    {
        if self.toasts.window && !had {
            self.windows.toast = Some(id);
        }
        push_toasts(out, more);
        assert(self@ =~= before.with_toasts((old(self)@.toasts, more@), id).0);
    }

    fn on_toast_frame(&mut self, f: ShellFacts, out: &mut Vec<Effect>)
        ensures
            final(self)@ == old(self)@.toast_framed(f).0,
            final(out)@ == old(out)@ + old(self)@.toast_framed(f).1,
    {
        let ghost start = self@;
        let ghost before = out@;
        let had = self.toasts.window;
        let more = self.toasts.on_frame(f.now_ms, f.slide_ms);
        self.adopt_toasts(had, more.as_slice(), f.next_id, out, Ghost(start));
        let mut w: Vec<WindowEffect> = Vec::new();
        self.windows.raise_interactive_ui_above_toast(false, &mut w);
        assert(w@ =~= self@.windows.raise_all(false));
        push_windows(out, w.as_slice());
        assert(out@ =~= before + start.toast_framed(f).1);
    }

    fn on_toast_dismiss(&mut self, generation: u64, f: ShellFacts, out: &mut Vec<Effect>)
        ensures
            final(self)@ == old(self)@.updated(Message::ToastDismiss(generation), f).0,
            final(out)@ == old(out)@ + old(self)@.updated(Message::ToastDismiss(generation), f).1,
    {
        let ghost start = self@;
        let had = self.toasts.window;
        let more = self.toasts.on_dismiss(generation, f.now_ms, f.slide_ms);
        self.adopt_toasts(had, more.as_slice(), f.next_id, out, Ghost(start));
    }

    fn on_picked(&mut self, m: Message, f: ShellFacts, out: &mut Vec<Effect>)
        requires
            m is ManualFilePicked || m is ManualIconPicked,
        ensures
            final(self)@ == old(self)@.updated(m, f).0,
            final(out)@ == old(out)@ + old(self)@.updated(m, f).1,
    {
        let ghost start = self@;
        let ghost before = out@;
        self.nav.file_dialog = false;
        match m {
            Message::ManualFilePicked { picked } => {
                if picked && self.nav.editing {
                    self.nav.manual_add = true;
                    out.push(Effect::LoadPickedFile);
                }
            },
            _ => {
                if self.nav.manual_add {
                    out.push(Effect::LoadPickedIcon);
                }
            },
        }
        assert(self@ =~= start.updated(m, f).0);
        assert(out@ =~= before + start.updated(m, f).1);
    }

    fn on_simple(&mut self, m: Message, f: ShellFacts, out: &mut Vec<Effect>) -> (r: bool)
        ensures
            r ==> final(self)@ == old(self)@.updated(m, f).0 && final(out)@ == old(out)@ + old(
                self,
            )@.updated(m, f).1,
            !r ==> final(self)@ == old(self)@ && final(out)@ == old(out)@,
            !r == (m is TrayMenu || m is TrayLeftClick || m is WindowClosed || m is WindowUnfocused
                || m is StartFrame || m is Start || m is StartKey || m is ManualFilePicked
                || m is ManualIconPicked || m is MacroFocusDone || m is PlaceToast || m is ToastFrame
                || m is ToastDismiss || m is Exit),
    {
        let ghost start = self@;
        let ghost before = out@;
        match m {
            Message::Forward(h) => {
                out.push(Effect::Handle(h));
            },
            Message::PopupOpened(id) => {
                if self.popup_measured {
                    out.push(Effect::Window(WindowEffect::RevealPopup(id)));
                } else {
                    out.push(Effect::Window(WindowEffect::MeasurePopup(id)));
                }
            },
            Message::PlacePopup(id) => {
                self.popup_measured = true;
                out.push(Effect::KeepMetrics);
                out.push(Effect::Window(WindowEffect::RevealPopup(id)));
            },
            Message::ConfigureOpened(id) => {
                out.push(Effect::Window(WindowEffect::Focus(id)));
            },
            Message::StartOpened(id) => {
                self.nav_ready = true;
                self.diag.not_ready_warned = false;
                out.push(Effect::Window(WindowEffect::Show(id)));
                out.push(Effect::Window(WindowEffect::Focus(id)));
            },
            Message::MacroRunDone { finished } => {
                if finished {
                    out.push(Effect::LogMacroFinished);
                } else {
                    out.push(Effect::WarnMacroFailed);
                }
            },
            Message::IdentifyFrame => {
                out.push(Effect::TickFlashes);
            },
            _ => {
                return false;
            },
        }
        assert(self@ =~= start.updated(m, f).0);
        assert(out@ =~= before + start.updated(m, f).1);
        true
    }

    fn on_tray(&mut self, m: Message, f: ShellFacts, out: &mut Vec<Effect>)
        requires
            m is TrayMenu || m is TrayLeftClick || m is Exit,
        ensures
            final(self)@ == old(self)@.updated(m, f).0,
            final(out)@ == old(out)@ + old(self)@.updated(m, f).1,
    {
        let ghost start = self@;
        let ghost before = out@;
        match m {
            Message::TrayMenu(TrayItem::Settings) => self.open_configure(f.next_id, out),
            Message::TrayMenu(TrayItem::Other) => {},
            Message::TrayLeftClick => {
                out.push(Effect::AnchorPopup);
                self.toggle_popup(f.next_id, out);
            },
            _ => push_exit(out),
        }
        assert(out@ =~= before + start.updated(m, f).1);
    }

    fn on_start_event(&mut self, m: Message, f: ShellFacts, out: &mut Vec<Effect>)
        requires
            m is Start || m is MacroFocusDone,
        ensures
            final(self)@ == old(self)@.updated(m, f).0,
            final(out)@ == old(out)@ + old(self)@.updated(m, f).1,
    {
        let ghost start = self@;
        let ghost before = out@;
        match m {
            Message::Start(sm) => {
                let more = self.nav.on_start_message(sm, f.start);
                assert(self@ =~= (ShellView { nav: self.nav, ..start }));
                self.absorb(more.as_slice(), out);
            },
            Message::MacroFocusDone { focused: true } => {
                self.close_start(out);
                out.push(Effect::RunMacroKeys);
                assert(out@ =~= before + start.start_closed().1.push(Effect::RunMacroKeys));
            },
            _ => {
                out.push(Effect::WarnFocusFailed);
                assert(out@ =~= before + seq![Effect::WarnFocusFailed]);
            },
        }
    }

    fn dispatch(&mut self, m: Message, f: ShellFacts, out: &mut Vec<Effect>)
        ensures
            final(self)@ == old(self)@.updated(m, f).0,
            final(out)@ == old(out)@ + old(self)@.updated(m, f).1,
    {
        if self.on_simple(m, f, out) {
            return;
        }
        match m {
            Message::TrayMenu(_) | Message::TrayLeftClick | Message::Exit => self.on_tray(
                m,
                f,
                out,
            ),
            Message::WindowClosed(id) => self.on_window_closed(id, f.next_id, out),
            Message::WindowUnfocused(id) => self.on_window_unfocused(id, f.typing, out),
            Message::StartFrame => self.on_frame(f.key, out),
            Message::Start(_) | Message::MacroFocusDone { .. } => self.on_start_event(m, f, out),
            Message::StartKey { id, action, pressed } => self.on_key(id, action, pressed, f, out),
            Message::ManualFilePicked { .. } | Message::ManualIconPicked => self.on_picked(
                m,
                f,
                out,
            ),
            Message::PlaceToast { generation } => self.on_place_toast(generation, f.now_ms, out),
            Message::ToastFrame => self.on_toast_frame(f, out),
            Message::ToastDismiss(generation) => self.on_toast_dismiss(generation, f, out),
            _ => {},
        }
    }

    /// Handles an event.
    pub fn update(&mut self, m: Message, f: ShellFacts) -> (r: Vec<Effect>)
        ensures
            (final(self)@, r@) == old(self)@.updated(m, f),
    {
        let ghost want = self@.updated(m, f).1;
        let mut out: Vec<Effect> = Vec::new();
        self.dispatch(m, f, &mut out);
        assert(Seq::<Effect>::empty() + want =~= want);
        out
    }

    /// Begins a look at what pads do on the start screen. What is asked for comes before the
    /// pads are read, and of their input counts what the gates let through.
    pub fn begin_start_nav(&mut self, f: StartFacts) -> (r: NavLook)
        ensures
            (final(self)@, r.effects@) == old(self)@.nav_begun(f),
            r.gates == start_input::gates(old(self).nav, f),
    {
        let ghost start = self@;
        self.diag.missing_warned = false;
        let mut out: Vec<Effect> = Vec::new();
        if !f.animating {
            out.push(Effect::Start(StartEffect::RefreshControllers));
            out.push(Effect::RefreshRunning);
        }
        out.push(Effect::TickAnimation);
        assert(self@ =~= start.nav_begun(f).0);
        assert(out@ =~= start.nav_begun(f).1);
        NavLook { effects: out, gates: nav_gates(&self.nav, f) }
    }

    /// Takes what pads did since the last look, with the facts that the look began with.
    pub fn handle_start_nav_readings(&mut self, p: PadsTick, key: KeyHold, f: StartFacts) -> (r:
        Vec<Effect>)
        ensures
            (final(self)@, r@) == old(self)@.pads_handled(p, key, f),
    {
        let ghost start = self@;
        let mut out: Vec<Effect> = Vec::new();
        if p.sampled {
            out.push(Effect::LogNav);
        }
        let waits = self.diag.note_arming(p.armed, p.unarmed);
        if waits && p.sampled {
            out.push(Effect::WarnUnarmed);
        }
        self.pad_held = p.held;
        out.push(Effect::DrawHeld(merged_held(self.pad_held, self.keys)));
        assert(out@ =~= start.pads_shown(p));
        let more = handle_start_nav(&mut self.nav, &mut self.keys, p.tick, key, f);
        self.absorb(more.as_slice(), &mut out);
        out
    }

    /// Opens the start screen as window `id`, or brings it to the front.
    pub fn open_start_screen(&mut self, enabled: bool, now_ms: u64, id: u64) -> (r: Vec<Effect>)
        ensures
            (final(self)@, r@) == old(self)@.start_opened(enabled, now_ms, id),
    {
        let ghost start = self@;
        let mut out: Vec<Effect> = Vec::new();
        if !enabled {
            assert(out@ =~= start.start_opened(enabled, now_ms, id).1);
            return out;
        }
        self.nav.editing = false;
        self.nav.replace_next = None;
        self.nav.cross_progress = 0;
        self.nav.triangle_progress = 0;
        self.keys = KeyHolds { confirm: false, cancel: false };
        self.pad_held = FaceHeld::none();
        out.push(Effect::Start(StartEffect::DropDraft));
        out.push(Effect::Start(StartEffect::RefreshRows));
        out.push(Effect::Start(StartEffect::RefreshControllers));
        out.push(Effect::Start(StartEffect::ResetToGames));
        out.push(Effect::PreparePads);
        out.push(Effect::Start(StartEffect::KeyboardHoldReset));
        assert(out@ =~= open_effects());
        assert(self@ =~= start.start_prepared());
        if let Some(i) = self.windows.start {
            out.push(Effect::CheckRunning);
            out.push(Effect::Window(WindowEffect::Focus(i)));
        } else {
            self.nav_ready = false;
            self.diag = NavDiag::new();
            self.diag.opened_at_ms = Some(now_ms);
            out.push(Effect::ResetGestures);
            out.push(Effect::CheckRunning);
            self.open(WindowRole::Start, id, &mut out);
        }
        assert(out@ =~= start.start_opened(enabled, now_ms, id).1);
        out
    }

    /// Starts the application; `crashed` when it was restarted after a crash. The toast window
    /// gets the id `id`.
    pub fn boot(now_ms: u64, crashed: bool, id: u64) -> (r: (Shell, Vec<Effect>))
        ensures
            (r.0@, r.1@) == ShellView::booted(now_ms, crashed, id),
    {
        let mut out: Vec<Effect> = Vec::new();
        let mut shell = Shell {
            windows: Windows::none(),
            nav: StartNav::new(),
            keys: KeyHolds { confirm: false, cancel: false },
            pad_held: FaceHeld::none(),
            toasts: Toasts::new(now_ms),
            diag: NavDiag::new(),
            nav_ready: false,
            popup_measured: false,
        };
        assert(shell@ =~= ShellView::fresh(now_ms));
        out.push(Effect::CreateTray);
        out.push(Effect::SyncRows);
        out.push(Effect::SyncLowBattery);
        out.push(Effect::RefreshAnalyticsPage);
        out.push(Effect::RequestRefresh);
        assert(out@ =~= boot_effects());
        shell.ensure_toast(id, &mut out);
        let ghost ensured = shell@;
        let had = shell.toasts.window;
        let more = shell.toasts.maybe_show_crash_restart_toast(crashed);
        shell.adopt_toasts(had, more.as_slice(), id, &mut out, Ghost(ensured));
        out.push(Effect::ScanSteam);
        assert(out@ =~= ShellView::booted(now_ms, crashed, id).1);
        (shell, out)
    }
}

// ---------------------------------------------------------------------------
// Laws
// ---------------------------------------------------------------------------

/// However the application goes on, the toast window is known wherever it exists.
pub proof fn law_toast_window_is_known(s: ShellView, m: Message, f: ShellFacts)
    requires
        s.wf(),
    ensures
        s.updated(m, f).0.wf(),
{
    match m {
        Message::StartFrame => {
            lemma_framed(s, f.key);
        },
        Message::Start(sm) => {
            let q = start::message_result(s.nav, sm, f.start);
            lemma_keeps_toasts(ShellView { nav: q.0, ..s }, q.1);
        },
        Message::StartKey { id, action, pressed } => {
            lemma_keyed(s, id, action, pressed, f);
        },
        Message::WindowUnfocused(_) | Message::MacroFocusDone { .. } => {
            lemma_keeps_toasts(
                ShellView { nav: s.nav.screen_closed(), ..s },
                start::close_screen_effects(),
            );
        },
        Message::ToastFrame | Message::ToastDismiss(_) => {
            lemma_toasts_open_only(s.toasts, f);
        },
        Message::WindowClosed(id) => {
            lemma_gone(s, id, f.next_id);
        },
        _ => {},
    }
}

proof fn lemma_gone(s: ShellView, id: u64, next_id: u64)
    requires
        s.wf(),
    ensures
        s.window_gone(id, next_id).0.wf(),
{
}

proof fn lemma_framed(s: ShellView, key: KeyHold)
    ensures
        s.start_framed(key).0.toasts == s.toasts,
        s.start_framed(key).0.windows == s.windows,
{
    let shown = StartNav {
        cross_progress: start_input::larger(s.nav.cross_progress, key.progress),
        ..s.nav
    };
    let r = start_input::replace_result(shown);
    lemma_keeps_toasts(
        ShellView { nav: r.0, keys: KeyHolds { confirm: false, ..s.keys }, ..s },
        seq![StartEffect::Sound(UiSoundKind::Hold)] + r.1,
    );
}

proof fn lemma_keyed(s: ShellView, id: u64, action: StartKeyAction, pressed: bool, f: ShellFacts)
    ensures
        s.keyed(id, action, pressed, f).0.toasts == s.toasts,
        s.keyed(id, action, pressed, f).0.windows == s.windows,
{
    let r = start_input::key_result(s.nav, s.keys, action, pressed, f.start);
    lemma_keeps_toasts(ShellView { nav: r.0, keys: r.1, ..s }, r.2);
}

/// Pad input on the start screen opens and forgets no window, and leaves toasts alone.
pub proof fn law_pad_input_keeps_windows(s: ShellView, p: PadsTick, key: KeyHold, f: StartFacts)
    ensures
        s.pads_handled(p, key, f).0.toasts == s.toasts,
        s.pads_handled(p, key, f).0.windows == s.windows,
{
    let r = start_input::tick_result(s.nav, p.tick, key, f);
    lemma_keeps_toasts(
        ShellView {
            nav: r.0,
            keys: start_input::keys_after(s.keys, s.nav, p.tick, key, f),
            ..s.pads_taken(p)
        },
        r.1,
    );
}

/// That pads have to be let go is said once: not again before one of them may navigate.
pub proof fn law_waiting_pads_are_told_once(s: ShellView, p: PadsTick, later: PadsTick)
    requires
        s.pads_shown(p).contains(Effect::WarnUnarmed) || (s.diag.unarmed_warned && p.armed == 0),
    ensures
        !s.pads_taken(p).pads_shown(later).contains(Effect::WarnUnarmed),
        s.pads_taken(p).diag.unarmed_warned,
{
    let shown = s.pads_shown(p);
    if shown.contains(Effect::WarnUnarmed) {
        assert(s.diag.waits(p.armed, p.unarmed));
    }
}

proof fn lemma_toasts_open_only(t: toast::ToastsView, f: ShellFacts)
    ensures
        t.window ==> t.animated(f.now_ms, f.slide_ms).0.window,
        t.window ==> t.dismissed(f.now_ms, f.slide_ms).0.window,
{
}

proof fn lemma_keeps_toasts(s: ShellView, more: Seq<StartEffect>)
    ensures
        s.absorbed(more).0.toasts == s.toasts,
        s.absorbed(more).0.windows == s.windows,
    decreases more.len(),
{
    if more.len() > 0 {
        lemma_keeps_toasts(s, more.drop_last());
    }
}

/// A start screen that is closed takes no more input, and gives up what was edited on it.
pub proof fn law_closed_start_screen_is_quiet(s: ShellView)
    ensures
        ({
            let r = s.start_closed();
            &&& !r.0.nav_ready
            &&& !r.0.nav.editing
            &&& r.0.nav.overlay == Overlay::Closed
            &&& r.0.nav.replace_next is None
            &&& r.1.contains(Effect::Start(StartEffect::DropDraft))
            &&& s.windows.start matches Some(i) ==> r.1.last() == Effect::Window(
                WindowEffect::Close(i),
            )
        }),
{
    let base = ShellView { nav: s.nav.screen_closed(), ..s };
    let e = start::close_screen_effects();
    let e3 = e.drop_last();
    let e2 = e3.drop_last();
    let e1 = e2.drop_last();
    assert(e1.drop_last() =~= Seq::<StartEffect>::empty());
    let a3 = base.absorbed(e3);
    assert(base.absorbed(Seq::<StartEffect>::empty()) == (base, Seq::<Effect>::empty()));
    assert(base.absorbed(e1) == (base, Seq::<Effect>::empty().push(Effect::Start(e1.last()))));
    assert(base.absorbed(e2).0 == base);
    assert(a3.0 == base);
    assert(a3.1[2] == Effect::Start(StartEffect::DropDraft));
    let r = base.absorbed(e);
    assert(r.1 == a3.1 + base.start_close_effects());
    assert(r.1[2] == Effect::Start(StartEffect::DropDraft));
}

/// A form, an overlay or a file dialog of the start screen that takes the focus does not close
/// it.
pub proof fn law_own_dialogs_keep_the_start_screen(s: ShellView, id: u64, typing: bool)
    requires
        s.windows.start == Some(id),
        s.windows.popup != Some(id),
        s.nav.manual_add || s.nav.overlay != Overlay::Closed || s.nav.file_dialog,
    ensures
        s.unfocused(id, typing) == (s, Seq::<Effect>::empty()),
{
}

/// Clicking the tray icon twice, once the first flyout is gone, leaves no flyout.
pub proof fn law_tray_click_toggles(s: ShellView, id: u64, next_id: u64)
    requires
        s.windows.popup is None,
        s.windows.role(id) is None,
    ensures
        s.popup_toggled(id).0.windows.popup == Some(id),
        s.popup_toggled(id).0.popup_toggled(next_id).1.contains(
            Effect::Window(WindowEffect::Close(id)),
        ),
        s.popup_toggled(id).0.window_gone(id, next_id).0.windows == s.windows,
{
    let t = s.popup_toggled(id).0;
    let c = t.popup_toggled(next_id).1;
    assert(c[2] == Effect::Window(WindowEffect::Close(id)));
}

} // verus!
