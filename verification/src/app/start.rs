//! The start screen: what its messages, keys and pad input lead to.
use crate::platform::UiSoundKind;
use vstd::prelude::*;

verus! {

/// Page of the start screen.
#[derive(Debug, Clone, Copy, PartialEq, Eq, Structural)]
pub enum StartSlide {
    Games,
    Controllers,
}

/// Macro overlay on top of the start screen.
#[derive(Debug, Clone, Copy, PartialEq, Eq, Structural)]
pub enum Overlay {
    Closed,
    /// Macros of a game, to run or to edit.
    List { run_mode: bool },
    /// One macro in the editor.
    Edit,
}

/// Which way a selection is scrolled into view.
#[derive(Debug, Clone, Copy, PartialEq, Eq, Structural)]
pub enum ScrollReveal {
    Up,
    Down,
    Either,
}

/// Face buttons that are drawn pressed.
#[derive(Debug, Clone, Copy, PartialEq, Eq, Structural)]
pub struct FaceHeld {
    pub cross: bool,
    pub circle: bool,
    pub triangle: bool,
    pub square: bool,
}

impl FaceHeld {
    /// No button is held.
    pub open spec fn blank() -> FaceHeld {
        FaceHeld { cross: false, circle: false, triangle: false, square: false }
    }

    /// No button is held.
    pub fn none() -> (r: FaceHeld)
        ensures
            r == FaceHeld::blank(),
    {
        FaceHeld { cross: false, circle: false, triangle: false, square: false }
    }
}

/// State of the start screen that decisions read. Progress counts thousandths.
#[derive(Debug, Clone, Copy, PartialEq, Eq, Structural)]
pub struct StartNav {
    pub editing: bool,
    pub overlay: Overlay,
    /// A shortcut is being added or edited.
    pub manual_add: bool,
    /// Place of the row to launch once replacing the running game is confirmed.
    pub replace_next: Option<usize>,
    pub rows: usize,
    pub game_selected: usize,
    pub pads: usize,
    pub pad_selected: usize,
    pub macro_rows: usize,
    pub macro_selected: usize,
    /// A file dialog that the start screen opened is up.
    pub file_dialog: bool,
    pub cross_progress: u16,
    pub triangle_progress: u16,
}

/// What is known of the selected row.
#[derive(Debug, Clone, Copy, PartialEq, Eq, Structural)]
pub struct RowFacts {
    pub in_catalog: bool,
    /// It is the running game.
    pub running: bool,
    pub has_macros: bool,
    /// It is a shortcut in the edit list.
    pub manual: bool,
}

/// What is known from elsewhere when the start screen gets a message.
#[derive(Debug, Clone, Copy, PartialEq, Eq, Structural)]
pub struct StartFacts {
    pub slide: StartSlide,
    /// A slide is moving.
    pub animating: bool,
    pub window_open: bool,
    /// The selected row.
    pub row: Option<RowFacts>,
    /// The selected pad is connected.
    pub pad_connected: bool,
    /// The selected pad can be powered off.
    pub pad_powers_off: bool,
}

/// A message of the start screen.
#[derive(Debug, Clone, Copy, PartialEq, Eq, Structural)]
pub enum StartMessage {
    Launch(usize),
    SelectController(usize),
    MoveUp,
    MoveDown,
    Confirm,
    Close,
    PrevSlide,
    NextSlide,
    ToggleEdit,
    CycleSort,
    AddShortcut,
    EditManual,
    OpenMacros,
    MacroSelect(usize),
    MacroAdd,
    MacroImport,
    MacroImportPaste,
    MacroCopyCatalog,
    MacroCopySelected,
    MacroEditSelected,
    MacroRemoveSelected,
    MacroEditName,
    MacroEditAction,
    MacroEditSave,
    GamesScrolled,
    ControllersScrolled,
    ManualAddTitle,
    ManualAddArgs,
    ManualPickIcon,
    ManualClearIcon,
    ReportLightbarFailure,
    ReportInputFailure,
}

/// Something that the start screen asks for.
#[derive(Debug, Clone, Copy, PartialEq, Eq, Structural)]
pub enum StartEffect {
    /// Holds in progress are given up, on pads and keyboard.
    CancelHolds,
    /// Holds in progress on pads are given up.
    CancelPadHolds,
    Sound(UiSoundKind),
    /// Move the selection of the list in front.
    MoveSelection { down: bool },
    /// Scroll the selection into view.
    Scroll(ScrollReveal),
    /// Scroll the selection to the middle, even if it is in view.
    ScrollCenter { force: bool },
    RequestSlide(StartSlide),
    RefreshRows,
    RefreshControllers,
    /// Put the selected game in or out of the edited catalog.
    ToggleSelected,
    LaunchSelected,
    /// Launch the selected game in place of the one that was closed.
    LaunchReplacement,
    CloseRunningGame,
    /// End the running game if it is the selected one.
    CloseRunningIfSelected,
    IdentifySelected,
    PowerOffSelected,
    /// Remember which row editing began at.
    CaptureAnchor,
    CopyDraft,
    CommitDraft,
    DropDraft,
    /// Select the row that editing began at.
    SelectAnchor,
    RestoreAnchor,
    CycleSortMode,
    ToggleShowAll,
    SavePrefs,
    PickShortcut,
    PickIcon,
    LoadManualDraft,
    ConfirmManual,
    SetManualTitle,
    SetManualArgs,
    ClearManualIcon,
    /// Give the game its header and list its macros.
    OpenMacroList,
    ShowMacroList,
    EditNewMacro,
    EditSelectedMacro,
    SetMacroName,
    SetMacroAction,
    SaveMacroEditor,
    SaveMacros,
    RemoveSelectedMacro,
    RunSelectedMacro,
    ReadClipboard,
    /// Import what was pasted; [`StartNav::after_import`] takes what came of it.
    ImportMacros,
    CopyCatalog,
    CopySelected,
    NoteScroll(StartSlide),
    ResetToGames,
    CloseWindow,
    KeyboardHoldReset,
    KeyboardHoldCancel,
    /// Draw the face buttons that pads and keys hold.
    SyncHeld,
    /// Move the hints for presses and holds on.
    TickHints,
    MarkLightbarHitch,
    MarkInputHitch,
}

// ---------------------------------------------------------------------------
// Layers
// ---------------------------------------------------------------------------

impl StartNav {
    /// Whether something on top of the page takes its input.
    pub open spec fn blocked(self) -> bool {
        self.overlay != Overlay::Closed || self.manual_add || self.replace_next is Some
    }

    /// The page without hold progress.
    pub open spec fn released(self) -> StartNav {
        StartNav { cross_progress: 0, triangle_progress: 0, ..self }
    }

    /// The page with the edit, and what stands on it, thrown away.
    pub open spec fn edit_dropped(self) -> StartNav {
        StartNav { editing: false, manual_add: false, overlay: Overlay::Closed, ..self }
    }

    /// Number of layers that closing takes away one by one before the screen itself.
    pub open spec fn layers(self) -> nat {
        (match self.overlay {
            Overlay::Closed => 0nat,
            Overlay::List { .. } => 1nat,
            Overlay::Edit => 2nat,
        }) + (if self.manual_add {
            1nat
        } else {
            0nat
        }) + (if self.replace_next is Some {
            1nat
        } else {
            0nat
        }) + (if self.editing {
            1nat
        } else {
            0nat
        })
    }

    /// Whether selections lie in their lists.
    pub open spec fn wf(self) -> bool {
        &&& self.rows > 0 ==> self.game_selected < self.rows
        &&& self.pads > 0 ==> self.pad_selected < self.pads
        &&& self.macro_rows > 0 ==> self.macro_selected < self.macro_rows
    }

    /// Executable form of [`StartNav::blocked`].
    pub fn overlay_blocking(&self) -> (r: bool)
        ensures
            r == self.blocked(),
    {
        !matches!(self.overlay, Overlay::Closed) || self.manual_add || self.replace_next.is_some()
    }
}

/// Action sound.
pub open spec fn action() -> StartEffect {
    StartEffect::Sound(UiSoundKind::Action)
}

/// Navigation sound.
pub open spec fn nav_sound() -> StartEffect {
    StartEffect::Sound(UiSoundKind::Nav)
}

/// Whether a message leaves holds in progress alone.
pub open spec fn keeps_holds(m: StartMessage) -> bool {
    match m {
        StartMessage::GamesScrolled
        | StartMessage::ControllersScrolled
        | StartMessage::ManualAddTitle
        | StartMessage::ManualAddArgs
        | StartMessage::MacroEditName
        | StartMessage::MacroEditAction
        | StartMessage::ReportLightbarFailure
        | StartMessage::ReportInputFailure => true,
        _ => false,
    }
}

/// Closing: the topmost layer goes, and the screen itself when there is none.
pub open spec fn close_result(n: StartNav, f: StartFacts) -> (StartNav, Seq<StartEffect>) {
    if n.overlay == Overlay::Edit {
        (
            StartNav { overlay: Overlay::List { run_mode: false }, ..n },
            seq![action(), StartEffect::ShowMacroList, StartEffect::RefreshRows],
        )
    } else if n.overlay != Overlay::Closed {
        (StartNav { overlay: Overlay::Closed, ..n }, seq![action()])
    } else if n.manual_add {
        (StartNav { manual_add: false, ..n }, seq![action()])
    } else if n.replace_next is Some {
        (StartNav { replace_next: None, ..n }, seq![action()])
    } else if n.editing {
        (
            n.edit_dropped(),
            seq![
                action(),
                StartEffect::DropDraft,
                StartEffect::RefreshRows,
                StartEffect::SelectAnchor,
                StartEffect::ScrollCenter { force: true },
            ],
        )
    } else if f.window_open {
        (n.screen_closed(), seq![action()] + close_screen_effects())
    } else {
        (n, seq![])
    }
}

/// What closing the screen asks for.
pub open spec fn close_screen_effects() -> Seq<StartEffect> {
    seq![
        StartEffect::KeyboardHoldReset,
        StartEffect::ResetToGames,
        StartEffect::DropDraft,
        StartEffect::CloseWindow,
    ]
}

impl StartNav {
    /// The state of a closed screen.
    pub open spec fn screen_closed(self) -> StartNav {
        StartNav { replace_next: None, ..self.edit_dropped().released() }
    }
}

/// Confirming: what the topmost layer, or the selection on the page, does. Replacing the
/// running game takes a hold instead.
pub open spec fn confirm_result(n: StartNav, f: StartFacts) -> (StartNav, Seq<StartEffect>) {
    match n.overlay {
        Overlay::Edit => (n, seq![action(), StartEffect::SaveMacroEditor]),
        Overlay::List { run_mode } => if run_mode {
            (n, seq![action(), StartEffect::RunSelectedMacro])
        } else if n.macro_selected < n.macro_rows {
            (
                StartNav { overlay: Overlay::Edit, ..n },
                seq![action(), StartEffect::EditSelectedMacro],
            )
        } else {
            (n, seq![action()])
        },
        Overlay::Closed => if n.manual_add {
            (
                StartNav { manual_add: false, ..n },
                seq![
                    action(),
                    StartEffect::ConfirmManual,
                    StartEffect::RefreshRows,
                    StartEffect::Scroll(ScrollReveal::Either),
                ],
            )
        } else if n.replace_next is Some {
            (n, seq![])
        } else {
            match f.slide {
                StartSlide::Games => if n.editing {
                    (n, seq![StartEffect::ToggleSelected])
                } else {
                    (n, seq![StartEffect::LaunchSelected])
                },
                StartSlide::Controllers => if f.pad_connected {
                    (n, seq![StartEffect::IdentifySelected])
                } else {
                    (n, seq![])
                },
            }
        },
    }
}

/// Turning the page: an edit in progress is thrown away.
pub open spec fn slide_result(n: StartNav, to: StartSlide) -> (StartNav, Seq<StartEffect>) {
    if n.blocked() {
        (n, seq![])
    } else if n.editing {
        (
            n.edit_dropped(),
            seq![
                StartEffect::DropDraft,
                StartEffect::RefreshRows,
                StartEffect::RequestSlide(to),
            ],
        )
    } else {
        (n, seq![StartEffect::RequestSlide(to)])
    }
}

/// Beginning or saving an edit of the catalog.
pub open spec fn edit_result(n: StartNav, f: StartFacts) -> (StartNav, Seq<StartEffect>) {
    if f.slide != StartSlide::Games || n.blocked() || f.animating {
        (n, seq![])
    } else if n.editing {
        (
            StartNav { editing: false, overlay: Overlay::Closed, ..n },
            seq![
                StartEffect::CommitDraft,
                StartEffect::RefreshRows,
                StartEffect::RestoreAnchor,
                action(),
                StartEffect::ScrollCenter { force: false },
            ],
        )
    } else {
        (
            StartNav { editing: true, ..n },
            seq![
                StartEffect::CaptureAnchor,
                StartEffect::CopyDraft,
                StartEffect::RefreshRows,
                StartEffect::SelectAnchor,
                action(),
                StartEffect::ScrollCenter { force: true },
            ],
        )
    }
}

/// Changing the order of games, or which pads are listed.
pub open spec fn sort_result(n: StartNav, f: StartFacts) -> (StartNav, Seq<StartEffect>) {
    if n.blocked() || (f.slide == StartSlide::Games && n.editing) {
        (n, seq![])
    } else if f.slide == StartSlide::Games {
        (
            n,
            seq![
                StartEffect::CycleSortMode,
                StartEffect::SavePrefs,
                StartEffect::RefreshRows,
                action(),
                StartEffect::Scroll(ScrollReveal::Either),
            ],
        )
    } else {
        (
            n,
            seq![
                StartEffect::ToggleShowAll,
                StartEffect::SavePrefs,
                StartEffect::RefreshControllers,
                action(),
                StartEffect::Scroll(ScrollReveal::Either),
            ],
        )
    }
}

/// Whether the selected row's macros can be opened, and to be run: a running game's macros are
/// run, and in an edit those of any game in the catalog are edited.
pub open spec fn macros_open(n: StartNav, f: StartFacts) -> Option<bool> {
    match f.row {
        Some(row) => {
            let run_mode = !n.editing && row.running && row.has_macros;
            if row.in_catalog && (n.editing || run_mode) {
                Some(run_mode)
            } else {
                None
            }
        },
        None => None,
    }
}

/// What a message does, holds aside.
pub open spec fn message_effect(
    n: StartNav,
    m: StartMessage,
    f: StartFacts,
) -> (StartNav, Seq<StartEffect>) {
    match m {
        StartMessage::Launch(i) => (
            StartNav {
                game_selected: if i < n.rows {
                    i
                } else {
                    n.game_selected
                },
                ..n
            },
            seq![
                StartEffect::Scroll(ScrollReveal::Either),
                if n.editing {
                    StartEffect::ToggleSelected
                } else {
                    StartEffect::LaunchSelected
                },
            ],
        ),
        StartMessage::SelectController(i) => if i < n.pads && n.pad_selected != i {
            (
                StartNav { pad_selected: i, ..n },
                seq![nav_sound(), StartEffect::Scroll(ScrollReveal::Either)],
            )
        } else {
            (n, seq![StartEffect::Scroll(ScrollReveal::Either)])
        },
        StartMessage::MoveUp => (n, seq![StartEffect::MoveSelection { down: false }]),
        StartMessage::MoveDown => (n, seq![StartEffect::MoveSelection { down: true }]),
        StartMessage::Confirm => confirm_result(n, f),
        StartMessage::Close => close_result(n, f),
        StartMessage::PrevSlide => slide_result(n, StartSlide::Games),
        StartMessage::NextSlide => slide_result(n, StartSlide::Controllers),
        StartMessage::ToggleEdit => edit_result(n, f),
        StartMessage::CycleSort => sort_result(n, f),
        StartMessage::AddShortcut => if n.editing && !n.blocked() {
            (StartNav { file_dialog: true, ..n }, seq![action(), StartEffect::PickShortcut])
        } else {
            (n, seq![])
        },
        StartMessage::EditManual => if n.editing && !n.blocked() && (f.row matches Some(row)
            && row.manual) {
            (StartNav { manual_add: true, ..n }, seq![StartEffect::LoadManualDraft, action()])
        } else {
            (n, seq![])
        },
        StartMessage::OpenMacros => match macros_open(n, f) {
            Some(run_mode) => (
                StartNav { overlay: Overlay::List { run_mode }, ..n },
                seq![action(), StartEffect::OpenMacroList],
            ),
            None => (n, seq![action()]),
        },
        StartMessage::MacroSelect(i) => if n.overlay is List && i < n.macro_rows {
            (StartNav { macro_selected: i, ..n }, seq![nav_sound()])
        } else {
            (n, seq![])
        },
        StartMessage::MacroAdd => if n.overlay != Overlay::Closed {
            (StartNav { overlay: Overlay::Edit, ..n }, seq![action(), StartEffect::EditNewMacro])
        } else {
            (n, seq![action()])
        },
        StartMessage::MacroImport => (n, seq![action(), StartEffect::ReadClipboard]),
        StartMessage::MacroImportPaste => if n.overlay != Overlay::Closed {
            (n, seq![StartEffect::ImportMacros])
        } else {
            (n, seq![])
        },
        StartMessage::MacroCopyCatalog => if n.overlay is List {
            (n, seq![StartEffect::CopyCatalog])
        } else {
            (n, seq![])
        },
        StartMessage::MacroCopySelected => if n.overlay is List && n.macro_selected
            < n.macro_rows {
            (n, seq![StartEffect::CopySelected])
        } else {
            (n, seq![])
        },
        StartMessage::MacroEditSelected => if n.overlay is List && n.macro_selected
            < n.macro_rows {
            (
                StartNav { overlay: Overlay::Edit, ..n },
                seq![action(), StartEffect::EditSelectedMacro],
            )
        } else {
            (n, seq![action()])
        },
        StartMessage::MacroRemoveSelected => if n.overlay == (Overlay::List { run_mode: false })
            && n.macro_selected < n.macro_rows {
            (
                n,
                seq![action(), StartEffect::RemoveSelectedMacro, StartEffect::RefreshRows],
            )
        } else {
            (n, seq![action()])
        },
        StartMessage::MacroEditName => if n.overlay == Overlay::Edit {
            (n, seq![StartEffect::SetMacroName])
        } else {
            (n, seq![])
        },
        StartMessage::MacroEditAction => if n.overlay == Overlay::Edit {
            (n, seq![StartEffect::SetMacroAction])
        } else {
            (n, seq![])
        },
        StartMessage::MacroEditSave => if n.overlay == Overlay::Edit {
            (n, seq![action(), StartEffect::SaveMacroEditor])
        } else {
            (n, seq![action()])
        },
        StartMessage::GamesScrolled => (n, seq![StartEffect::NoteScroll(StartSlide::Games)]),
        StartMessage::ControllersScrolled => (
            n,
            seq![StartEffect::NoteScroll(StartSlide::Controllers)],
        ),
        StartMessage::ManualAddTitle => if n.manual_add {
            (n, seq![StartEffect::SetManualTitle])
        } else {
            (n, seq![])
        },
        StartMessage::ManualAddArgs => if n.manual_add {
            (n, seq![StartEffect::SetManualArgs])
        } else {
            (n, seq![])
        },
        StartMessage::ManualPickIcon => (
            StartNav { file_dialog: true, ..n },
            seq![action(), StartEffect::PickIcon],
        ),
        StartMessage::ManualClearIcon => if n.manual_add {
            (n, seq![StartEffect::ClearManualIcon, action()])
        } else {
            (n, seq![])
        },
        StartMessage::ReportLightbarFailure => (n, seq![StartEffect::MarkLightbarHitch]),
        StartMessage::ReportInputFailure => (n, seq![StartEffect::MarkInputHitch]),
    }
}

/// What a message does.
pub open spec fn message_result(
    n: StartNav,
    m: StartMessage,
    f: StartFacts,
) -> (StartNav, Seq<StartEffect>) {
    if keeps_holds(m) {
        message_effect(n, m, f)
    } else {
        let r = message_effect(n.released(), m, f);
        (r.0, seq![StartEffect::CancelHolds] + r.1)
    }
}

// ---------------------------------------------------------------------------
// Messages
// ---------------------------------------------------------------------------

fn push_two(out: &mut Vec<StartEffect>, a: StartEffect, b: StartEffect)
    ensures
        final(out)@ == old(out)@ + seq![a, b],
{
    let ghost before = out@;
    out.push(a);
    out.push(b);
    assert(out@ =~= before + seq![a, b]);
}

impl StartNav {
    /// A start screen that was never shown.
    pub fn new() -> (r: Self)
        ensures
            r == (StartNav {
                editing: false,
                overlay: Overlay::Closed,
                manual_add: false,
                replace_next: None,
                rows: 0,
                game_selected: 0,
                pads: 0,
                pad_selected: 0,
                macro_rows: 0,
                macro_selected: 0,
                file_dialog: false,
                cross_progress: 0,
                triangle_progress: 0,
            }),
    {
        StartNav {
            editing: false,
            overlay: Overlay::Closed,
            manual_add: false,
            replace_next: None,
            rows: 0,
            game_selected: 0,
            pads: 0,
            pad_selected: 0,
            macro_rows: 0,
            macro_selected: 0,
            file_dialog: false,
            cross_progress: 0,
            triangle_progress: 0,
        }
    }

    fn drop_edit(&mut self)
        ensures
            *final(self) == old(self).edit_dropped(),
    {
        self.editing = false;
        self.manual_add = false;
        self.overlay = Overlay::Closed;
    }

    fn close_screen(&mut self, out: &mut Vec<StartEffect>)
        ensures
            *final(self) == old(self).screen_closed(),
            final(out)@ == old(out)@ + close_screen_effects(),
    {
        let ghost before = out@;
        self.drop_edit();
        self.cross_progress = 0;
        self.triangle_progress = 0;
        self.replace_next = None;
        push_two(out, StartEffect::KeyboardHoldReset, StartEffect::ResetToGames);
        push_two(out, StartEffect::DropDraft, StartEffect::CloseWindow);
        assert(out@ =~= before + close_screen_effects());
    }

    /// Closes the start screen.
    pub fn close_start_screen(&mut self) -> (r: Vec<StartEffect>)
        ensures
            *final(self) == old(self).screen_closed(),
            r@ == close_screen_effects(),
    {
        let mut out: Vec<StartEffect> = Vec::new();
        self.close_screen(&mut out);
        assert(out@ =~= close_screen_effects());
        out
    }

    fn on_close(&mut self, f: StartFacts, out: &mut Vec<StartEffect>)
        ensures
            *final(self) == close_result(*old(self), f).0,
            final(out)@ == old(out)@ + close_result(*old(self), f).1,
    {
        let ghost before = out@;
        let ghost start = *self;
        let sound = StartEffect::Sound(UiSoundKind::Action);
        if self.overlay == Overlay::Edit {
            self.overlay = Overlay::List { run_mode: false };
            out.push(sound);
            push_two(out, StartEffect::ShowMacroList, StartEffect::RefreshRows);
        } else if self.overlay != Overlay::Closed {
            self.overlay = Overlay::Closed;
            out.push(sound);
        } else if self.manual_add {
            self.manual_add = false;
            out.push(sound);
        } else if self.replace_next.is_some() {
            self.replace_next = None;
            out.push(sound);
        } else if self.editing {
            self.drop_edit();
            out.push(sound);
            push_two(out, StartEffect::DropDraft, StartEffect::RefreshRows);
            push_two(out, StartEffect::SelectAnchor, StartEffect::ScrollCenter { force: true });
        } else if f.window_open {
            out.push(sound);
            self.close_screen(out);
        }
        assert(out@ =~= before + close_result(start, f).1);
    }

    fn on_confirm(&mut self, f: StartFacts, out: &mut Vec<StartEffect>)
        ensures
            *final(self) == confirm_result(*old(self), f).0,
            final(out)@ == old(out)@ + confirm_result(*old(self), f).1,
    {
        let ghost before = out@;
        let ghost start = *self;
        let sound = StartEffect::Sound(UiSoundKind::Action);
        match self.overlay {
            Overlay::Edit => {
                push_two(out, sound, StartEffect::SaveMacroEditor);
            },
            Overlay::List { run_mode } => {
                out.push(sound);
                if run_mode {
                    out.push(StartEffect::RunSelectedMacro);
                } else if self.macro_selected < self.macro_rows {
                    self.overlay = Overlay::Edit;
                    out.push(StartEffect::EditSelectedMacro);
                }
            },
            Overlay::Closed => {
                if self.manual_add {
                    self.manual_add = false;
                    push_two(out, sound, StartEffect::ConfirmManual);
                    push_two(
                        out,
                        StartEffect::RefreshRows,
                        StartEffect::Scroll(ScrollReveal::Either),
                    );
                } else if self.replace_next.is_none() {
                    match f.slide {
                        StartSlide::Games => {
                            if self.editing {
                                out.push(StartEffect::ToggleSelected);
                            } else {
                                out.push(StartEffect::LaunchSelected);
                            }
                        },
                        StartSlide::Controllers => {
                            if f.pad_connected {
                                out.push(StartEffect::IdentifySelected);
                            }
                        },
                    }
                }
            },
        }
        assert(out@ =~= before + confirm_result(start, f).1);
    }

    fn on_slide(&mut self, to: StartSlide, out: &mut Vec<StartEffect>)
        ensures
            *final(self) == slide_result(*old(self), to).0,
            final(out)@ == old(out)@ + slide_result(*old(self), to).1,
    {
        let ghost before = out@;
        let ghost start = *self;
        if !self.overlay_blocking() {
            if self.editing {
                self.drop_edit();
                push_two(out, StartEffect::DropDraft, StartEffect::RefreshRows);
            }
            out.push(StartEffect::RequestSlide(to));
        }
        assert(out@ =~= before + slide_result(start, to).1);
    }

    fn on_toggle_edit(&mut self, f: StartFacts, out: &mut Vec<StartEffect>)
        ensures
            *final(self) == edit_result(*old(self), f).0,
            final(out)@ == old(out)@ + edit_result(*old(self), f).1,
    {
        let ghost before = out@;
        let ghost start = *self;
        let sound = StartEffect::Sound(UiSoundKind::Action);
        if f.slide == StartSlide::Games && !self.overlay_blocking() && !f.animating {
            if self.editing {
                self.editing = false;
                self.overlay = Overlay::Closed;
                push_two(out, StartEffect::CommitDraft, StartEffect::RefreshRows);
                push_two(out, StartEffect::RestoreAnchor, sound);
                out.push(StartEffect::ScrollCenter { force: false });
            } else {
                self.editing = true;
                push_two(out, StartEffect::CaptureAnchor, StartEffect::CopyDraft);
                push_two(out, StartEffect::RefreshRows, StartEffect::SelectAnchor);
                push_two(out, sound, StartEffect::ScrollCenter { force: true });
            }
        }
        assert(out@ =~= before + edit_result(start, f).1);
    }

    fn on_cycle_sort(&mut self, f: StartFacts, out: &mut Vec<StartEffect>)
        ensures
            *final(self) == sort_result(*old(self), f).0,
            final(out)@ == old(out)@ + sort_result(*old(self), f).1,
    {
        let ghost before = out@;
        let ghost start = *self;
        let sound = StartEffect::Sound(UiSoundKind::Action);
        let games = f.slide == StartSlide::Games;
        if !self.overlay_blocking() && !(games && self.editing) {
            if games {
                push_two(out, StartEffect::CycleSortMode, StartEffect::SavePrefs);
                out.push(StartEffect::RefreshRows);
            } else {
                push_two(out, StartEffect::ToggleShowAll, StartEffect::SavePrefs);
                out.push(StartEffect::RefreshControllers);
            }
            push_two(out, sound, StartEffect::Scroll(ScrollReveal::Either));
        }
        assert(out@ =~= before + sort_result(start, f).1);
    }

    fn on_open_macros(&mut self, f: StartFacts, out: &mut Vec<StartEffect>)
        ensures
            *final(self) == message_effect(*old(self), StartMessage::OpenMacros, f).0,
            final(out)@ == old(out)@ + message_effect(*old(self), StartMessage::OpenMacros, f).1,
    {
        let ghost before = out@;
        let ghost start = *self;
        out.push(StartEffect::Sound(UiSoundKind::Action));
        if let Some(row) = f.row {
            let run_mode = !self.editing && row.running && row.has_macros;
            if row.in_catalog && (self.editing || run_mode) {
                self.overlay = Overlay::List { run_mode };
                out.push(StartEffect::OpenMacroList);
            }
        }
        assert(out@ =~= before + message_effect(start, StartMessage::OpenMacros, f).1);
    }

    fn on_macro_message(&mut self, m: StartMessage, f: StartFacts, out: &mut Vec<StartEffect>)
        requires
            m is MacroSelect || m is MacroAdd || m is MacroImport || m is MacroImportPaste || m
                is MacroCopyCatalog || m is MacroCopySelected || m is MacroEditSelected || m
                is MacroRemoveSelected || m is MacroEditName || m is MacroEditAction || m
                is MacroEditSave,
        ensures
            *final(self) == message_effect(*old(self), m, f).0,
            final(out)@ == old(out)@ + message_effect(*old(self), m, f).1,
    {
        let ghost before = out@;
        let ghost start = *self;
        let sound = StartEffect::Sound(UiSoundKind::Action);
        let list = matches!(self.overlay, Overlay::List { .. });
        let edit = matches!(self.overlay, Overlay::Edit);
        let chosen = self.macro_selected < self.macro_rows;
        match m {
            StartMessage::MacroSelect(i) => {
                if list && i < self.macro_rows {
                    self.macro_selected = i;
                    out.push(StartEffect::Sound(UiSoundKind::Nav));
                }
            },
            StartMessage::MacroAdd => {
                out.push(sound);
                if list || edit {
                    self.overlay = Overlay::Edit;
                    out.push(StartEffect::EditNewMacro);
                }
            },
            StartMessage::MacroImport => {
                push_two(out, sound, StartEffect::ReadClipboard);
            },
            StartMessage::MacroImportPaste => {
                if list || edit {
                    out.push(StartEffect::ImportMacros);
                }
            },
            StartMessage::MacroCopyCatalog => {
                if list {
                    out.push(StartEffect::CopyCatalog);
                }
            },
            StartMessage::MacroCopySelected => {
                if list && chosen {
                    out.push(StartEffect::CopySelected);
                }
            },
            StartMessage::MacroEditSelected => {
                out.push(sound);
                if list && chosen {
                    self.overlay = Overlay::Edit;
                    out.push(StartEffect::EditSelectedMacro);
                }
            },
            StartMessage::MacroRemoveSelected => {
                out.push(sound);
                if self.overlay == (Overlay::List { run_mode: false }) && chosen {
                    push_two(out, StartEffect::RemoveSelectedMacro, StartEffect::RefreshRows);
                }
            },
            StartMessage::MacroEditName => {
                if edit {
                    out.push(StartEffect::SetMacroName);
                }
            },
            StartMessage::MacroEditAction => {
                if edit {
                    out.push(StartEffect::SetMacroAction);
                }
            },
            _ => {
                out.push(sound);
                if edit {
                    out.push(StartEffect::SaveMacroEditor);
                }
            },
        }
        assert(out@ =~= before + message_effect(start, m, f).1);
    }

    fn on_manual_message(&mut self, m: StartMessage, f: StartFacts, out: &mut Vec<StartEffect>)
        requires
            m is AddShortcut || m is EditManual || m is ManualAddTitle || m is ManualAddArgs || m
                is ManualPickIcon || m is ManualClearIcon,
        ensures
            *final(self) == message_effect(*old(self), m, f).0,
            final(out)@ == old(out)@ + message_effect(*old(self), m, f).1,
    {
        let ghost before = out@;
        let ghost start = *self;
        let sound = StartEffect::Sound(UiSoundKind::Action);
        match m {
            StartMessage::AddShortcut => {
                if self.editing && !self.overlay_blocking() {
                    self.file_dialog = true;
                    push_two(out, sound, StartEffect::PickShortcut);
                }
            },
            StartMessage::EditManual => {
                let manual = match f.row {
                    Some(row) => row.manual,
                    None => false,
                };
                if self.editing && !self.overlay_blocking() && manual {
                    self.manual_add = true;
                    push_two(out, StartEffect::LoadManualDraft, sound);
                }
            },
            StartMessage::ManualAddTitle => {
                if self.manual_add {
                    out.push(StartEffect::SetManualTitle);
                }
            },
            StartMessage::ManualAddArgs => {
                if self.manual_add {
                    out.push(StartEffect::SetManualArgs);
                }
            },
            StartMessage::ManualPickIcon => {
                self.file_dialog = true;
                push_two(out, sound, StartEffect::PickIcon);
            },
            _ => {
                if self.manual_add {
                    push_two(out, StartEffect::ClearManualIcon, sound);
                }
            },
        }
        assert(out@ =~= before + message_effect(start, m, f).1);
    }

    fn on_select_message(&mut self, m: StartMessage, f: StartFacts, out: &mut Vec<StartEffect>)
        requires
            m is Launch || m is SelectController || m is MoveUp || m is MoveDown,
        ensures
            *final(self) == message_effect(*old(self), m, f).0,
            final(out)@ == old(out)@ + message_effect(*old(self), m, f).1,
    {
        let ghost before = out@;
        let ghost start = *self;
        let sound = StartEffect::Sound(UiSoundKind::Nav);
        match m {
            StartMessage::Launch(i) => {
                if i < self.rows {
                    self.game_selected = i;
                }
                out.push(StartEffect::Scroll(ScrollReveal::Either));
                if self.editing {
                    out.push(StartEffect::ToggleSelected);
                } else {
                    out.push(StartEffect::LaunchSelected);
                }
            },
            StartMessage::SelectController(i) => {
                if i < self.pads && self.pad_selected != i {
                    self.pad_selected = i;
                    out.push(sound);
                }
                out.push(StartEffect::Scroll(ScrollReveal::Either));
            },
            StartMessage::MoveUp => out.push(StartEffect::MoveSelection { down: false }),
            _ => out.push(StartEffect::MoveSelection { down: true }),
        }
        assert(out@ =~= before + message_effect(start, m, f).1);
    }

    /// Takes a message of the start screen.
    pub fn on_start_message(&mut self, m: StartMessage, f: StartFacts) -> (r: Vec<StartEffect>)
        ensures
            (*final(self), r@) == message_result(*old(self), m, f),
    {
        let mut out: Vec<StartEffect> = Vec::new();
        let keeps = matches!(
            m,
            StartMessage::GamesScrolled | StartMessage::ControllersScrolled
                | StartMessage::ManualAddTitle | StartMessage::ManualAddArgs
                | StartMessage::MacroEditName | StartMessage::MacroEditAction
                | StartMessage::ReportLightbarFailure | StartMessage::ReportInputFailure
        );
        if !keeps {
            self.cross_progress = 0;
            self.triangle_progress = 0;
            out.push(StartEffect::CancelHolds);
        }
        let ghost before = out@;
        match m {
            StartMessage::Launch(_)
            | StartMessage::SelectController(_)
            | StartMessage::MoveUp
            | StartMessage::MoveDown => self.on_select_message(m, f, &mut out),
            StartMessage::Confirm => self.on_confirm(f, &mut out),
            StartMessage::Close => self.on_close(f, &mut out),
            StartMessage::PrevSlide => self.on_slide(StartSlide::Games, &mut out),
            StartMessage::NextSlide => self.on_slide(StartSlide::Controllers, &mut out),
            StartMessage::ToggleEdit => self.on_toggle_edit(f, &mut out),
            StartMessage::CycleSort => self.on_cycle_sort(f, &mut out),
            StartMessage::OpenMacros => self.on_open_macros(f, &mut out),
            StartMessage::AddShortcut
            | StartMessage::EditManual
            | StartMessage::ManualAddTitle
            | StartMessage::ManualAddArgs
            | StartMessage::ManualPickIcon
            | StartMessage::ManualClearIcon => self.on_manual_message(m, f, &mut out),
            StartMessage::GamesScrolled => out.push(StartEffect::NoteScroll(StartSlide::Games)),
            StartMessage::ControllersScrolled => out.push(
                StartEffect::NoteScroll(StartSlide::Controllers),
            ),
            StartMessage::ReportLightbarFailure => out.push(StartEffect::MarkLightbarHitch),
            StartMessage::ReportInputFailure => out.push(StartEffect::MarkInputHitch),
            _ => self.on_macro_message(m, f, &mut out),
        }
        assert(out@ =~= message_result(*old(self), m, f).1);
        out
    }
}

} // verus!
