//! Keys and pad input on the start screen, and what follows its requests.
use crate::app::macro_overlay;
use crate::app::macro_overlay::MacroOverlay;
use crate::app::macros;
use crate::app::polling::StartKeyAction;
use crate::app::rows;
use crate::app::start;
use crate::app::start::{
    FaceHeld, Overlay, ScrollReveal, StartEffect, StartFacts, StartMessage, StartNav, StartSlide,
};
use crate::platform::UiSoundKind;
use vstd::prelude::*;

verus! {

/// Keys of the keyboard that are held on the start screen.
#[derive(Debug, Clone, Copy, PartialEq, Eq, Structural)]
pub struct KeyHolds {
    pub confirm: bool,
    pub cancel: bool,
}

/// What pads ask of the start screen.
#[derive(Debug, Clone, Copy, PartialEq, Eq, Structural)]
pub enum NavAction {
    Up,
    Down,
    Confirm,
    Cancel,
    PrevSlide,
    NextSlide,
    ToggleEdit,
    CycleSort,
    Triangle,
    Macros,
}

/// Which pad input counts at the moment.
#[derive(Debug, Clone, Copy, PartialEq, Eq, Structural)]
pub struct NavGates {
    /// Moves and presses, beyond turning the page and closing.
    pub move_selection: bool,
    /// Holding the cross confirms replacing the running game.
    pub hold_cross_replace: bool,
    /// Buttons of an edit.
    pub edit_buttons: bool,
    /// Holding the cross closes the running game.
    pub hold_cross_close: bool,
    /// Holding the triangle powers the selected pad off.
    pub hold_triangle_power: bool,
}

/// What pads did since the last look.
#[derive(Debug, Clone, Copy, PartialEq, Eq, Structural)]
pub struct NavTick {
    pub action: Option<NavAction>,
    pub cross_progress: u16,
    pub cross_completed: bool,
    pub triangle_progress: u16,
    pub triangle_completed: bool,
}

/// How far Enter has been held to replace the running game.
#[derive(Debug, Clone, Copy, PartialEq, Eq, Structural)]
pub struct KeyHold {
    pub progress: u16,
    pub completed: bool,
}

/// What launching the selected game came to.
#[derive(Debug, Clone, Copy, PartialEq, Eq, Structural)]
pub enum LaunchOutcome {
    /// There was nothing to launch, or it runs already.
    Nothing,
    /// Another game runs: the user is asked.
    Asked,
    Launched,
    Failed,
}

/// Appends effects.
pub fn push_effects(out: &mut Vec<StartEffect>, more: &[StartEffect])
    ensures
        final(out)@ == old(out)@ + more@,
{
    let ghost before = out@;
    let mut i: usize = 0;
    while i < more.len()
        invariant
            i <= more@.len(),
            out@ == before + more@.take(i as int),
        decreases more@.len() - i,
    {
        out.push(more[i]);
        assert(out@ =~= before + more@.take(i + 1));
        i = i + 1;
    }
    assert(more@.take(i as int) =~= more@);
}

// ---------------------------------------------------------------------------
// What follows requests
// ---------------------------------------------------------------------------

/// The selection was moved, or was at its end.
pub fn after_move(moved: Option<ScrollReveal>, down: bool) -> (r: Vec<StartEffect>)
    ensures
        r@ == match moved {
            Some(d) => seq![start::nav_sound(), StartEffect::Scroll(d)],
            None => seq![
                StartEffect::Scroll(
                    if down {
                        ScrollReveal::Down
                    } else {
                        ScrollReveal::Up
                    },
                ),
            ],
        },
{
    let mut out: Vec<StartEffect> = Vec::new();
    match moved {
        Some(d) => {
            out.push(StartEffect::Sound(UiSoundKind::Nav));
            out.push(StartEffect::Scroll(d));
            assert(out@ =~= seq![start::nav_sound(), StartEffect::Scroll(d)]);
        },
        None => {
            let to = if down {
                ScrollReveal::Down
            } else {
                ScrollReveal::Up
            };
            out.push(StartEffect::Scroll(to));
            assert(out@ =~= seq![StartEffect::Scroll(to)]);
        },
    }
    out
}

/// The selected game was put in or out of the edited catalog, or nothing changed.
pub fn after_toggle(changed: bool) -> (r: Vec<StartEffect>)
    ensures
        r@ == (if changed {
            seq![
                StartEffect::RefreshRows,
                start::action(),
                StartEffect::Scroll(ScrollReveal::Either),
            ]
        } else {
            seq![]
        }),
{
    let mut out: Vec<StartEffect> = Vec::new();
    if changed {
        out.push(StartEffect::RefreshRows);
        out.push(StartEffect::Sound(UiSoundKind::Action));
        out.push(StartEffect::Scroll(ScrollReveal::Either));
        assert(out@ =~= seq![
            StartEffect::RefreshRows,
            start::action(),
            StartEffect::Scroll(ScrollReveal::Either),
        ]);
    }
    out
}

/// A request that sounds only when it did something: identifying a pad, copying macros.
pub fn after_request(done: bool) -> (r: Vec<StartEffect>)
    ensures
        r@ == (if done {
            seq![start::action()]
        } else {
            seq![]
        }),
{
    let mut out: Vec<StartEffect> = Vec::new();
    if done {
        out.push(StartEffect::Sound(UiSoundKind::Action));
        assert(out@ =~= seq![start::action()]);
    }
    out
}

/// What saving the macro editor leads to: on success the list comes back.
pub open spec fn saved_result(n: StartNav, saved: bool) -> (StartNav, Seq<StartEffect>) {
    if saved {
        (
            StartNav { overlay: Overlay::List { run_mode: false }, ..n },
            seq![StartEffect::SaveMacros, StartEffect::ShowMacroList, StartEffect::RefreshRows],
        )
    } else {
        (n, seq![])
    }
}

/// Overlay of the start screen that shows a macro overlay.
pub open spec fn overlay_of(o: macro_overlay::OverlayView) -> Overlay {
    match o {
        macro_overlay::OverlayView::List { run_mode, .. } => Overlay::List { run_mode },
        macro_overlay::OverlayView::Edit { .. } => Overlay::Edit,
    }
}

/// The page in line with what the macro overlay shows.
pub open spec fn in_line(n: StartNav, o: macro_overlay::OverlayView) -> StartNav {
    match o {
        macro_overlay::OverlayView::List { rows, selected, .. } => StartNav {
            overlay: overlay_of(o),
            macro_rows: rows.len() as usize,
            macro_selected: selected,
            ..n
        },
        macro_overlay::OverlayView::Edit { .. } => StartNav { overlay: overlay_of(o), ..n },
    }
}

/// What an import leads to: the page follows the overlay, and macros that came in are saved.
pub open spec fn imported_result(
    n: StartNav,
    o: macro_overlay::OverlayView,
    written: bool,
) -> (StartNav, Seq<StartEffect>) {
    (
        in_line(n, o),
        if written {
            seq![StartEffect::SaveMacros, StartEffect::RefreshRows]
        } else {
            seq![]
        },
    )
}

/// What launching the selected game leads to.
pub open spec fn launched_result(n: StartNav, outcome: LaunchOutcome) -> (
    StartNav,
    Seq<StartEffect>,
) {
    match outcome {
        LaunchOutcome::Asked => (
            StartNav { replace_next: Some(n.game_selected), ..n },
            seq![start::action()],
        ),
        LaunchOutcome::Launched => (n, seq![start::action()]),
        _ => (n, seq![]),
    }
}

/// Replacing the running game, once confirmed by a hold.
pub open spec fn replace_result(n: StartNav) -> (StartNav, Seq<StartEffect>) {
    match n.replace_next {
        Some(k) => (
            StartNav { replace_next: None, cross_progress: 0, game_selected: k, ..n },
            seq![
                StartEffect::KeyboardHoldReset,
                StartEffect::CloseRunningGame,
                StartEffect::LaunchReplacement,
            ],
        ),
        None => (n, seq![]),
    }
}

impl StartNav {
    /// The macro editor was saved, or refused.
    pub fn after_macro_save(&mut self, saved: bool) -> (r: Vec<StartEffect>)
        ensures
            (*final(self), r@) == saved_result(*old(self), saved),
    {
        let mut out: Vec<StartEffect> = Vec::new();
        if saved {
            self.overlay = Overlay::List { run_mode: false };
            out.push(StartEffect::SaveMacros);
            out.push(StartEffect::ShowMacroList);
            out.push(StartEffect::RefreshRows);
        }
        assert(out@ =~= saved_result(*old(self), saved).1);
        out
    }

    /// Brings the page in line with what the macro overlay shows.
    pub fn follow_overlay(&mut self, o: &MacroOverlay)
        ensures
            *final(self) == in_line(*old(self), o@),
    {
        match o {
            MacroOverlay::List { run_mode, rows, selected, .. } => {
                self.overlay = Overlay::List { run_mode: *run_mode };
                self.macro_rows = rows.len();
                self.macro_selected = *selected;
            },
            MacroOverlay::Edit { .. } => {
                self.overlay = Overlay::Edit;
            },
        }
    }

    /// Pasted macros were imported, or refused, which `shown` tells; `written` when the library
    /// is to be written.
    pub fn after_import(&mut self, shown: &MacroOverlay, written: bool) -> (r: Vec<StartEffect>)
        ensures
            (*final(self), r@) == imported_result(*old(self), shown@, written),
    {
        let mut out: Vec<StartEffect> = Vec::new();
        self.follow_overlay(shown);
        if written {
            out.push(StartEffect::SaveMacros);
            out.push(StartEffect::RefreshRows);
        }
        assert(out@ =~= imported_result(*old(self), shown@, written).1);
        out
    }

    /// The selected game was launched, or not.
    pub fn after_launch(&mut self, outcome: LaunchOutcome) -> (r: Vec<StartEffect>)
        ensures
            (*final(self), r@) == launched_result(*old(self), outcome),
    {
        let mut out: Vec<StartEffect> = Vec::new();
        match outcome {
            LaunchOutcome::Asked => {
                self.replace_next = Some(self.game_selected);
                out.push(StartEffect::Sound(UiSoundKind::Action));
            },
            LaunchOutcome::Launched => out.push(StartEffect::Sound(UiSoundKind::Action)),
            _ => {},
        }
        assert(out@ =~= launched_result(*old(self), outcome).1);
        out
    }

    /// Replaces the running game, once confirmed by a hold.
    pub fn complete_replace_confirm(&mut self, keys: &mut KeyHolds) -> (r: Vec<StartEffect>)
        ensures
            (*final(self), r@) == replace_result(*old(self)),
            *final(keys) == (KeyHolds {
                confirm: old(keys).confirm && old(self).replace_next is None,
                ..*old(keys)
            }),
    {
        let mut out: Vec<StartEffect> = Vec::new();
        if let Some(k) = self.replace_next {
            self.replace_next = None;
            self.cross_progress = 0;
            self.game_selected = k;
            keys.confirm = false;
            out.push(StartEffect::KeyboardHoldReset);
            out.push(StartEffect::CloseRunningGame);
            out.push(StartEffect::LaunchReplacement);
        }
        assert(out@ =~= replace_result(*old(self)).1);
        out
    }
}

/// Face buttons that pads and keys hold.
pub open spec fn held_of(pad: FaceHeld, keys: KeyHolds) -> FaceHeld {
    FaceHeld { cross: pad.cross || keys.confirm, circle: pad.circle || keys.cancel, ..pad }
}

/// Face buttons that pads and keys hold.
pub fn merged_held(pad: FaceHeld, keys: KeyHolds) -> (r: FaceHeld)
    ensures
        r == held_of(pad, keys),
{
    let mut held = pad;
    if keys.confirm {
        held.cross = true;
    }
    if keys.cancel {
        held.circle = true;
    }
    held
}

// ---------------------------------------------------------------------------
// Keys
// ---------------------------------------------------------------------------

/// Giving up holds, then a message.
pub open spec fn fresh_message(n: StartNav, m: StartMessage, f: StartFacts) -> (
    StartNav,
    Seq<StartEffect>,
) {
    let r = start::message_result(n.released(), m, f);
    (r.0, seq![StartEffect::CancelHolds] + r.1)
}

/// What a key does on the start screen: arrows at once, Enter and Escape when released. While
/// replacing the running game is to be confirmed, Enter only holds.
pub open spec fn key_result(
    n: StartNav,
    keys: KeyHolds,
    action: StartKeyAction,
    pressed: bool,
    f: StartFacts,
) -> (StartNav, KeyHolds, Seq<StartEffect>) {
    match action {
        StartKeyAction::Up => if pressed {
            let r = fresh_message(n, StartMessage::MoveUp, f);
            (r.0, keys, r.1)
        } else {
            (n, keys, seq![])
        },
        StartKeyAction::Down => if pressed {
            let r = fresh_message(n, StartMessage::MoveDown, f);
            (r.0, keys, r.1)
        } else {
            (n, keys, seq![])
        },
        StartKeyAction::Confirm => {
            let held = KeyHolds { confirm: pressed, ..keys };
            if n.replace_next is Some {
                (
                    n,
                    held,
                    if pressed {
                        seq![StartEffect::SyncHeld, StartEffect::CancelPadHolds]
                    } else {
                        seq![StartEffect::SyncHeld]
                    },
                )
            } else if !pressed {
                let r = fresh_message(n, StartMessage::Confirm, f);
                (r.0, held, seq![StartEffect::SyncHeld] + r.1)
            } else {
                (n, held, seq![StartEffect::SyncHeld])
            }
        },
        StartKeyAction::Cancel => {
            let held = KeyHolds { cancel: pressed, ..keys };
            if !pressed {
                let r = fresh_message(n, StartMessage::Close, f);
                (r.0, held, seq![StartEffect::SyncHeld] + r.1)
            } else {
                (n, held, seq![StartEffect::SyncHeld])
            }
        },
    }
}

fn fresh(n: &mut StartNav, m: StartMessage, f: StartFacts, out: &mut Vec<StartEffect>)
    ensures
        *final(n) == fresh_message(*old(n), m, f).0,
        final(out)@ == old(out)@ + fresh_message(*old(n), m, f).1,
{
    let ghost before = out@;
    let ghost start = *n;
    n.cross_progress = 0;
    n.triangle_progress = 0;
    out.push(StartEffect::CancelHolds);
    let more = n.on_start_message(m, f);
    push_effects(out, more.as_slice());
    assert(out@ =~= before + fresh_message(start, m, f).1);
}

/// Takes a key on the start screen.
pub fn on_start_key(
    n: &mut StartNav,
    keys: &mut KeyHolds,
    action: StartKeyAction,
    pressed: bool,
    f: StartFacts,
) -> (r: Vec<StartEffect>)
    ensures
        (*final(n), *final(keys), r@) == key_result(*old(n), *old(keys), action, pressed, f),
{
    let mut out: Vec<StartEffect> = Vec::new();
    match action {
        StartKeyAction::Up => {
            if pressed {
                fresh(n, StartMessage::MoveUp, f, &mut out);
            }
        },
        StartKeyAction::Down => {
            if pressed {
                fresh(n, StartMessage::MoveDown, f, &mut out);
            }
        },
        StartKeyAction::Confirm => {
            keys.confirm = pressed;
            out.push(StartEffect::SyncHeld);
            if n.replace_next.is_some() {
                if pressed {
                    out.push(StartEffect::CancelPadHolds);
                }
            } else if !pressed {
                fresh(n, StartMessage::Confirm, f, &mut out);
            }
        },
        StartKeyAction::Cancel => {
            keys.cancel = pressed;
            out.push(StartEffect::SyncHeld);
            if !pressed {
                fresh(n, StartMessage::Close, f, &mut out);
            }
        },
    }
    assert(out@ =~= key_result(*old(n), *old(keys), action, pressed, f).2);
    out
}

// ---------------------------------------------------------------------------
// Pads
// ---------------------------------------------------------------------------

/// Whether the plain page is in front: no edit, nothing on top, nothing moving.
pub open spec fn plain(n: StartNav, f: StartFacts) -> bool {
    !n.editing && !n.blocked() && !f.animating
}

/// Which pad input counts.
pub open spec fn gates(n: StartNav, f: StartFacts) -> NavGates {
    NavGates {
        move_selection: !f.animating && n.replace_next is None && !n.manual_add && n.overlay
            != Overlay::Edit,
        hold_cross_replace: n.replace_next is Some && !f.animating,
        edit_buttons: n.editing && n.overlay == Overlay::Closed,
        hold_cross_close: plain(n, f) && f.slide == StartSlide::Games,
        hold_triangle_power: plain(n, f) && f.slide == StartSlide::Controllers,
    }
}

/// Which pad input counts.
pub fn nav_gates(n: &StartNav, f: StartFacts) -> (r: NavGates)
    ensures
        r == gates(*n, f),
{
    let plain_page = !n.editing && !n.overlay_blocking() && !f.animating;
    NavGates {
        move_selection: !f.animating && n.replace_next.is_none() && !n.manual_add && !matches!(
            n.overlay,
            Overlay::Edit
        ),
        hold_cross_replace: n.replace_next.is_some() && !f.animating,
        edit_buttons: n.editing && matches!(n.overlay, Overlay::Closed),
        hold_cross_close: plain_page && matches!(f.slide, StartSlide::Games),
        hold_triangle_power: plain_page && matches!(f.slide, StartSlide::Controllers),
    }
}

/// Message that an action means while a slide moves: only turning the page and closing.
pub open spec fn moving_message(a: NavAction) -> Option<StartMessage> {
    match a {
        NavAction::PrevSlide => Some(StartMessage::PrevSlide),
        NavAction::NextSlide => Some(StartMessage::NextSlide),
        NavAction::Cancel => Some(StartMessage::Close),
        _ => None,
    }
}

/// Message that an action means in a text form.
pub open spec fn form_message(a: NavAction) -> Option<StartMessage> {
    match a {
        NavAction::Confirm => Some(StartMessage::Confirm),
        NavAction::Cancel => Some(StartMessage::Close),
        _ => None,
    }
}

/// Message that an action means in the macro list.
pub open spec fn list_message(a: NavAction, run_mode: bool) -> Option<StartMessage> {
    match a {
        NavAction::Up => Some(StartMessage::MoveUp),
        NavAction::Down => Some(StartMessage::MoveDown),
        NavAction::Confirm => Some(StartMessage::Confirm),
        NavAction::Cancel => Some(StartMessage::Close),
        NavAction::CycleSort => if run_mode {
            None
        } else {
            Some(StartMessage::MacroCopySelected)
        },
        NavAction::ToggleEdit => if run_mode {
            None
        } else {
            Some(StartMessage::MacroRemoveSelected)
        },
        _ => None,
    }
}

/// Message that an action means on the page.
pub open spec fn page_message(a: NavAction, editing: bool) -> Option<StartMessage> {
    match a {
        NavAction::Up => Some(StartMessage::MoveUp),
        NavAction::Down => Some(StartMessage::MoveDown),
        NavAction::Confirm => Some(StartMessage::Confirm),
        NavAction::Cancel => Some(StartMessage::Close),
        NavAction::PrevSlide => Some(StartMessage::PrevSlide),
        NavAction::NextSlide => Some(StartMessage::NextSlide),
        NavAction::ToggleEdit => Some(StartMessage::ToggleEdit),
        NavAction::CycleSort => Some(StartMessage::CycleSort),
        NavAction::Triangle => if editing {
            Some(StartMessage::EditManual)
        } else {
            None
        },
        NavAction::Macros => Some(StartMessage::OpenMacros),
    }
}

/// A message that may be none.
pub open spec fn maybe_message(n: StartNav, m: Option<StartMessage>, f: StartFacts) -> (
    StartNav,
    Seq<StartEffect>,
) {
    match m {
        Some(m) => start::message_result(n, m, f),
        None => (n, seq![]),
    }
}

/// The larger of two progresses.
pub open spec fn larger(a: u16, b: u16) -> u16 {
    if a >= b {
        a
    } else {
        b
    }
}

/// Pad input while replacing the running game is to be confirmed: a completed hold does it,
/// the circle gives it up.
pub open spec fn replace_tick(n: StartNav, t: NavTick, key: KeyHold, f: StartFacts) -> (
    StartNav,
    Seq<StartEffect>,
) {
    let shown = StartNav {
        cross_progress: larger(t.cross_progress, key.progress),
        triangle_progress: 0,
        ..n
    };
    if t.cross_completed || key.completed {
        let r = replace_result(shown);
        (r.0, seq![StartEffect::TickHints, StartEffect::Sound(UiSoundKind::Hold)] + r.1)
    } else if t.action == Some(NavAction::Cancel) {
        let r = start::message_result(
            StartNav { cross_progress: 0, ..shown },
            StartMessage::Close,
            f,
        );
        (r.0, seq![StartEffect::TickHints, StartEffect::KeyboardHoldCancel] + r.1)
    } else {
        (shown, seq![StartEffect::TickHints])
    }
}

/// Effects of holds on the page.
pub open spec fn hold_effects(g: NavGates, t: NavTick, f: StartFacts) -> Seq<StartEffect> {
    (if g.hold_cross_close && t.cross_completed {
        seq![StartEffect::Sound(UiSoundKind::Hold), StartEffect::CloseRunningIfSelected]
    } else {
        seq![]
    }) + (if g.hold_triangle_power && t.triangle_completed {
        if f.pad_powers_off {
            seq![StartEffect::Sound(UiSoundKind::Hold), StartEffect::PowerOffSelected]
        } else {
            seq![StartEffect::Sound(UiSoundKind::Hold)]
        }
    } else {
        seq![]
    })
}

/// Pad input on the page: holds show their progress and act when completed; a hold that
/// closed the game does not also confirm.
pub open spec fn page_tick(n: StartNav, t: NavTick, f: StartFacts) -> (
    StartNav,
    Seq<StartEffect>,
) {
    let g = gates(n, f);
    let shown = StartNav {
        cross_progress: if g.hold_cross_close {
            t.cross_progress
        } else {
            0
        },
        triangle_progress: if g.hold_triangle_power {
            t.triangle_progress
        } else {
            0
        },
        ..n
    };
    let m = match t.action {
        Some(a) => if t.cross_completed && g.hold_cross_close {
            None
        } else {
            page_message(a, n.editing)
        },
        None => None,
    };
    let r = maybe_message(shown, m, f);
    (
        r.0,
        seq![StartEffect::KeyboardHoldReset] + hold_effects(g, t, f) + seq![
            StartEffect::TickHints,
        ] + r.1,
    )
}

/// What pad input does.
pub open spec fn tick_result(n: StartNav, t: NavTick, key: KeyHold, f: StartFacts) -> (
    StartNav,
    Seq<StartEffect>,
) {
    if f.animating {
        let r = maybe_message(
            n,
            match t.action {
                Some(a) => moving_message(a),
                None => None,
            },
            f,
        );
        (r.0, seq![StartEffect::TickHints] + r.1)
    } else if n.replace_next is Some {
        replace_tick(n, t, key, f)
    } else if n.manual_add || n.overlay == Overlay::Edit {
        let r = maybe_message(
            n.released(),
            match t.action {
                Some(a) => form_message(a),
                None => None,
            },
            f,
        );
        (r.0, seq![StartEffect::KeyboardHoldReset, StartEffect::TickHints] + r.1)
    } else if let Overlay::List { run_mode } = n.overlay {
        let r = maybe_message(
            n.released(),
            match t.action {
                Some(a) => list_message(a, run_mode),
                None => None,
            },
            f,
        );
        (r.0, seq![StartEffect::KeyboardHoldReset, StartEffect::TickHints] + r.1)
    } else {
        page_tick(n, t, f)
    }
}

/// Keys that count as held after pad input: Enter is let go once it replaced the running game.
pub open spec fn keys_after(
    keys: KeyHolds,
    n: StartNav,
    t: NavTick,
    key: KeyHold,
    f: StartFacts,
) -> KeyHolds {
    KeyHolds {
        confirm: keys.confirm && !(!f.animating && n.replace_next is Some && (t.cross_completed
            || key.completed)),
        ..keys
    }
}

fn moving_of(a: NavAction) -> (r: Option<StartMessage>)
    ensures
        r == moving_message(a),
{
    match a {
        NavAction::PrevSlide => Some(StartMessage::PrevSlide),
        NavAction::NextSlide => Some(StartMessage::NextSlide),
        NavAction::Cancel => Some(StartMessage::Close),
        _ => None,
    }
}

fn form_of(a: NavAction) -> (r: Option<StartMessage>)
    ensures
        r == form_message(a),
{
    match a {
        NavAction::Confirm => Some(StartMessage::Confirm),
        NavAction::Cancel => Some(StartMessage::Close),
        _ => None,
    }
}

fn list_of(a: NavAction, run_mode: bool) -> (r: Option<StartMessage>)
    ensures
        r == list_message(a, run_mode),
{
    match a {
        NavAction::Up => Some(StartMessage::MoveUp),
        NavAction::Down => Some(StartMessage::MoveDown),
        NavAction::Confirm => Some(StartMessage::Confirm),
        NavAction::Cancel => Some(StartMessage::Close),
        NavAction::CycleSort => if run_mode {
            None
        } else {
            Some(StartMessage::MacroCopySelected)
        },
        NavAction::ToggleEdit => if run_mode {
            None
        } else {
            Some(StartMessage::MacroRemoveSelected)
        },
        _ => None,
    }
}

fn page_of(a: NavAction, editing: bool) -> (r: Option<StartMessage>)
    ensures
        r == page_message(a, editing),
{
    match a {
        NavAction::Up => Some(StartMessage::MoveUp),
        NavAction::Down => Some(StartMessage::MoveDown),
        NavAction::Confirm => Some(StartMessage::Confirm),
        NavAction::Cancel => Some(StartMessage::Close),
        NavAction::PrevSlide => Some(StartMessage::PrevSlide),
        NavAction::NextSlide => Some(StartMessage::NextSlide),
        NavAction::ToggleEdit => Some(StartMessage::ToggleEdit),
        NavAction::CycleSort => Some(StartMessage::CycleSort),
        NavAction::Triangle => if editing {
            Some(StartMessage::EditManual)
        } else {
            None
        },
        NavAction::Macros => Some(StartMessage::OpenMacros),
    }
}

fn send(n: &mut StartNav, m: Option<StartMessage>, f: StartFacts, out: &mut Vec<StartEffect>)
    ensures
        *final(n) == maybe_message(*old(n), m, f).0,
        final(out)@ == old(out)@ + maybe_message(*old(n), m, f).1,
{
    if let Some(m) = m {
        let more = n.on_start_message(m, f);
        push_effects(out, more.as_slice());
    } else {
        assert(out@ =~= out@ + Seq::<StartEffect>::empty());
    }
}

fn on_page_tick(n: &mut StartNav, t: NavTick, f: StartFacts, out: &mut Vec<StartEffect>)
    ensures
        *final(n) == page_tick(*old(n), t, f).0,
        final(out)@ == old(out)@ + page_tick(*old(n), t, f).1,
{
    let ghost before = out@;
    let ghost start = *n;
    let g = nav_gates(n, f);
    let editing = n.editing;
    out.push(StartEffect::KeyboardHoldReset);
    n.cross_progress = 0;
    n.triangle_progress = 0;
    if g.hold_cross_close {
        n.cross_progress = t.cross_progress;
        if t.cross_completed {
            out.push(StartEffect::Sound(UiSoundKind::Hold));
            out.push(StartEffect::CloseRunningIfSelected);
        }
    }
    if g.hold_triangle_power {
        n.triangle_progress = t.triangle_progress;
        if t.triangle_completed {
            out.push(StartEffect::Sound(UiSoundKind::Hold));
            if f.pad_powers_off {
                out.push(StartEffect::PowerOffSelected);
            }
        }
    }
    out.push(StartEffect::TickHints);
    assert(out@ =~= before + (seq![StartEffect::KeyboardHoldReset] + hold_effects(g, t, f)
        + seq![StartEffect::TickHints]));
    let m = match t.action {
        Some(a) => if t.cross_completed && g.hold_cross_close {
            None
        } else {
            page_of(a, editing)
        },
        None => None,
    };
    send(n, m, f, out);
    assert(out@ =~= before + page_tick(start, t, f).1);
}

/// Takes what pads did since the last look.
pub fn handle_start_nav(
    n: &mut StartNav,
    keys: &mut KeyHolds,
    t: NavTick,
    key: KeyHold,
    f: StartFacts,
) -> (r: Vec<StartEffect>)
    ensures
        (*final(n), r@) == tick_result(*old(n), t, key, f),
        *final(keys) == keys_after(*old(keys), *old(n), t, key, f),
{
    let mut out: Vec<StartEffect> = Vec::new();
    let ghost start = *n;
    if f.animating {
        out.push(StartEffect::TickHints);
        let m = match t.action {
            Some(a) => moving_of(a),
            None => None,
        };
        send(n, m, f, &mut out);
    } else if n.replace_next.is_some() {
        n.cross_progress = if t.cross_progress >= key.progress {
            t.cross_progress
        } else {
            key.progress
        };
        n.triangle_progress = 0;
        out.push(StartEffect::TickHints);
        if t.cross_completed || key.completed {
            out.push(StartEffect::Sound(UiSoundKind::Hold));
            let more = n.complete_replace_confirm(keys);
            push_effects(&mut out, more.as_slice());
        } else if t.action == Some(NavAction::Cancel) {
            n.cross_progress = 0;
            out.push(StartEffect::KeyboardHoldCancel);
            send(n, Some(StartMessage::Close), f, &mut out);
        }
    } else if n.manual_add || n.overlay == Overlay::Edit {
        n.cross_progress = 0;
        n.triangle_progress = 0;
        out.push(StartEffect::KeyboardHoldReset);
        out.push(StartEffect::TickHints);
        let m = match t.action {
            Some(a) => form_of(a),
            None => None,
        };
        send(n, m, f, &mut out);
    } else if let Overlay::List { run_mode } = n.overlay {
        n.cross_progress = 0;
        n.triangle_progress = 0;
        out.push(StartEffect::KeyboardHoldReset);
        out.push(StartEffect::TickHints);
        let m = match t.action {
            Some(a) => list_of(a, run_mode),
            None => None,
        };
        send(n, m, f, &mut out);
    } else {
        on_page_tick(n, t, f, &mut out);
    }
    assert(out@ =~= tick_result(start, t, key, f).1);
    out
}

/// A frame of the start screen: Enter held alone can confirm replacing the running game.
pub fn on_start_frame(n: &mut StartNav, keys: &mut KeyHolds, key: KeyHold) -> (r: Vec<StartEffect>)
    ensures
        ({
            let shown = if old(n).replace_next is Some {
                StartNav {
                    cross_progress: larger(old(n).cross_progress, key.progress),
                    ..*old(n)
                }
            } else {
                *old(n)
            };
            if old(n).replace_next is Some && key.completed {
                &&& *final(n) == replace_result(shown).0
                &&& r@ == seq![StartEffect::Sound(UiSoundKind::Hold)] + replace_result(shown).1
                &&& *final(keys) == (KeyHolds { confirm: false, ..*old(keys) })
            } else {
                &&& *final(n) == shown
                &&& r@ == seq![StartEffect::SyncHeld, StartEffect::TickHints]
                &&& *final(keys) == *old(keys)
            }
        }),
{
    let mut out: Vec<StartEffect> = Vec::new();
    if n.replace_next.is_some() {
        if key.progress > n.cross_progress {
            n.cross_progress = key.progress;
        }
        if key.completed {
            out.push(StartEffect::Sound(UiSoundKind::Hold));
            let more = n.complete_replace_confirm(keys);
            push_effects(&mut out, more.as_slice());
            return out;
        }
    }
    out.push(StartEffect::SyncHeld);
    out.push(StartEffect::TickHints);
    assert(out@ =~= seq![StartEffect::SyncHeld, StartEffect::TickHints]);
    out
}

// ---------------------------------------------------------------------------
// Laws
// ---------------------------------------------------------------------------

/// Closing takes away exactly one layer, and the screen only when there is none.
pub proof fn law_close_takes_one_layer(n: StartNav, f: StartFacts)
    ensures
        n.layers() > 0 ==> start::close_result(n, f).0.layers() == n.layers() - 1
            && !start::close_result(n, f).1.contains(StartEffect::CloseWindow),
        n.layers() == 0 && f.window_open ==> start::close_result(n, f).1.contains(
            StartEffect::CloseWindow,
        ),
{
    let r = start::close_result(n, f).1;
    if n.layers() == 0 && f.window_open {
        assert(r[4] == StartEffect::CloseWindow);
    }
}

/// Under an overlay no page turns, no edit begins and no order changes.
pub proof fn law_overlay_blocks_the_page(n: StartNav, to: StartSlide, f: StartFacts)
    requires
        n.blocked(),
    ensures
        start::slide_result(n, to) == (n, Seq::<StartEffect>::empty()),
        start::edit_result(n, f) == (n, Seq::<StartEffect>::empty()),
        start::sort_result(n, f) == (n, Seq::<StartEffect>::empty()),
{
}

/// Selections stay in their lists, whatever the message.
pub proof fn law_selection_stays_in_range(n: StartNav, m: StartMessage, f: StartFacts)
    requires
        n.wf(),
    ensures
        start::message_result(n, m, f).0.wf(),
{
}

/// A confirm never launches a game while replacing the running one is to be confirmed.
pub proof fn law_confirm_does_not_replace(n: StartNav, f: StartFacts)
    requires
        n.replace_next is Some,
        n.overlay == Overlay::Closed,
        !n.manual_add,
    ensures
        start::confirm_result(n, f) == (n, Seq::<StartEffect>::empty()),
{
}

/// The running game is replaced only after a completed hold that confirms it.
pub proof fn law_replacing_takes_a_hold(n: StartNav, t: NavTick, key: KeyHold, f: StartFacts)
    requires
        tick_result(n, t, key, f).1.contains(StartEffect::LaunchReplacement),
    ensures
        n.replace_next is Some,
        !f.animating,
        t.cross_completed || key.completed,
{
    let e = tick_result(n, t, key, f).1;
    let i = choose|i: int| 0 <= i < e.len() && e[i] == StartEffect::LaunchReplacement;
    lemma_no_replacement(n, t, key, f, i);
}

/// A hold closes the running game, or powers a pad off, only on the plain page.
pub proof fn law_holds_act_on_the_plain_page(n: StartNav, t: NavTick, key: KeyHold, f: StartFacts)
    requires
        tick_result(n, t, key, f).1.contains(StartEffect::CloseRunningIfSelected) || tick_result(
            n,
            t,
            key,
            f,
        ).1.contains(StartEffect::PowerOffSelected),
    ensures
        plain(n, f),
{
    let e = tick_result(n, t, key, f).1;
    let i = choose|i: int|
        0 <= i < e.len() && (e[i] == StartEffect::CloseRunningIfSelected || e[i]
            == StartEffect::PowerOffSelected);
    assert(0 <= i < e.len() && (e[i] == StartEffect::CloseRunningIfSelected || e[i]
        == StartEffect::PowerOffSelected));
    lemma_no_replacement(n, t, key, f, i);
}

/// Importing into another game than the open one leaves that game's list, which is to be edited
/// and not to be run.
pub proof fn law_switching_import_leaves_the_edit_list(
    n: StartNav,
    o: macro_overlay::OverlayView,
    lib: macro_overlay::Library,
    rs: Seq<rows::StartRowView>,
    report: macros::ReportView,
)
    requires
        report matches macros::ReportView::Done { switched, .. } && switched,
    ensures
        imported_result(n, macro_overlay::shown_import(o, lib, rs, report), true).0.overlay == (
        Overlay::List { run_mode: false }),
        macro_overlay::shown_import(o, lib, rs, report).key() == report->play_key,
{
}

/// Whatever an import comes to, page and macro overlay show the same.
pub proof fn law_import_keeps_the_page_in_line(
    n: StartNav,
    o: macro_overlay::OverlayView,
    lib: macro_overlay::Library,
    rs: Seq<rows::StartRowView>,
    report: macros::ReportView,
)
    requires
        n.overlay == overlay_of(o),
    ensures
        ({
            let shown = macro_overlay::shown_import(o, lib, rs, report);
            let after = imported_result(n, shown, report is Done).0;
            &&& after.overlay == overlay_of(shown)
            &&& (report is Refused || !(report->switched)) ==> after.overlay == n.overlay
        }),
{
}

/// Whether no effect is one that only holds cause.
pub open spec fn unheld(e: Seq<StartEffect>) -> bool {
    forall|i: int|
        0 <= i < e.len() ==> #[trigger] e[i] != StartEffect::LaunchReplacement && e[i]
            != StartEffect::CloseRunningIfSelected && e[i] != StartEffect::PowerOffSelected
}

proof fn lemma_messages_do_not_replace(n: StartNav, m: StartMessage, f: StartFacts)
    ensures
        unheld(start::message_result(n, m, f).1),
{
    let e = start::message_effect(n, m, f).1;
    let r = start::message_effect(n.released(), m, f).1;
    assert(unheld(e));
    assert(unheld(r));
}

proof fn lemma_no_replacement(n: StartNav, t: NavTick, key: KeyHold, f: StartFacts, i: int)
    requires
        0 <= i < tick_result(n, t, key, f).1.len(),
    ensures
        tick_result(n, t, key, f).1[i] == StartEffect::LaunchReplacement ==> n.replace_next is Some
            && !f.animating && (t.cross_completed || key.completed),
        tick_result(n, t, key, f).1[i] == StartEffect::CloseRunningIfSelected ==> plain(n, f),
        tick_result(n, t, key, f).1[i] == StartEffect::PowerOffSelected ==> plain(n, f),
{
    assert forall|k: StartNav, m: StartMessage| unheld(
        (#[trigger] start::message_result(k, m, f)).1,
    ) by {
        lemma_messages_do_not_replace(k, m, f);
    }
}

} // verus!
