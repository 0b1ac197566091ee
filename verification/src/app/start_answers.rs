//! Laws on the start screen: what each message, button and key brings about.
use crate::app::polling::StartKeyAction;
use crate::app::start;
use crate::app::start::{
    FaceHeld, Overlay, StartEffect, StartFacts, StartMessage, StartNav, StartSlide,
};
use crate::app::start_input;
use crate::app::start_input::{KeyHold, KeyHolds, LaunchOutcome, NavAction, NavTick};
use vstd::prelude::*;

verus! {

/// The page itself is in front: no overlay, no form, no question.
pub open spec fn page_in_front(n: StartNav) -> bool {
    n.overlay == Overlay::Closed && !n.manual_add && n.replace_next is None
}

/// A row that is clicked is selected, and then launched, or put in or out of the list while that
/// is edited. A click behind the last row leaves the selection.
pub proof fn law_clicked_row_is_launched(n: StartNav, i: usize, f: StartFacts)
    ensures
        ({
            let (m, e) = start::message_result(n, StartMessage::Launch(i), f);
            &&& i < n.rows ==> m.game_selected == i
            &&& i >= n.rows ==> m.game_selected == n.game_selected
            &&& e.contains(StartEffect::LaunchSelected) <==> !n.editing
            &&& e.contains(StartEffect::ToggleSelected) <==> n.editing
        }),
{
    broadcast use vstd::seq_lib::group_seq_properties;

}

/// Confirming does one thing, by what is in front: the macro editor saves, the list of macros to
/// run runs one, the form is taken over; on the page a game is launched or, while the list is
/// edited, put in or out of it, and a connected pad is identified.
pub proof fn law_confirm_acts_on_what_is_in_front(n: StartNav, f: StartFacts)
    ensures
        ({
            let e = start::message_result(n, StartMessage::Confirm, f).1;
            let page = page_in_front(n);
            &&& e.contains(StartEffect::SaveMacroEditor) <==> n.overlay == Overlay::Edit
            &&& e.contains(StartEffect::RunSelectedMacro) <==> n.overlay == (Overlay::List {
                run_mode: true,
            })
            &&& e.contains(StartEffect::EditSelectedMacro) <==> n.overlay == (Overlay::List {
                run_mode: false,
            }) && n.macro_selected < n.macro_rows
            &&& e.contains(StartEffect::ConfirmManual) <==> n.overlay == Overlay::Closed
                && n.manual_add
            &&& e.contains(StartEffect::LaunchSelected) <==> page && f.slide == StartSlide::Games
                && !n.editing
            &&& e.contains(StartEffect::ToggleSelected) <==> page && f.slide == StartSlide::Games
                && n.editing
            &&& e.contains(StartEffect::IdentifySelected) <==> page && f.slide
                == StartSlide::Controllers && f.pad_connected
        }),
{
    broadcast use vstd::seq_lib::group_seq_properties;

}

/// Closing goes back one step at a time: from the macro editor to the list, from the list to the
/// page, out of the form, past the question, out of the edit with its draft dropped, and only
/// then is the window closed.
pub proof fn law_close_goes_back_one_step(n: StartNav, f: StartFacts)
    ensures
        ({
            let (m, e) = start::message_result(n, StartMessage::Close, f);
            let page = page_in_front(n);
            &&& n.overlay == Overlay::Edit ==> m.overlay == (Overlay::List { run_mode: false })
            &&& n.overlay is List ==> m.overlay == Overlay::Closed
            &&& n.overlay == Overlay::Closed && n.manual_add ==> !m.manual_add && m.editing
                == n.editing
            &&& n.overlay == Overlay::Closed && !n.manual_add && n.replace_next is Some
                ==> m.replace_next is None && m.editing == n.editing
            &&& e.contains(StartEffect::DropDraft) <==> page && (n.editing || f.window_open)
            &&& e.contains(StartEffect::CloseWindow) <==> page && !n.editing && f.window_open
            &&& !e.contains(StartEffect::CommitDraft)
        }),
{
    broadcast use vstd::seq_lib::group_seq_properties;

}

/// Editing begins with a copy of the catalog and ends with its draft kept; it begins and ends only
/// on the page of games that is in front and at rest.
pub proof fn law_edit_keeps_the_draft(n: StartNav, f: StartFacts)
    ensures
        ({
            let (m, e) = start::message_result(n, StartMessage::ToggleEdit, f);
            let may = page_in_front(n) && f.slide == StartSlide::Games && !f.animating;
            &&& m.editing == (if may {
                !n.editing
            } else {
                n.editing
            })
            &&& e.contains(StartEffect::CopyDraft) <==> may && !n.editing
            &&& e.contains(StartEffect::CommitDraft) <==> may && n.editing
            &&& !e.contains(StartEffect::DropDraft)
        }),
{
    broadcast use vstd::seq_lib::group_seq_properties;

}

/// The sort button cycles the order of the games, unless they are edited, and shows or hides
/// remembered pads on the other page; either is saved.
pub proof fn law_sort_button_is_saved(n: StartNav, f: StartFacts)
    ensures
        ({
            let (m, e) = start::message_result(n, StartMessage::CycleSort, f);
            let page = page_in_front(n);
            &&& e.contains(StartEffect::CycleSortMode) <==> page && f.slide == StartSlide::Games
                && !n.editing
            &&& e.contains(StartEffect::ToggleShowAll) <==> page && f.slide
                == StartSlide::Controllers
            &&& e.contains(StartEffect::SavePrefs) <==> e.contains(StartEffect::CycleSortMode)
                || e.contains(StartEffect::ToggleShowAll)
        }),
{
    broadcast use vstd::seq_lib::group_seq_properties;

}

/// A page turns where it is in front: to the games on one side, to the pads on the other. An edit
/// ends with its draft dropped.
pub proof fn law_pages_turn(n: StartNav, f: StartFacts)
    ensures
        ({
            let (m, e) = start::message_result(n, StartMessage::PrevSlide, f);
            let (p, g) = start::message_result(n, StartMessage::NextSlide, f);
            &&& e.contains(StartEffect::RequestSlide(StartSlide::Games)) <==> page_in_front(n)
            &&& !e.contains(StartEffect::RequestSlide(StartSlide::Controllers))
            &&& g.contains(StartEffect::RequestSlide(StartSlide::Controllers)) <==> page_in_front(n)
            &&& !g.contains(StartEffect::RequestSlide(StartSlide::Games))
            &&& page_in_front(n) ==> !m.editing && !p.editing
            &&& e.contains(StartEffect::DropDraft) <==> page_in_front(n) && n.editing
        }),
{
    broadcast use vstd::seq_lib::group_seq_properties;

}

/// Macros of a game of the catalog are listed to edit while the list of games is edited, and to
/// run while the game is running and has some; otherwise not at all.
pub proof fn law_macros_open_to_edit_or_run(n: StartNav, f: StartFacts)
    ensures
        start::macros_open(n, f) == Some(false) <==> n.editing && (f.row matches Some(r)
            && r.in_catalog),
        start::macros_open(n, f) == Some(true) <==> !n.editing && (f.row matches Some(r)
            && r.in_catalog && r.running && r.has_macros),
        start::macros_open(n, f) matches Some(run_mode) ==> start::message_result(
            n,
            StartMessage::OpenMacros,
            f,
        ).0.overlay == (Overlay::List { run_mode }),
{
}

/// Every message gives holds up, but for scrolling, typing, and reports of a failure.
pub proof fn law_messages_give_holds_up(n: StartNav, m: StartMessage, f: StartFacts)
    ensures
        ({
            let quiet = m is GamesScrolled || m is ControllersScrolled || m is ManualAddTitle || m
                is ManualAddArgs || m is MacroEditName || m is MacroEditAction || m
                is ReportLightbarFailure || m is ReportInputFailure;
            let (r, e) = start::message_result(n, m, f);
            &&& e.contains(StartEffect::CancelHolds) <==> !quiet
            &&& !quiet ==> r.cross_progress == 0 && r.triangle_progress == 0
        }),
{
    broadcast use vstd::seq_lib::group_seq_properties;

    let quiet = m is GamesScrolled || m is ControllersScrolled || m is ManualAddTitle || m
        is ManualAddArgs || m is MacroEditName || m is MacroEditAction || m is ReportLightbarFailure
        || m is ReportInputFailure;
    if !quiet {
        let e = start::message_result(n, m, f).1;
        assert(e[0] == StartEffect::CancelHolds);
    }
}

/// A macro is removed from the list to edit alone, with one selected; one is taken out at a time.
pub proof fn law_macros_are_removed_while_edited(n: StartNav, f: StartFacts)
    ensures
        start::message_result(n, StartMessage::MacroRemoveSelected, f).1.contains(
            StartEffect::RemoveSelectedMacro,
        ) <==> n.overlay == (Overlay::List { run_mode: false }) && n.macro_selected < n.macro_rows,
{
    broadcast use vstd::seq_lib::group_seq_properties;

}

/// On the page in front and at rest each button does its own thing: up and down move the
/// selection that way, left and right turn the page, and cross, circle and square confirm, close
/// and edit.
pub proof fn law_buttons_on_the_page(n: StartNav, t: NavTick, key: KeyHold, f: StartFacts)
    requires
        page_in_front(n),
        !f.animating,
        !t.cross_completed,
        !t.triangle_completed,
    ensures
        ({
            let e = start_input::tick_result(n, t, key, f).1;
            &&& e.contains(StartEffect::MoveSelection { down: false }) <==> t.action == Some(
                NavAction::Up,
            )
            &&& e.contains(StartEffect::MoveSelection { down: true }) <==> t.action == Some(
                NavAction::Down,
            )
            &&& e.contains(StartEffect::RequestSlide(StartSlide::Games)) <==> t.action == Some(
                NavAction::PrevSlide,
            )
            &&& e.contains(StartEffect::RequestSlide(StartSlide::Controllers)) <==> t.action == Some(
                NavAction::NextSlide,
            )
            &&& e.contains(StartEffect::LaunchSelected) <==> t.action == Some(NavAction::Confirm)
                && f.slide == StartSlide::Games && !n.editing
            &&& e.contains(StartEffect::CloseWindow) <==> t.action == Some(NavAction::Cancel)
                && !n.editing && f.window_open
            &&& e.contains(StartEffect::CopyDraft) <==> t.action == Some(NavAction::ToggleEdit)
                && f.slide == StartSlide::Games && !n.editing
        }),
{
    let shown = page_shown(n, t, f);
    lemma_page_effects(n, t, key, f, StartEffect::MoveSelection { down: false });
    lemma_page_effects(n, t, key, f, StartEffect::MoveSelection { down: true });
    lemma_page_effects(n, t, key, f, StartEffect::RequestSlide(StartSlide::Games));
    lemma_page_effects(n, t, key, f, StartEffect::RequestSlide(StartSlide::Controllers));
    lemma_page_effects(n, t, key, f, StartEffect::LaunchSelected);
    lemma_page_effects(n, t, key, f, StartEffect::CloseWindow);
    lemma_page_effects(n, t, key, f, StartEffect::CopyDraft);
    if let Some(a) = t.action {
        lemma_page_answers(shown, a, f);
    } else {
        assert(start_input::maybe_message(shown, None, f).1 =~= seq![]);
    }
}

/// The page as a tick shows it.
spec fn page_shown(n: StartNav, t: NavTick, f: StartFacts) -> StartNav {
    let g = start_input::gates(n, f);
    StartNav {
        cross_progress: if g.hold_cross_close {
            t.cross_progress
        } else {
            0
        },
        triangle_progress: if g.hold_triangle_power {
            t.triangle_progress
        } else {
            0
        },
        ..n
    }
}

proof fn lemma_page_effects(
    n: StartNav,
    t: NavTick,
    key: KeyHold,
    f: StartFacts,
    x: StartEffect,
)
    requires
        page_in_front(n),
        !f.animating,
        !t.cross_completed,
        !t.triangle_completed,
        x != StartEffect::KeyboardHoldReset,
        x != StartEffect::TickHints,
    ensures
        start_input::tick_result(n, t, key, f).1.contains(x) == start_input::maybe_message(
            page_shown(n, t, f),
            match t.action {
                Some(a) => start_input::page_message(a, n.editing),
                None => None,
            },
            f,
        ).1.contains(x),
{
    broadcast use vstd::seq_lib::group_seq_properties;

    let h = start_input::hold_effects(start_input::gates(n, f), t, f);
    assert(h =~= seq![]);
    let r = start_input::maybe_message(
        page_shown(n, t, f),
        match t.action {
            Some(a) => start_input::page_message(a, n.editing),
            None => None,
        },
        f,
    );
    assert(start_input::tick_result(n, t, key, f).1 == seq![StartEffect::KeyboardHoldReset] + h
        + seq![StartEffect::TickHints] + r.1);
}

proof fn lemma_page_answers(n: StartNav, a: NavAction, f: StartFacts)
    requires
        page_in_front(n),
        !f.animating,
    ensures
        ({
            let e = start_input::maybe_message(n, start_input::page_message(a, n.editing), f).1;
            &&& e.contains(StartEffect::MoveSelection { down: false }) <==> a == NavAction::Up
            &&& e.contains(StartEffect::MoveSelection { down: true }) <==> a == NavAction::Down
            &&& e.contains(StartEffect::RequestSlide(StartSlide::Games)) <==> a
                == NavAction::PrevSlide
            &&& e.contains(StartEffect::RequestSlide(StartSlide::Controllers)) <==> a
                == NavAction::NextSlide
            &&& e.contains(StartEffect::LaunchSelected) <==> a == NavAction::Confirm && f.slide
                == StartSlide::Games && !n.editing
            &&& e.contains(StartEffect::CloseWindow) <==> a == NavAction::Cancel && !n.editing
                && f.window_open
            &&& e.contains(StartEffect::CopyDraft) <==> a == NavAction::ToggleEdit && f.slide
                == StartSlide::Games && !n.editing
        }),
{
    broadcast use vstd::seq_lib::group_seq_properties;

    match a {
        NavAction::Up => {},
        NavAction::Down => {},
        NavAction::Confirm => {},
        NavAction::Cancel => {},
        NavAction::PrevSlide => {},
        NavAction::NextSlide => {},
        NavAction::ToggleEdit => {},
        NavAction::CycleSort => {},
        NavAction::Triangle => {},
        NavAction::Macros => {},
    }
}

/// While a page moves, buttons only turn it or close.
pub proof fn law_moving_page_only_turns(n: StartNav, t: NavTick, key: KeyHold, f: StartFacts)
    requires
        f.animating,
    ensures
        ({
            let e = start_input::tick_result(n, t, key, f).1;
            &&& !e.contains(StartEffect::LaunchSelected) && !e.contains(StartEffect::ToggleSelected)
            &&& !e.contains(StartEffect::MoveSelection { down: true }) && !e.contains(
                StartEffect::MoveSelection { down: false },
            )
            &&& !e.contains(StartEffect::LaunchReplacement) && !e.contains(
                StartEffect::CloseRunningIfSelected,
            ) && !e.contains(StartEffect::PowerOffSelected)
        }),
{
    broadcast use vstd::seq_lib::group_seq_properties;

}

/// A hold that is complete acts on its own page: the cross ends the selected game that is
/// running, the triangle powers the selected pad off where it can be.
pub proof fn law_complete_holds_act(n: StartNav, t: NavTick, key: KeyHold, f: StartFacts)
    requires
        page_in_front(n),
        !n.editing,
        !f.animating,
    ensures
        ({
            let e = start_input::tick_result(n, t, key, f).1;
            &&& e.contains(StartEffect::CloseRunningIfSelected) <==> t.cross_completed && f.slide
                == StartSlide::Games
            &&& e.contains(StartEffect::PowerOffSelected) <==> t.triangle_completed && f.slide
                == StartSlide::Controllers && f.pad_powers_off
        }),
{
    broadcast use vstd::seq_lib::group_seq_properties;

}

/// The game that was asked about is the one that replaces the running one.
pub proof fn law_asked_game_is_launched(n: StartNav, later: usize)
    ensures
        ({
            let asked = start_input::launched_result(n, LaunchOutcome::Asked).0;
            let (m, e) = start_input::replace_result(StartNav { game_selected: later, ..asked });
            &&& asked.replace_next == Some(n.game_selected)
            &&& m.game_selected == n.game_selected
            &&& m.replace_next is None
            &&& e.contains(StartEffect::LaunchReplacement) && e.contains(
                StartEffect::CloseRunningGame,
            )
        }),
        n.replace_next is None ==> start_input::replace_result(n).1.len() == 0,
        start_input::launched_result(n, LaunchOutcome::Failed).0 == n,
{
    broadcast use vstd::seq_lib::group_seq_properties;

}

/// Arrow keys act when they go down, enter and escape when they come up; enter does nothing while
/// the user is asked about the running game.
pub proof fn law_keys_act_once(
    n: StartNav,
    keys: KeyHolds,
    pressed: bool,
    f: StartFacts,
)
    ensures
        ({
            let up = start_input::key_result(n, keys, StartKeyAction::Up, pressed, f).2;
            let down = start_input::key_result(n, keys, StartKeyAction::Down, pressed, f).2;
            let enter = start_input::key_result(n, keys, StartKeyAction::Confirm, pressed, f);
            let escape = start_input::key_result(n, keys, StartKeyAction::Cancel, pressed, f);
            &&& up.contains(StartEffect::MoveSelection { down: false }) <==> pressed
            &&& down.contains(StartEffect::MoveSelection { down: true }) <==> pressed
            &&& enter.1 == (KeyHolds { confirm: pressed, ..keys })
            &&& escape.1 == (KeyHolds { cancel: pressed, ..keys })
            &&& n.replace_next is Some || pressed ==> enter.0 == n
            &&& pressed ==> escape.0 == n
            &&& page_in_front(n) && !n.editing && f.window_open && !pressed ==> escape.2.contains(
                StartEffect::CloseWindow,
            )
            &&& page_in_front(n) && !n.editing && f.slide == StartSlide::Games && !pressed
                ==> enter.2.contains(StartEffect::LaunchSelected)
        }),
{
    broadcast use vstd::seq_lib::group_seq_properties;

}

/// A face button counts as held where the pad or its key holds it.
pub proof fn law_keys_hold_buttons(pad: FaceHeld, keys: KeyHolds)
    ensures
        ({
            let h = start_input::held_of(pad, keys);
            &&& h.cross <==> pad.cross || keys.confirm
            &&& h.circle <==> pad.circle || keys.cancel
            &&& h.triangle == pad.triangle && h.square == pad.square
        }),
{
}

} // verus!
