//! Laws on windows and rows: which window comes, goes or is raised, and what a row launches.
use crate::app::pads;
use crate::app::pads::{PadsView, PowerOffGate};
use crate::app::popup;
use crate::app::popup::{PopupEffect, PopupMessage, PopupView};
use crate::app::rows;
use crate::app::rows::{EditView, StartRowView};
use crate::app::shell::{Effect, ShellView};
use crate::app::toast::ToastEffect;
use crate::app::windows;
use crate::app::windows::{WindowEffect, WindowRole, Windows};
use crate::games::macro_lib::GameMacrosView;
use crate::games::GameView;
use crate::process_match;
use crate::text;
use vstd::prelude::*;

verus! {

// ---------------------------------------------------------------------------
// Windows
// ---------------------------------------------------------------------------

/// A window is known by the role it was opened for, until it goes; the other three stay as they
/// are.
pub proof fn law_window_is_known_by_its_role(w: Windows, role: WindowRole, other: WindowRole, id: u64)
    ensures
        w.with(role, id).id(role) == Some(id),
        other != role ==> w.with(role, id).id(other) == w.id(other),
        w.without(role).id(role) is None,
        other != role ==> w.without(role).id(other) == w.id(other),
        w.role(id) matches Some(r) ==> w.id(r) == Some(id),
        w.role(id) is None <==> w.popup != Some(id) && w.configure != Some(id) && w.start != Some(id)
            && w.toast != Some(id),
{
}

/// Every interactive window that is open is raised, the toast never; the settings are given the
/// focus before the start screen, and that before the flyout.
pub proof fn law_open_windows_are_raised(w: Windows, focus: bool, i: u64)
    ensures
        ({
            let e = w.raise_all(focus);
            let front = if w.configure is Some {
                w.configure
            } else if w.start is Some {
                w.start
            } else {
                w.popup
            };
            &&& e.contains(WindowEffect::Raise(i)) <==> w.popup == Some(i) || w.start == Some(i)
                || w.configure == Some(i)
            &&& e.contains(WindowEffect::Focus(i)) <==> focus && front == Some(i)
        }),
{
    broadcast use vstd::seq_lib::group_seq_properties;

}

/// The toast is pinned on top while it is shown, before the others are raised; without a toast
/// nothing is restacked.
pub proof fn law_shown_toast_is_pinned(w: Windows, toast_on: bool)
    ensures
        ({
            let e = w.zorder(toast_on);
            &&& toast_on && w.toast is Some ==> e.len() > 0 && e[0] == WindowEffect::PinToast(
                w.toast->0,
            ) && e.skip(1) == w.raise_all(true)
            &&& !toast_on || w.toast is None ==> e.len() == 0
        }),
{
    let e = w.zorder(toast_on);
    if toast_on && w.toast is Some {
        assert(e.skip(1) =~= w.raise_all(true));
    }
}

/// A window that is open is focused when it is asked for again; one that is not is opened under
/// the new id.
pub proof fn law_window_opens_once(s: ShellView, role: WindowRole, id: u64)
    ensures
        ({
            let (t, e) = s.opened(role, id);
            &&& s.windows.id(role) matches Some(i) ==> t == s && e == seq![
                Effect::Window(WindowEffect::Focus(i)),
            ]
            &&& s.windows.id(role) is None ==> t.windows.id(role) == Some(id) && e.len() > 0
                && e[0] == Effect::Window(WindowEffect::Open(role, id))
        }),
{
}

/// A closed window is forgotten, and what belonged to it ends: typing with the flyout, a recording
/// with the settings, pad input with the start screen. The toast window is opened again, hidden.
pub proof fn law_closed_window_is_forgotten(s: ShellView, id: u64, next_id: u64)
    ensures
        ({
            let (t, e) = s.window_gone(id, next_id);
            let role = s.windows.role(id);
            &&& role is None ==> t == s && e.len() == 0
            &&& role == Some(WindowRole::Popup) ==> t.windows.popup is None && e.len() > 0 && e[0]
                == Effect::CancelTyping
            &&& role == Some(WindowRole::Configure) ==> t.windows.configure is None && e.len() > 0
                && e[0] == Effect::CancelRecording
            &&& role == Some(WindowRole::Start) ==> t.windows.start is None && !t.nav_ready
                && e.len() > 0 && e[0] == Effect::ResetPadNav
            &&& role == Some(WindowRole::Toast) ==> t.windows.toast == Some(next_id) && e == seq![
                Effect::Toast(ToastEffect::OpenHidden),
            ]
        }),
{
}

/// Losing the focus closes the flyout, unless a nickname is typed in it, and the start screen,
/// unless a form, a list of macros or a file dialog is up.
pub proof fn law_lost_focus_closes(s: ShellView, id: u64, typing: bool)
    requires
        s.windows.popup != s.windows.start || s.windows.popup is None,
    ensures
        s.windows.popup == Some(id) && !typing ==> s.unfocused(id, typing) == s.popup_closed(),
        s.windows.popup == Some(id) && typing ==> s.unfocused(id, typing) == (
            s,
            Seq::<Effect>::empty(),
        ),
        s.windows.popup != Some(id) && s.windows.start != Some(id) ==> s.unfocused(id, typing) == (
            s,
            Seq::<Effect>::empty(),
        ),
        s.windows.start == Some(id) && (s.nav.manual_add || s.nav.file_dialog) ==> s.unfocused(
            id,
            typing,
        ) == (s, Seq::<Effect>::empty()),
        s.windows.popup matches Some(i) ==> s.popup_closed().1 == seq![
            Effect::CancelTyping,
            Effect::Window(WindowEffect::Hide(i)),
            Effect::Window(WindowEffect::Close(i)),
        ],
{
    if let Some(i) = s.windows.popup {
        assert(s.popup_closed().1 =~= seq![
            Effect::CancelTyping,
            Effect::Window(WindowEffect::Hide(i)),
            Effect::Window(WindowEffect::Close(i)),
        ]);
    }
}

/// The start screen opens only where it is switched on. It begins on its page, with no edit, no
/// question and nothing held; an open one is brought to the front.
pub proof fn law_start_screen_begins_anew(s: ShellView, enabled: bool, now: u64, id: u64)
    ensures
        ({
            let (t, e) = s.start_opened(enabled, now, id);
            &&& !enabled ==> t == s && e.len() == 0
            &&& enabled ==> !t.nav.editing && t.nav.replace_next is None && t.nav.cross_progress
                == 0 && t.nav.triangle_progress == 0 && !t.keys.confirm && !t.keys.cancel
            &&& enabled && s.windows.start is None ==> t.windows.start == Some(id) && !t.nav_ready
                && t.diag.opened_at_ms == Some(now)
            &&& enabled && s.windows.start is Some ==> t.windows == s.windows && e.len() > 0
                && e.last() == Effect::Window(WindowEffect::Focus(s.windows.start->0))
        }),
{
}

// ---------------------------------------------------------------------------
// The flyout
// ---------------------------------------------------------------------------

/// The flyout flashes a pad with its battery level, sends a power-off only where the pad takes
/// one, and saves what it changes of remembered pads.
pub proof fn law_flyout_does_as_asked(s: PopupView, p: PadsView, serial: String, level: u8)
    ensures
        popup::popup_result(s, p, PopupMessage::Identify(serial)).2.contains(
            PopupEffect::Flash(level),
        ) <==> p.identify_percent(serial@) == Some(level),
        popup::popup_result(s, p, PopupMessage::PowerOff(serial)).2.contains(PopupEffect::PowerOff)
            <==> p.power_off_gate(serial@) == PowerOffGate::Send,
        popup::popup_result(s, p, PopupMessage::ToggleRemember(serial)).1.known == p.toggled(
            serial@,
        ),
        popup::popup_result(s, p, PopupMessage::ToggleRemember(serial)).2.contains(
            PopupEffect::SaveKnown,
        ) <==> !text::begins(serial@, "emu-"@),
        popup::popup_result(s, p, PopupMessage::Identify(serial)).1 == p,
        popup::popup_result(s, p, PopupMessage::PowerOff(serial)).1 == p,
{
    broadcast use vstd::seq_lib::group_seq_properties;

}

/// Naming a pad begins with the nickname it has, follows what is typed, and changes nothing before
/// it is committed.
pub proof fn law_nickname_is_typed_before_it_counts(
    s: PopupView,
    p: PadsView,
    serial: String,
    typed: String,
)
    ensures
        ({
            let begun = popup::popup_result(s, p, PopupMessage::BeginEdit(serial));
            let after = popup::popup_result(begun.0, p, PopupMessage::DraftChanged(typed));
            &&& begun.0.editing == Some(serial@)
            &&& p.known.nicknames.dom().contains(serial@) ==> begun.0.draft
                == p.known.nicknames[serial@]
            &&& !p.known.nicknames.dom().contains(serial@) ==> begun.0.draft.len() == 0
            &&& after.0.editing == Some(serial@) && after.0.draft == typed@
            &&& begun.1 == p && after.1 == p
        }),
{
}

// ---------------------------------------------------------------------------
// Rows
// ---------------------------------------------------------------------------

/// A Steam game goes by the name it was last scanned with, and by its number before it was
/// scanned.
pub proof fn law_scanned_name_is_shown(s: Seq<(u32, Seq<char>)>, appid: u32, i: int)
    ensures
        0 <= i < s.len() && s[i].0 == appid && (forall|j: int|
            i < j < s.len() ==> (#[trigger] s[j]).0 != appid) ==> rows::steam_title(s, appid)
            == s[i].1 && rows::last_at(s, appid) == i,
        (forall|j: int| 0 <= j < s.len() ==> (#[trigger] s[j]).0 != appid) ==> rows::steam_title(
            s,
            appid,
        ) == "Steam "@ + text::dec(appid as nat) && rows::last_at(s, appid) == -1,
    decreases s.len(),
{
    if s.len() > 0 {
        let t = s.drop_last();
        let n = s.len() - 1;
        law_scanned_name_is_shown(t, appid, i);
        if 0 <= i < s.len() && s[i].0 == appid && (forall|j: int|
            i < j < s.len() ==> (#[trigger] s[j]).0 != appid) {
            if i < n {
                assert(s[n].0 != appid);
                assert(t[i] == s[i]);
                assert forall|j: int| i < j < t.len() implies (#[trigger] t[j]).0 != appid by {
                    assert(s[j].0 != appid);
                }
            }
        }
        if forall|j: int| 0 <= j < s.len() ==> (#[trigger] s[j]).0 != appid {
            assert(s[n].0 != appid);
            assert forall|j: int| 0 <= j < t.len() implies (#[trigger] t[j]).0 != appid by {
                assert(s[j].0 != appid);
            }
        }
    }
}

/// The row of a Steam game launches that game; the row of a shortcut launches its target with its
/// arguments. Either is marked where the game has macros.
pub proof fn law_row_launches_its_game(
    s: Seq<(u32, Seq<char>)>,
    lib: Map<Seq<char>, GameMacrosView>,
    g: GameView,
)
    ensures
        ({
            let r = rows::browse_row(s, lib, g);
            &&& g matches GameView::Steam { appid } ==> process_match::url_appid(r.target) == Some(
                appid as nat,
            ) && r.args.len() == 0 && r.title == rows::steam_title(s, appid)
            &&& g matches GameView::Manual { title, target, args, .. } ==> r.title == title
                && r.target == target && r.args == args
            &&& r.play_key == crate::games::play_key_of(g)
            &&& r.has_macros <==> lib.dom().contains(r.play_key) && lib[r.play_key].macros.len() > 0
            &&& r.edit is None
        }),
{
    if let GameView::Steam { appid } = g {
        crate::app::sessions::law_steam_url_names_its_game(appid, Seq::empty(), Seq::empty());
        let u = "steam://rungameid/"@ + text::dec(appid as nat);
        assert(u + Seq::<char>::empty() == u);
    }
}

/// The checklist has one row for each scanned game, ticked where the game is in the catalog.
pub proof fn law_checklist_has_every_scanned_game(
    s: Seq<(u32, Seq<char>)>,
    catalog: Seq<GameView>,
    lib: Map<Seq<char>, GameMacrosView>,
    n: int,
    i: int,
)
    requires
        0 <= i < n <= s.len(),
        rows::last_at(s, s[i].0) == i,
    ensures
        exists|k: int|
            0 <= k < rows::steam_edit_rows(s, catalog, lib, n).len() && (
            #[trigger] rows::steam_edit_rows(s, catalog, lib, n)[k]).edit == Some(
                EditView::Steam {
                    appid: s[i].0,
                    in_catalog: catalog.contains(GameView::Steam { appid: s[i].0 }),
                },
            ) && rows::steam_edit_rows(s, catalog, lib, n)[k].title == s[i].1
                && process_match::url_appid(
                rows::steam_edit_rows(s, catalog, lib, n)[k].target,
            ) == Some(s[i].0 as nat),
    decreases n,
{
    let all = rows::steam_edit_rows(s, catalog, lib, n);
    let before = rows::steam_edit_rows(s, catalog, lib, n - 1);
    if i == n - 1 {
        crate::app::sessions::law_steam_url_names_its_game(s[i].0, Seq::empty(), Seq::empty());
        let u = "steam://rungameid/"@ + text::dec(s[i].0 as nat);
        assert(u + Seq::<char>::empty() == u);
        assert(all[all.len() - 1] == rows::steam_edit_row(s[i], catalog, lib));
    } else {
        law_checklist_has_every_scanned_game(s, catalog, lib, n - 1, i);
        let k = choose|k: int|
            0 <= k < before.len() && (#[trigger] before[k]).edit == Some(
                EditView::Steam {
                    appid: s[i].0,
                    in_catalog: catalog.contains(GameView::Steam { appid: s[i].0 }),
                },
            ) && before[k].title == s[i].1 && process_match::url_appid(before[k].target) == Some(
                s[i].0 as nat,
            );
        assert(all[k] == before[k]);
    }
}

/// The first row of a game.
pub proof fn law_first_row_of_a_game_is_found(rs: Seq<StartRowView>, key: Seq<char>)
    ensures
        0 <= rows::key_at(rs, key) <= rs.len(),
        rows::key_at(rs, key) < rs.len() ==> rs[rows::key_at(rs, key)].play_key == key,
        forall|i: int| 0 <= i < rows::key_at(rs, key) ==> (#[trigger] rs[i]).play_key != key,
    decreases rs.len(),
{
    if rs.len() > 0 && rs[0].play_key != key {
        let t = rs.drop_first();
        law_first_row_of_a_game_is_found(t, key);
        assert forall|i: int| 0 <= i < rows::key_at(rs, key) implies (#[trigger] rs[i]).play_key
            != key by {
            if i > 0 {
                assert(t[i - 1] == rs[i]);
            }
        }
    }
}

/// Starting up makes the tray, shows what is known and asks for the rest; a restart behind a crash
/// is told of by a toast, and nothing else is.
pub proof fn law_start_up_tells_of_a_crash(now: u64, crashed: bool, id: u64)
    ensures
        ({
            let (s, e) = ShellView::booted(now, crashed, id);
            &&& s.wf()
            &&& s.windows.toast == Some(id)
            &&& s.windows.popup is None && s.windows.configure is None && s.windows.start is None
            &&& s.toasts.current == (if crashed {
                Some(crate::app::toast::ToastView::CrashRestart)
            } else {
                None
            })
            &&& e.len() > 0 && e[0] == Effect::CreateTray && e.last() == Effect::ScanSteam
            &&& e.contains(Effect::RequestRefresh)
        }),
{
    let (s, e) = ShellView::booted(now, crashed, id);
    assert(e[4] == Effect::RequestRefresh);
}

/// A pad without a name of its own is called by its product while it is connected, and by its
/// serial otherwise, of which a long one shows only its end.
pub proof fn law_panel_calls_a_pad_by_name(p: PadsView, serial: Seq<char>)
    ensures
        ({
            let l = popup::panel_label(p, serial);
            let at = pads::pad_at(p.controllers, serial);
            let named = p.known.nicknames.dom().contains(serial) && p.known.nicknames[serial].len()
                > 0;
            &&& named ==> l == p.known.nicknames[serial]
            &&& !named && at < p.controllers.len() ==> l == p.controllers[at].product
            &&& !named && at >= p.controllers.len() && vstd::utf8::encode_utf8(serial).len() <= 8
                ==> l == serial
            &&& !named && at >= p.controllers.len() && vstd::utf8::encode_utf8(serial).len() > 8
                && popup::has_tail(serial, 6) ==> exists|k: int|
                0 <= k <= serial.len() && l == "Pad …"@ + #[trigger] serial.skip(k)
                    && vstd::utf8::encode_utf8(serial.skip(k)).len() == 6
        }),
{
    lemma_tail_at(serial, 6);
    let k = popup::tail_at(serial, 6);
    assert(serial.skip(k) == serial.skip(k));
}

proof fn lemma_tail_at(s: Seq<char>, n: nat)
    ensures
        0 <= popup::tail_at(s, n) <= s.len(),
    decreases s.len(),
{
    if s.len() > 0 {
        lemma_tail_at(s.drop_first(), n);
    }
}

/// A macro that was saved is shown in the list to edit and written; one that was refused changes
/// nothing on the page.
pub proof fn law_saved_macro_returns_to_the_list(n: crate::app::start::StartNav)
    ensures
        crate::app::start_input::saved_result(n, true).0.overlay == (
        crate::app::start::Overlay::List { run_mode: false }),
        crate::app::start_input::saved_result(n, true).1.contains(
            crate::app::start::StartEffect::SaveMacros,
        ),
        crate::app::start_input::saved_result(n, false) == (
            n,
            Seq::<crate::app::start::StartEffect>::empty(),
        ),
{
    assert(crate::app::start_input::saved_result(n, true).1[0]
        == crate::app::start::StartEffect::SaveMacros);
}

/// The checklist lists every shortcut of the catalog once, in catalog order, and no other game:
/// what two catalogs list one after the other, the joined catalog lists.
pub proof fn law_checklist_lists_the_shortcuts(
    a: Seq<GameView>,
    b: Seq<GameView>,
    lib: Map<Seq<char>, GameMacrosView>,
    g: GameView,
)
    ensures
        rows::manual_edit_rows(a + b, lib) == rows::manual_edit_rows(a, lib)
            + rows::manual_edit_rows(b, lib),
        g is Steam ==> rows::manual_edit_rows(seq![g], lib).len() == 0,
        g matches GameView::Manual { id, title, target, .. } ==> ({
            let r = rows::manual_edit_rows(seq![g], lib);
            r.len() == 1 && r[0].title == title && r[0].target == target && r[0].edit == Some(
                EditView::Manual { id },
            )
        }),
    decreases b.len(),
{
    let one = seq![g];
    assert(one.drop_last() =~= Seq::<GameView>::empty());
    assert(rows::manual_edit_rows(one.drop_last(), lib) =~= Seq::<StartRowView>::empty());
    if b.len() == 0 {
        assert(a + b =~= a);
        assert(rows::manual_edit_rows(b, lib) =~= Seq::<StartRowView>::empty());
        assert(rows::manual_edit_rows(a, lib) + rows::manual_edit_rows(b, lib)
            =~= rows::manual_edit_rows(a, lib));
    } else {
        law_checklist_lists_the_shortcuts(a, b.drop_last(), lib, g);
        assert((a + b).drop_last() =~= a + b.drop_last());
        assert((a + b).last() == b.last());
        assert(rows::manual_edit_rows(a + b, lib) =~= rows::manual_edit_rows(a, lib)
            + rows::manual_edit_rows(b, lib));
    }
}

} // verus!
