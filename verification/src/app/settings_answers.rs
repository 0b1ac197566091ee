//! Laws on the settings and on the edited catalog: which message changes what.
use crate::app::catalog_edit;
use crate::app::catalog_edit::{CatalogEditView, ManualView};
use crate::app::configure;
use crate::app::configure::{
    BarAction, BarEvent, BarState, ConfigureEffect, ConfigureFacts, ConfigureMessage, DragAction,
    DragEvent, NotificationSetting, Section, SpectrumEdit,
};
use crate::app::rows;
use crate::games;
use crate::games::GameView;
use crate::notify;
use crate::prefs::{Prefs, StartPrefs, ToastPosition};
use crate::text;
use vstd::prelude::*;

verus! {

// ---------------------------------------------------------------------------
// Settings
// ---------------------------------------------------------------------------

/// Each notification switch sets the toasts it is named for, and leaves the other three.
pub proof fn law_switch_sets_its_own_toasts(p: Prefs, s: NotificationSetting, on: bool)
    ensures
        ({
            let q = notify::notify_prefs(
                configure::prefs_after(p, ConfigureMessage::SetNotification(s, on)),
            );
            let b = notify::notify_prefs(p);
            &&& q.connect == (if s == NotificationSetting::Connect {
                on
            } else {
                b.connect
            })
            &&& q.disconnect == (if s == NotificationSetting::Disconnect {
                on
            } else {
                b.disconnect
            })
            &&& q.low == (if s == NotificationSetting::Low {
                on
            } else {
                b.low
            })
            &&& q.charged == (if s == NotificationSetting::Charged {
                on
            } else {
                b.charged
            })
            &&& q.threshold == b.threshold
        }),
{
}

/// A setting takes the value it is given, and no other setting changes with it.
pub proof fn law_setting_takes_its_value(p: Prefs, on: bool, pos: ToastPosition, level: u8)
    ensures
        configure::prefs_after(p, ConfigureMessage::SetToastPosition(pos)) == (Prefs {
            toast_position: pos,
            ..p
        }),
        configure::prefs_after(p, ConfigureMessage::SetAnalyticsEnabled(on)) == (Prefs {
            analytics_enabled: on,
            ..p
        }),
        configure::prefs_after(p, ConfigureMessage::SetLightbarEnabled(on)) == (Prefs {
            lightbar_enabled: on,
            ..p
        }),
        configure::prefs_after(p, ConfigureMessage::SetStartScreenEnabled(on)) == (Prefs {
            start_screen_enabled: on,
            ..p
        }),
        level == 5 || level == 15 || level == 25 || level == 35 ==> configure::prefs_after(
            p,
            ConfigureMessage::SetLowBatteryPercent(level),
        ) == (Prefs { low_battery_percent: level, ..p }),
{
}

/// Sounds and their volume take the value they are given, a volume at most 100.
pub proof fn law_sound_takes_its_value(sp: StartPrefs, on: bool, volume: u8)
    requires
        volume <= 100,
    ensures
        configure::start_prefs_after(sp, ConfigureMessage::SetStartScreenSounds(on)) == (
        StartPrefs { sounds_enabled: on, ..sp }),
        configure::start_prefs_after(sp, ConfigureMessage::SetStartScreenSoundVolume(volume)) == (
        StartPrefs { sound_volume: volume, ..sp }),
{
}

/// Only a message that sets something changes the preferences.
pub proof fn law_other_messages_set_nothing(p: Prefs, sp: StartPrefs, m: ConfigureMessage)
    requires
        !(m is SetNotification),
        !(m is SetLowBatteryPercent),
        !(m is SetToastPosition),
        !(m is SetAnalyticsEnabled),
        !(m is SetLightbarEnabled),
        !(m is SetStartScreenEnabled),
        !(m is SetStartScreenSounds),
        !(m is SetStartScreenSoundVolume),
    ensures
        configure::prefs_after(p, m) == p,
        configure::start_prefs_after(sp, m) == sp,
{
}

/// What a change brings about beside being saved: a new place for toasts is shown, lightbars are
/// switched and colored again, a switched-off start screen is closed, a new threshold reaches the
/// pads.
pub proof fn law_change_takes_effect(
    section: Section,
    p: Prefs,
    sp: StartPrefs,
    m: ConfigureMessage,
    f: ConfigureFacts,
)
    ensures
        ({
            let e = configure::all_effects(section, p, sp, m, f);
            &&& e.contains(ConfigureEffect::ShowPositionPreview) <==> m is SetToastPosition
            &&& e.contains(ConfigureEffect::SetLightbars(true)) <==> m
                == ConfigureMessage::SetLightbarEnabled(true)
            &&& e.contains(ConfigureEffect::SetLightbars(false)) <==> m
                == ConfigureMessage::SetLightbarEnabled(false)
            &&& e.contains(ConfigureEffect::ReapplySpectrum) <==> m
                == ConfigureMessage::SetLightbarEnabled(true)
            &&& e.contains(ConfigureEffect::CloseStartScreen) <==> m
                == ConfigureMessage::SetStartScreenEnabled(false) && f.start_open
            &&& e.contains(ConfigureEffect::SyncLowBattery) <==> m is SetLightbarEnabled || (m
                is SetLowBatteryPercent && configure::prefs_after(p, m).low_battery_percent
                != p.low_battery_percent)
            &&& e.contains(ConfigureEffect::ResetDetectors) <==> m is StartGestureRecord || m
                is ResetStartGesture
            &&& e.contains(ConfigureEffect::ReadPadInput) <==> m == ConfigureMessage::SelectSection(
                Section::PadInput,
            )
        }),
{
    broadcast use vstd::seq_lib::group_seq_properties;

}

/// A recording ends when its page is left, its gesture is reset, the start screen is switched off,
/// or it is cancelled or closed; a recording that begins is not ended.
pub proof fn law_recording_ends_with_its_page(section: Section, m: ConfigureMessage)
    ensures
        configure::ends_recording(section, m) <==> m is Close || m is CancelGestureRecord || m
            is ResetStartGesture || m == ConfigureMessage::SetStartScreenEnabled(false) || (section
            == Section::System && (m matches ConfigureMessage::SelectSection(s) && s
            != Section::System)),
{
}

/// Each edit of the spectrum is made as it was asked for.
pub proof fn law_spectrum_edit_is_made(
    section: Section,
    p: Prefs,
    sp: StartPrefs,
    f: ConfigureFacts,
    v: u8,
    i: usize,
)
    ensures
        configure::effects_of(p, sp, ConfigureMessage::MoveStop(v), f) == seq![
            ConfigureEffect::EditSpectrum(SpectrumEdit::Move(v)),
        ],
        configure::effects_of(p, sp, ConfigureMessage::AddStopAt(v), f) == seq![
            ConfigureEffect::EditSpectrum(SpectrumEdit::Add(v)),
        ],
        configure::effects_of(p, sp, ConfigureMessage::RemoveStopAt(i), f) == seq![
            ConfigureEffect::EditSpectrum(SpectrumEdit::Remove(i)),
        ],
        configure::effects_of(p, sp, ConfigureMessage::RemoveStop, f) == seq![
            ConfigureEffect::EditSpectrum(SpectrumEdit::RemoveSelected),
        ],
        configure::effects_of(p, sp, ConfigureMessage::ResetSpectrum, f) == seq![
            ConfigureEffect::EditSpectrum(SpectrumEdit::Reset),
        ],
{
}

/// A stop is dragged from the press on it to the release: it follows the pointer, and is removed
/// where it is let go far off the bar and enough stops are left.
pub proof fn law_stop_is_dragged(
    s: BarState,
    i: usize,
    v: u8,
    far_off: bool,
    stops: nat,
    min_stops: nat,
)
    ensures
        ({
            let held = configure::bar_result(s, BarEvent::PressedStop(i), stops, min_stops);
            let moved = configure::bar_result(
                held.0,
                BarEvent::Moved { percent: v, far_off },
                stops,
                min_stops,
            );
            let gone = configure::bar_result(moved.0, BarEvent::Released, stops, min_stops);
            let removes = far_off && stops > min_stops;
            &&& held.1 == BarAction::Publish(ConfigureMessage::SelectStop(i))
            &&& !removes ==> moved.1 == BarAction::Publish(ConfigureMessage::MoveStop(v))
            &&& gone.1 == BarAction::Publish(ConfigureMessage::RemoveStop) <==> removes
            &&& !gone.0.dragging
        }),
        !s.dragging ==> configure::bar_result(
            s,
            BarEvent::Moved { percent: v, far_off },
            stops,
            min_stops,
        ) == (s, BarAction::Ignore),
        configure::bar_result(s, BarEvent::PressedBar(v), stops, min_stops).1 == BarAction::Publish(
            ConfigureMessage::AddStopAt(v),
        ),
        configure::bar_result(s, BarEvent::RightPressedStop(i), stops, min_stops).1
            == BarAction::Publish(
            if stops > min_stops {
                ConfigureMessage::RemoveStopAt(i)
            } else {
                ConfigureMessage::SelectStop(i)
            },
        ),
{
}

/// A color is sampled from a press on the control until the release.
pub proof fn law_color_is_sampled_while_dragged(dragging: bool, known: bool)
    ensures
        configure::drag_result(dragging, DragEvent::Pressed { over: true }, known).0,
        configure::drag_result(dragging, DragEvent::Pressed { over: false }, known) == (
            dragging,
            DragAction::Ignore,
        ),
        configure::drag_result(dragging, DragEvent::Moved, true).1 == DragAction::Sample
            <==> dragging,
        configure::drag_result(dragging, DragEvent::Moved, known).0 == dragging,
        !configure::drag_result(dragging, DragEvent::Released, known).0,
        configure::drag_result(dragging, DragEvent::Released, known).1 != DragAction::Sample,
{
}

// ---------------------------------------------------------------------------
// The edited catalog
// ---------------------------------------------------------------------------

/// Putting a Steam game in or out changes that game alone: it goes behind the others, or from
/// among them; every other game stays, in its order.
pub proof fn law_toggle_changes_one_game(
    c: CatalogEditView,
    appid: u32,
    in_catalog: bool,
    g: GameView,
)
    requires
        c.edited().entries.contains(GameView::Steam { appid }) == in_catalog,
        g != (GameView::Steam { appid }),
    ensures
        ({
            let (d, changed) = catalog_edit::toggled(
                c,
                Some(rows::EditView::Steam { appid, in_catalog }),
            );
            &&& changed
            &&& d.edited().entries.contains(GameView::Steam { appid }) == !in_catalog
            &&& d.edited().entries.contains(g) == c.edited().entries.contains(g)
            &&& d.edited().played == c.edited().played
            &&& !in_catalog ==> d.edited().entries == c.edited().entries.push(
                GameView::Steam { appid },
            )
        }),
{
    broadcast use vstd::seq_lib::group_filter_ensures;

    let s = c.edited().entries;
    let x = GameView::Steam { appid };
    let p = |h: GameView| h != x;
    let t = s.filter(p);
    if in_catalog {
        if t.contains(x) {
            let i = choose|i: int| 0 <= i < t.len() && t[i] == x;
            assert(p(t[i]));
        }
        if s.contains(g) {
            let i = choose|i: int| 0 <= i < s.len() && s[i] == g;
            assert(p(s[i]));
            assert(t.contains(s[i]));
        }
        if t.contains(g) {
            lemma_filter_takes_from(s, p, g);
        }
    } else {
        assert(s.push(x)[s.len() as int] == x);
        if s.contains(g) {
            let i = choose|i: int| 0 <= i < s.len() && s[i] == g;
            assert(s.push(x)[i] == g);
        }
        if s.push(x).contains(g) {
            let i = choose|i: int| 0 <= i < s.push(x).len() && s.push(x)[i] == g;
            assert(s[i] == g);
        }
    }
}

proof fn lemma_filter_takes_from(s: Seq<GameView>, p: spec_fn(GameView) -> bool, g: GameView)
    ensures
        s.filter(p).contains(g) ==> s.contains(g),
    decreases s.len(),
{
    reveal(Seq::filter);
    if s.len() > 0 {
        let init = s.drop_last();
        lemma_filter_takes_from(init, p, g);
        if init.contains(g) {
            let i = choose|i: int| 0 <= i < init.len() && init[i] == g;
            assert(s[i] == g);
        }
        if s.filter(p).contains(g) && !init.filter(p).contains(g) {
            let f = s.filter(p);
            let i = choose|i: int| 0 <= i < f.len() && f[i] == g;
            if i < init.filter(p).len() {
                assert(init.filter(p)[i] == g);
            }
            assert(s[s.len() - 1] == g);
        }
    }
}

/// A row that is out of date toggles nothing.
pub proof fn law_stale_row_toggles_nothing(c: CatalogEditView, appid: u32, in_catalog: bool)
    requires
        c.edited().entries.contains(GameView::Steam { appid }) != in_catalog,
    ensures
        catalog_edit::toggled(c, Some(rows::EditView::Steam { appid, in_catalog })) == (c, false),
{
}

/// A new shortcut goes behind the others with what the form says: its target, its arguments and
/// title without the blanks around them, and the title of its target where it has none.
pub proof fn law_new_shortcut_is_as_filled_in(c: CatalogEditView, d: ManualView, nanos: u128)
    requires
        d.edit_id is None,
    ensures
        ({
            let e = catalog_edit::confirmed(c, d, nanos).edited();
            &&& e.entries.len() == c.edited().entries.len() + 1
            &&& e.entries.drop_last() == c.edited().entries
            &&& e.entries.last() matches GameView::Manual { title, target, args, icon, .. }
                && target == d.target && args == text::trim(d.args) && icon == d.icon_path && title
                == (if text::trim(d.title).len() > 0 {
                text::trim(d.title)
            } else {
                games::target_title(d.target)
            })
            &&& e.played == c.edited().played
        }),
{
    let e = catalog_edit::confirmed(c, d, nanos).edited();
    assert(e.entries.drop_last() =~= c.edited().entries);
}

/// An edited shortcut keeps its id, its target and its place; the others stay as they are.
pub proof fn law_edited_shortcut_keeps_its_place(
    c: CatalogEditView,
    d: ManualView,
    nanos: u128,
    k: int,
)
    requires
        d.edit_id matches Some(id) && games::manual_at(c.edited().entries, id)
            < c.edited().entries.len(),
        0 <= k < c.edited().entries.len(),
    ensures
        ({
            let before = c.edited().entries;
            let after = catalog_edit::confirmed(c, d, nanos).edited().entries;
            let at = games::manual_at(before, d.edit_id->0);
            &&& after.len() == before.len()
            &&& k != at ==> after[k] == before[k]
            &&& before[at] matches GameView::Manual { id, target, .. } && (after[at] matches GameView::Manual {
                id: id2,
                target: target2,
                args,
                icon,
                ..
            } && id2 == id && target2 == target && args == text::trim(d.args) && icon
                == d.icon_path)
        }),
{
    games::browsing::law_edit_reaches_one_shortcut(
        c.edited().entries,
        d.edit_id->0,
        seq![],
        seq![],
        None,
    );
}

/// The form of a shortcut shows the icon that the catalog has for its id: that of the first entry
/// with the id and an icon.
pub proof fn law_form_shows_the_icon(entries: Seq<GameView>, id: Seq<char>, k: int)
    requires
        0 <= k < entries.len(),
        entries[k] matches GameView::Manual { id: found, icon, .. } && found == id && icon is Some,
        forall|j: int|
            0 <= j < k ==> !(#[trigger] entries[j] matches GameView::Manual { id: found, icon, .. }
                && found == id && icon is Some),
    ensures
        entries[k] matches GameView::Manual { icon, .. } && catalog_edit::icon_of(entries, id)
            == icon,
    decreases k,
{
    if k > 0 {
        let t = entries.drop_first();
        assert(!(entries[0] matches GameView::Manual { id: found, icon, .. } && found == id && icon
            is Some));
        assert forall|j: int| 0 <= j < k - 1 implies !(#[trigger] t[j] matches GameView::Manual {
            id: found,
            icon,
            ..
        } && found == id && icon is Some) by {
            assert(t[j] == entries[j + 1]);
        }
        assert(t[k - 1] == entries[k]);
        law_form_shows_the_icon(t, id, k - 1);
    }
}

/// Macros of games that are no longer in the catalog go, the others stay as they are; there is
/// something to save exactly when one goes.
pub proof fn law_macros_go_with_their_game(
    lib: Map<Seq<char>, crate::games::macro_lib::GameMacrosView>,
    entries: Seq<GameView>,
    key: Seq<char>,
)
    ensures
        ({
            let used = exists|i: int|
                0 <= i < entries.len() && games::play_key_of(#[trigger] entries[i]) == key;
            let after = catalog_edit::without_orphans(lib, entries);
            &&& after.dom().contains(key) <==> lib.dom().contains(key) && used
            &&& after.dom().contains(key) ==> after[key] == lib[key]
            &&& lib.dom().contains(key) && !used ==> catalog_edit::has_orphan(lib, entries)
            &&& !catalog_edit::has_orphan(lib, entries) ==> after == lib
        }),
{
    let after = catalog_edit::without_orphans(lib, entries);
    if lib.dom().contains(key) && !catalog_edit::in_use(entries, key) {
        assert(catalog_edit::has_orphan(lib, entries));
    }
    if !catalog_edit::has_orphan(lib, entries) {
        assert(after =~= lib);
    }
}

/// The pointer shows what the next press or release would do: while a stop is dragged, whether
/// letting go removes it; over a stop, that it can be taken; over the bar elsewhere, that a stop
/// can be added, unless there is no room.
pub proof fn law_pointer_shows_what_comes(
    s: BarState,
    over_bar: bool,
    over_stop: bool,
    stops: usize,
    max_stops: usize,
    r: configure::BarCursor,
)
    requires
        call_ensures(configure::bar_cursor, (s, over_bar, over_stop, stops, max_stops), r),
    ensures
        r is NotAllowed <==> s.dragging && s.remove_armed,
        r is Grabbing <==> s.dragging && !s.remove_armed,
        r is Grab <==> !s.dragging && over_bar && over_stop,
        r is Crosshair <==> !s.dragging && over_bar && !over_stop && stops < max_stops,
{
}

/// The outline is empty at nothing and whole from 100 percent on; between, it is filled as far as
/// the level.
pub proof fn law_outline_fills_with_the_level(percent: u8, r: configure::RingFill)
    requires
        call_ensures(configure::ring_fill, (percent,), r),
    ensures
        r is Empty <==> percent == 0,
        r is Whole <==> percent >= 100,
        r matches configure::RingFill::Arc(p) ==> p == percent,
{
}

/// A picked image goes into the form that is open, and nothing else of it changes; without a
/// pick, or without a form, nothing does.
pub proof fn law_picked_image_goes_into_the_form(
    form: &mut Option<catalog_edit::ManualAddDraft>,
    path: Option<String>,
)
    requires
        call_ensures(catalog_edit::on_manual_icon_picked, (form, path), ()),
    ensures
        *old(form) is None <==> *final(form) is None,
        *old(form) matches Some(d) ==> (*final(form) matches Some(e) && e@.edit_id == d@.edit_id
            && e@.target == d@.target && e@.title == d@.title && e@.args == d@.args && (path is None
            ==> e@.icon_path == d@.icon_path) && (path matches Some(p) ==> e@.icon_path == Some(
            p@,
        ))),
{
}

/// An edit is begun on a copy: cancelling leaves the catalog as it was, and committing an edit
/// that changed nothing leaves it too, with every macro of its games. Either way the edit is
/// over; only a commit is saved.
pub proof fn law_edit_is_kept_only_by_a_commit(
    begun: &mut catalog_edit::CatalogEdit,
    cancelled: &mut catalog_edit::CatalogEdit,
    committed: &mut catalog_edit::CatalogEdit,
    macros: &mut crate::games::macro_lib::MacroLibrary,
    r: catalog_edit::CommitOutcome,
    key: Seq<char>,
)
    requires
        call_ensures(catalog_edit::CatalogEdit::enter_start_edit, (begun,), ()),
        old(cancelled)@.games == final(begun)@.games,
        call_ensures(catalog_edit::CatalogEdit::cancel_start_edit, (cancelled,), ()),
        call_ensures(catalog_edit::CatalogEdit::commit_start_edit, (committed, macros), r),
    ensures
        final(begun)@.games == old(begun)@.games,
        final(begun)@.draft == Some(old(begun)@.games),
        final(cancelled)@.games == old(begun)@.games,
        final(cancelled)@.draft is None,
        final(committed)@.draft is None,
        r.save_games <==> old(committed)@.draft is Some,
        final(committed)@.games == (match old(committed)@.draft {
            Some(d) => d,
            None => old(committed)@.games,
        }),
        old(committed)@.draft is None ==> final(macros)@ == old(macros)@ && !r.save_macros,
        ({
            let kept = exists|i: int|
                0 <= i < final(committed)@.games.entries.len() && games::play_key_of(
                    #[trigger] final(committed)@.games.entries[i],
                ) == key;
            old(committed)@.draft is Some ==> {
                &&& final(macros)@.dom().contains(key) <==> old(macros)@.dom().contains(key) && kept
                &&& final(macros)@.dom().contains(key) ==> final(macros)@[key] == old(macros)@[key]
                &&& !r.save_macros ==> final(macros)@ == old(macros)@
                &&& old(macros)@.dom().contains(key) && !kept ==> r.save_macros
            }
        }),
{
    if let Some(d) = old(committed)@.draft {
        law_macros_go_with_their_game(old(macros)@, d.entries, key);
    }
}

/// A scan that worked is what is known from then on, one id for each game; a failed one changes
/// nothing.
pub proof fn law_scan_is_known_if_it_worked(
    library: &mut rows::SteamLibrary,
    result: Result<Vec<rows::SteamGame>, String>,
    i: int,
)
    requires
        call_ensures(rows::SteamLibrary::on_steam_scan_done, (library, result), ()),
    ensures
        result is Err ==> *final(library) == *old(library),
        result matches Ok(found) ==> (final(library).games == found && (final(library).installed matches Some(ids) && ids@.len() == found@.len() && (0 <= i < found@.len()
            ==> ids@[i] == found@[i].appid))),
{
}

/// A level or a volume that comes out as it was set before is not saved again; one that changes
/// is saved, and a new volume is heard where sounds are on.
pub proof fn law_changed_level_is_saved(p: Prefs, sp: StartPrefs, v: u8, f: ConfigureFacts)
    ensures
        ({
            let e = configure::effects_of(
                p,
                sp,
                ConfigureMessage::SetStartScreenSoundVolume(v),
                f,
            );
            let same = sp.sound_volume == v || (v > 100 && sp.sound_volume == 100);
            &&& v <= 100 || sp.sound_volume <= 100 ==> (e.contains(ConfigureEffect::SavePrefs)
                <==> !same)
            &&& same && sp.sound_volume <= 100 ==> e.len() == 0
            &&& !same && sp.sound_volume <= 100 ==> (e.len() == 2 <==> sp.sounds_enabled)
        }),
        ({
            let e = configure::effects_of(p, sp, ConfigureMessage::SetLowBatteryPercent(v), f);
            v == 5 || v == 15 || v == 25 || v == 35 ==> (e.contains(ConfigureEffect::SavePrefs)
                <==> p.low_battery_percent != v)
        }),
{
    let e = configure::effects_of(p, sp, ConfigureMessage::SetStartScreenSoundVolume(v), f);
    if e.len() > 0 {
        assert(e[0] == ConfigureEffect::SavePrefs);
    }
    let g = configure::effects_of(p, sp, ConfigureMessage::SetLowBatteryPercent(v), f);
    if g.len() > 0 {
        assert(g[0] == ConfigureEffect::SavePrefs);
    }
}

/// Macros are saved behind a commit only if one went.
pub proof fn law_macros_are_saved_if_one_goes(
    lib: Map<Seq<char>, crate::games::macro_lib::GameMacrosView>,
    entries: Seq<GameView>,
)
    ensures
        catalog_edit::has_orphan(lib, entries) <==> catalog_edit::without_orphans(lib, entries)
            != lib,
{
    let after = catalog_edit::without_orphans(lib, entries);
    if catalog_edit::has_orphan(lib, entries) {
        let k = choose|k: Seq<char>| #[trigger]
            lib.dom().contains(k) && !catalog_edit::in_use(entries, k);
        assert(!after.dom().contains(k));
    } else {
        assert(after =~= lib);
    }
}

} // verus!
