//! Laws on macros in the app: what an import, the editor and the list make of them.
use crate::app::dev;
use crate::app::dev::DevState;
use crate::app::macro_overlay;
use crate::app::macro_overlay::OverlayView;
use crate::app::macros;
use crate::app::macros::ReportView;
use crate::app::rows;
use crate::controller::emulate;
use crate::controller::emulate::Preset;
use crate::controller::model;
use crate::games::macro_documents;
use crate::games::macro_keeping;
use crate::games::macro_lib;
use crate::games::macro_lib::{GameMacrosView, RecordView};
use crate::games::macro_text;
use crate::games::macro_text::MacroView;
use crate::games::GameView;
use crate::text;
use vstd::prelude::*;

verus! {

/// A library that holds a macro as it was written.
pub open spec fn holds(s: Seq<RecordView>, m: MacroView) -> bool {
    exists|k: int|
        0 <= k < s.len() && (#[trigger] s[k]).name == m.name && s[k].body == m.action && s[k].meta
            == m.meta
}

proof fn lemma_merged_holds(
    start: Seq<RecordView>,
    ms: Seq<MacroView>,
    nanos: Seq<u128>,
    j: int,
)
    requires
        !macro_lib::merged(start, ms, nanos).full,
        0 <= j < ms.len(),
        forall|a: int, b: int|
            0 <= a < b < ms.len() ==> !text::same_ignoring_case(
                (#[trigger] ms[a]).name,
                (#[trigger] ms[b]).name,
            ),
    ensures
        holds(macro_lib::merged(start, ms, nanos).macros, ms[j]),
    decreases ms.len(),
{
    let init = ms.drop_last();
    let n = ms.len() - 1;
    let before = macro_lib::merged(start, init, nanos);
    let after = macro_lib::merged(start, ms, nanos);
    if before.full {
        assert(after == before);
    }
    macro_keeping::law_imported_macro_is_kept(before, ms.last(), nanos[n], 0);
    macro_keeping::law_first_macro_of_a_name_is_found(before.macros, ms.last().name);
    let at = macro_lib::name_at(before.macros, ms.last().name);
    if j == n {
        if macro_keeping::named(before.macros, ms.last().name) {
            assert(after.macros[at].name == ms[j].name);
        } else {
            assert(after.macros[after.macros.len() - 1].name == ms[j].name);
        }
    } else {
        assert forall|a: int, b: int| 0 <= a < b < init.len() implies !text::same_ignoring_case(
            (#[trigger] init[a]).name,
            (#[trigger] init[b]).name,
        ) by {
            assert(!text::same_ignoring_case(ms[a].name, ms[b].name));
        }
        lemma_merged_holds(start, init, nanos, j);
        assert(init[j] == ms[j]);
        let k = choose|k: int|
            0 <= k < before.macros.len() && (#[trigger] before.macros[k]).name == ms[j].name
                && before.macros[k].body == ms[j].action && before.macros[k].meta == ms[j].meta;
        assert(!text::same_ignoring_case(ms[j].name, ms[n].name));
        macro_keeping::law_imported_macro_is_kept(before, ms.last(), nanos[n], k);
        assert(after.macros[k] == before.macros[k]);
    }
}

/// After an import that was done, the game it names holds every macro of the document as it was
/// written, with its headers.
pub proof fn law_imported_macros_are_there(
    lib: Map<Seq<char>, GameMacrosView>,
    s: Seq<char>,
    open_key: Seq<char>,
    catalog: Seq<GameView>,
    nanos: u128,
    j: int,
    header: Seq<char>,
)
    requires
        macros::imported(lib, s, open_key, catalog, nanos).1 is Done,
    ensures
        ({
            let (after, report) = macros::imported(lib, s, open_key, catalog, nanos);
            let doc = macro_text::document(s)->Ok_0;
            let game = macro_lib::game_of(after, report->play_key);
            &&& macro_text::document(s) is Ok
            &&& 0 <= j < doc.macros.len() ==> holds(game.macros, doc.macros[j])
            &&& doc.headers.dom().contains(header) ==> game.headers.dom().contains(header)
                && game.headers[header] == doc.headers[header]
            &&& report->switched <==> report->play_key != open_key
        }),
{
    let doc = macro_text::document(s)->Ok_0;
    macro_documents::law_document_keeps_the_limits(s);
    let bind = macro_lib::import_target(doc.headers, open_key, catalog);
    let (key, warning) = macros::bound_key(bind)->0;
    if 0 <= j < doc.macros.len() {
        lemma_merged_holds(
            macro_lib::game_of(lib, key).macros,
            doc.macros,
            macros::stamps(nanos, doc.macros.len()),
            j,
        );
    }
}

/// An import is refused where the text is no document, or its title fits several shortcuts; the
/// library then stays as it was.
pub proof fn law_unreadable_import_is_refused(
    lib: Map<Seq<char>, GameMacrosView>,
    s: Seq<char>,
    open_key: Seq<char>,
    catalog: Seq<GameView>,
    nanos: u128,
)
    requires
        macro_text::document(s) is Err,
    ensures
        macros::imported(lib, s, open_key, catalog, nanos).0 == lib,
        macros::imported(lib, s, open_key, catalog, nanos).1 is Refused,
{
}

/// The list shows each macro of the game by id and name, in its order.
pub proof fn law_list_shows_every_macro(g: GameMacrosView, i: int)
    requires
        0 <= i < g.macros.len(),
    ensures
        macros::rows_of(g).len() == g.macros.len(),
        macros::rows_of(g)[i].0 == g.macros[i].id,
        macros::rows_of(g)[i].1 == g.macros[i].name,
{
}

/// The editor shows the macro it was opened for, and nothing for a new one.
pub proof fn law_editor_shows_its_macro(
    lib: Map<Seq<char>, GameMacrosView>,
    play_key: Seq<char>,
    k: int,
)
    requires
        0 <= k < macro_lib::game_of(lib, play_key).macros.len(),
        macro_lib::distinct_ids(macro_lib::game_of(lib, play_key).macros),
    ensures
        ({
            let m = macro_lib::game_of(lib, play_key).macros[k];
            let e = macro_overlay::opened_editor(lib, play_key, Some(m.id));
            &&& e matches OverlayView::Edit { play_key: p, id, name, action, error } && p == play_key
                && id == Some(m.id) && name == m.name && action == m.body && error is None
            &&& macro_overlay::opened_editor(lib, play_key, None) matches OverlayView::Edit {
                id,
                name,
                action,
                ..
            } && id is None && name.len() == 0 && action.len() == 0
        }),
{
    let ms = macro_lib::game_of(lib, play_key).macros;
    macro_keeping::law_first_macro_with_the_id_is_found(ms, ms[k].id);
    let at = macro_lib::id_at(ms, ms[k].id);
    if at < k {
        assert(ms[at].id != ms[k].id);
    } else if k < at {
        assert(ms[k].id != ms[k].id);
    }
}

/// What is saved is the name without the blanks around it, and the chain with or without its
/// `action:` in front; a blank name is refused.
pub proof fn law_saved_macro_is_as_typed(
    lib: Map<Seq<char>, GameMacrosView>,
    play_key: Seq<char>,
    id: Option<Seq<char>>,
    name: Seq<char>,
    chain: Seq<char>,
    nanos: u128,
)
    requires
        text::trim(chain) == chain,
        !text::begins(chain, "action:"@),
    ensures
        macros::editor_action(chain) == chain,
        text::trim("action:"@ + chain) == "action:"@ + chain ==> macros::editor_action(
            "action:"@ + chain,
        ) == chain,
        text::trim(name).len() == 0 ==> macros::saved(lib, play_key, id, name, chain, nanos) is Err,
        macros::saved(lib, play_key, None, name, chain, nanos) matches Ok(g) ==> g.macros.last().name
            == text::trim(name) && g.macros.last().body == chain,
{
    let t = "action:"@ + chain;
    assert(t.take("action:"@.len() as int) == "action:"@);
    assert(t.skip("action:"@.len() as int) == chain);
    macro_keeping::law_added_macro_is_kept(
        macro_lib::game_of(lib, play_key),
        text::trim(name),
        chain,
        nanos,
    );
}

/// Removing a macro takes out the one with the id; the others stay. A game is dropped with its
/// last macro where it has no header.
pub proof fn law_removed_macro_is_gone(
    lib: Map<Seq<char>, GameMacrosView>,
    play_key: Seq<char>,
    id: Seq<char>,
    m: RecordView,
)
    ensures
        ({
            let before = macro_lib::game_of(lib, play_key).macros;
            let after = macro_lib::game_of(macro_overlay::removed(lib, play_key, id), play_key).macros;
            &&& after.contains(m) ==> m.id != id || !lib.dom().contains(play_key)
            &&& before.contains(m) && m.id != id ==> after.contains(m)
        }),
        forall|k: Seq<char>|
            k != play_key ==> macro_overlay::removed(lib, play_key, id).dom().contains(k)
                == #[trigger] lib.dom().contains(k),
{
    broadcast use vstd::seq_lib::group_filter_ensures;

    let before = macro_lib::game_of(lib, play_key).macros;
    let p = |r: RecordView| r.id != id;
    let rest = before.filter(p);
    if rest.contains(m) {
        let i = choose|i: int| 0 <= i < rest.len() && rest[i] == m;
        assert(p(rest[i]));
    }
    if before.contains(m) && m.id != id {
        let i = choose|i: int| 0 <= i < before.len() && before[i] == m;
        assert(p(before[i]));
        assert(rest.contains(before[i]));
    }
}

/// A list that is shown anew keeps its selection where there is still such a row, and goes to the
/// last row otherwise.
pub proof fn law_selection_stays_in_the_list(
    o: OverlayView,
    lib: Map<Seq<char>, GameMacrosView>,
    status: Option<Seq<char>>,
)
    requires
        o is List,
        macro_lib::game_of(lib, o.key()).macros.len() <= usize::MAX,
    ensures
        o.relisted(lib, status) matches OverlayView::List {
            play_key,
            rows,
            selected,
            run_mode,
            status: s,
            ..
        } && play_key == o.key() && run_mode == o->run_mode && s == status && rows.len()
            == macro_lib::game_of(lib, o.key()).macros.len() && (rows.len() > 0 ==> selected
            < rows.len()) && (o->selected < rows.len() ==> selected == o->selected) && (rows.len() > 0
            && o->selected >= rows.len() ==> selected == rows.len() - 1),
{
}

/// A Steam game is named by its number and title; another game by the header it has, or by its
/// title alone.
pub proof fn law_header_names_the_game(
    lib: Map<Seq<char>, GameMacrosView>,
    appid: u32,
    key: Seq<char>,
    title: Seq<char>,
)
    requires
        !text::begins(key, "steam:"@),
    ensures
        macros::row_header(lib, "steam:"@ + text::dec(appid as nat), title) == text::dec(
            appid as nat,
        ) + "|"@ + title,
        macros::row_header(lib, key, title) == (if macro_lib::game_of(
            lib,
            key,
        ).headers.dom().contains("game"@) {
            macro_lib::game_of(lib, key).headers["game"@]
        } else {
            "|"@ + title
        }),
{
    let k = "steam:"@ + text::dec(appid as nat);
    assert(k.take("steam:"@.len() as int) == "steam:"@);
    assert(k.skip("steam:"@.len() as int) == text::dec(appid as nat));
    text::lemma_dec_parses(appid as nat, u32::MAX as nat);
}

/// Macros open to edit for a game of the catalog while games are edited, and to run for the game
/// that is running and has some.
pub proof fn law_macros_open_for_the_running_game(
    row: rows::StartRowView,
    editing: bool,
    running: Option<Seq<char>>,
)
    ensures
        ({
            let out = row.edit matches Some(rows::EditView::Steam { in_catalog, .. }) && !in_catalog;
            let r = macro_overlay::opens(row, editing, running);
            &&& r == Some(false) <==> editing && !out
            &&& r == Some(true) <==> !editing && !out && running == Some(row.target)
                && row.has_macros
        }),
{
}

// ---------------------------------------------------------------------------
// Developer presets
// ---------------------------------------------------------------------------

/// A preset stands in for real pads until they are cleared; a pause remembers the level of the
/// pad that goes.
pub proof fn law_preset_stands_in(
    d: DevState,
    preset: Preset,
    s: Seq<model::StatusView>,
)
    ensures
        dev::state_after(d, preset, s).emulating <==> preset != Preset::Clear,
        preset != Preset::AnalyticsPause && preset != Preset::Clear ==> dev::state_after(
            d,
            preset,
            s,
        ).paused_percent == d.paused_percent,
        emulate::primary_among(s) matches Some(p) ==> dev::state_after(
            d,
            Preset::AnalyticsPause,
            s,
        ).paused_percent == Some(p.percent),
        dev::state_after(d, Preset::Clear, s).paused_percent is None,
{
}

/// A step of charging counts as 15 minutes of charge, a step of draining as 25 minutes of play;
/// presets that are no steps count as nothing.
pub proof fn law_steps_count_as_time(
    a: crate::analytics::store::StoreView,
    preset: Preset,
    now: u64,
)
    ensures
        dev::analytics_before(a, Preset::AnalyticsChargeAdvance, now) == a.dev_credited(
            "emu-"@ + "1"@,
            900_000,
        ),
        dev::analytics_before(a, Preset::AnalyticsDrainAdvance, now) == a.dev_credited(
            "emu-"@ + "1"@,
            1_500_000,
        ),
        !preset.analytic() ==> dev::analytics_before(a, preset, now) == a,
{
}

/// The selected macro is the one in the selected row; the editor has none.
pub proof fn law_selected_row_is_the_macro(o: OverlayView)
    ensures
        o matches OverlayView::List { rows, selected, .. } ==> (selected < rows.len()
            ==> o.selected_id() == Some(rows[selected as int].0)),
        o matches OverlayView::List { rows, selected, .. } ==> (selected >= rows.len()
            ==> o.selected_id() is None),
        o is Edit ==> o.selected_id() is None,
{
}

/// Opening the macros of a game gives it its header and changes no macro, nor another game.
pub proof fn law_opened_game_has_its_header(
    lib: Map<Seq<char>, GameMacrosView>,
    row: rows::StartRowView,
    other: Seq<char>,
)
    requires
        other != row.play_key,
    ensures
        ({
            let after = macro_overlay::with_row_header(lib, row);
            let g = macro_lib::game_of(after, row.play_key);
            &&& g.headers.dom().contains("game"@)
            &&& g.headers["game"@] == macros::row_header(lib, row.play_key, row.title)
            &&& g.macros == macro_lib::game_of(lib, row.play_key).macros
            &&& macro_lib::game_of(after, other) == macro_lib::game_of(lib, other)
        }),
{
}

/// A preset shows its pads; clearing shows none. Unplugging a pad that was not full shows it full
/// first. A resumed pad goes on at the level it was paused at.
pub proof fn law_preset_shows_its_pads(
    d: DevState,
    preset: Preset,
    p: crate::app::pads::PadsView,
    level: u8,
)
    ensures
        dev::preset_next(d, Preset::Clear, p).len() == 0,
        preset != Preset::Clear && preset != Preset::AnalyticsResume ==> dev::preset_next(
            d,
            preset,
            p,
        ) == emulate::preset_pads(preset, p.controllers),
        ({
            let r = dev::preset_next(
                DevState { paused_percent: Some(level), ..d },
                Preset::AnalyticsResume,
                p,
            );
            &&& r.len() == 1
            &&& r[0].percent == level
            &&& r[0].state == model::PowerState::Discharging
            &&& r[0].serial == "emu-"@ + "1"@
        }),
        dev::completes_first(preset, p.controllers) ==> preset == Preset::AnalyticsUnplugFull,
        dev::full_pad().len() == 1,
        dev::full_pad()[0].percent == 100,
        dev::full_pad()[0].state == model::PowerState::Complete,
        dev::full_pad()[0].serial == "emu-"@ + "1"@,
{
}

/// What a preset leaves on screen are its pads.
pub proof fn law_preset_leaves_its_pads(
    d: DevState,
    preset: Preset,
    p: crate::app::pads::PadsView,
    prefs: crate::prefs::Prefs,
    now: u64,
)
    ensures
        crate::app::pads::same_pads(
            dev::dev_applied(p, d, preset, prefs, now).controllers,
            dev::preset_next(d, preset, dev::credited(p, preset, now)),
        ),
{
    crate::app::shown_pads::law_applied_pads_are_shown(
        dev::shown_before(p, preset, prefs, now),
        dev::preset_next(d, preset, dev::credited(p, preset, now)),
        prefs,
        now,
    );
}

/// A selection stays where it is while the list has that row, goes to the last row where it has
/// not, and to the top of an empty list.
pub proof fn law_row_of_a_changed_list(selected: usize, rows: usize, r: usize, again: usize)
    requires
        call_ensures(macros::clamped_selection, (selected, rows), r),
        call_ensures(macros::clamped_selection, (r, rows), again),
    ensures
        rows > 0 ==> r < rows,
        selected < rows ==> r == selected,
        selected >= rows && rows > 0 ==> r + 1 == rows,
        rows == 0 ==> r == 0,
        again == r,
{
}

/// A macro of the game that is written as one step runs as that step, where the game's processes
/// are known; without them it does not run, and a macro that is not there never does.
pub proof fn law_macro_runs_as_written(
    lib: &macro_lib::MacroLibrary,
    key: &str,
    id: &str,
    paths: &[String],
    k: int,
    step: macro_text::StepView,
    r: macros::RunPlan,
)
    requires
        call_ensures(macros::plan_run, (lib, key, id, paths), r),
        0 <= k < macro_lib::game_of(lib@, key@).macros.len(),
        macro_lib::game_of(lib@, key@).macros[k].id == id@,
        forall|j: int|
            0 <= j < k ==> (#[trigger] macro_lib::game_of(lib@, key@).macros[j]).id != id@,
        macro_text::action_steps(macro_lib::game_of(lib@, key@).macros[k].body) == Ok::<
            Seq<macro_text::StepView>,
            Seq<char>,
        >(seq![step]),
    ensures
        paths@.len() == 0 ==> r is NoPaths,
        paths@.len() > 0 ==> (r matches macros::RunPlan::Run(v) && v@.len() == 1 && v@[0]@ == step),
{
    let ms = macro_lib::game_of(lib@, key@).macros;
    lemma_id_at(ms, id@, k);
    if let macros::RunPlan::Run(v) = r {
        let w = macro_text::steps_view(v@);
        assert(w.len() == v@.len());
        assert(v@.len() == 1 ==> w[0] == v@[0]@);
    }
}

proof fn lemma_id_at(ms: Seq<RecordView>, id: Seq<char>, k: int)
    requires
        0 <= k < ms.len(),
        ms[k].id == id,
        forall|j: int| 0 <= j < k ==> (#[trigger] ms[j]).id != id,
    ensures
        macro_lib::id_at(ms, id) == k,
    decreases k,
{
    if k > 0 {
        let t = ms.drop_first();
        assert(ms[0].id != id);
        assert forall|j: int| 0 <= j < k - 1 implies (#[trigger] t[j]).id != id by {
            assert(t[j] == ms[j + 1]);
        }
        assert(t[k - 1] == ms[k]);
        lemma_id_at(t, id, k - 1);
    }
}

} // verus!
