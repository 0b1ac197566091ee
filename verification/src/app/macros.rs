//! Macros on the start screen: listing, editing, importing and running them.
use crate::games;
use crate::games::macro_lib;
use crate::games::macro_lib::{parse_import, ImportBind, MacroLibrary};
use crate::games::macro_text;
use crate::games::macro_text::{parse_action, GameRef, Step};
use crate::games::GameEntry;
use crate::text;
use vstd::prelude::*;
use vstd::string::StringExecFns;

verus! {

/// A macro as the overlay lists it.
#[derive(Debug, Clone, PartialEq, Eq)]
pub struct MacroListRow {
    pub id: String,
    pub name: String,
}

/// Models of a list of rows: id and name.
pub open spec fn row_pairs(v: Seq<MacroListRow>) -> Seq<(Seq<char>, Seq<char>)> {
    Seq::new(v.len(), |i: int| (v[i].id@, v[i].name@))
}

/// Rows of a game's macros.
pub open spec fn rows_of(g: macro_lib::GameMacrosView) -> Seq<(Seq<char>, Seq<char>)> {
    Seq::new(g.macros.len(), |i: int| (g.macros[i].id, g.macros[i].name))
}

/// Lists the macros of a game.
pub fn macro_list_rows(lib: &MacroLibrary, play_key: &str) -> (r: Vec<MacroListRow>)
    ensures
        row_pairs(r@) == rows_of(macro_lib::game_of(lib@, play_key@)),
{
    let mut out: Vec<MacroListRow> = Vec::new();
    let ghost want = rows_of(macro_lib::game_of(lib@, play_key@));
    assert(row_pairs(out@) =~= want.take(0));
    if let Some(game) = lib.for_game(play_key) {
        let mut i: usize = 0;
        while i < game.macros.len()
            invariant
                i <= game.macros@.len(),
                want == rows_of(game@),
                row_pairs(out@) == want.take(i as int),
            decreases game.macros@.len() - i,
        {
            let m = &game.macros[i];
            let ghost before = row_pairs(out@);
            out.push(MacroListRow { id: m.id.clone(), name: m.name.clone() });
            assert(row_pairs(out@) =~= before.push((m@.id, m@.name)));
            assert(want.take(i + 1) =~= want.take(i as int).push((m@.id, m@.name)));
            i = i + 1;
        }
        assert(want.take(i as int) =~= want);
    } else {
        assert(want.take(0) =~= want);
    }
    out
}

/// Place of the selection in a list that changed.
pub fn clamped_selection(selected: usize, rows: usize) -> (r: usize)
    ensures
        r == (if rows == 0 {
            0
        } else if selected < rows {
            selected
        } else {
            (rows - 1) as usize
        }),
        rows > 0 ==> r < rows,
{
    if rows == 0 {
        0
    } else if selected < rows {
        selected
    } else {
        rows - 1
    }
}

/// The `game:` header of a row: a Steam game's id and title, the stored header of a shortcut,
/// or its title.
pub open spec fn row_header(
    lib: Map<Seq<char>, macro_lib::GameMacrosView>,
    play_key: Seq<char>,
    title: Seq<char>,
) -> Seq<char> {
    let g = macro_lib::game_of(lib, play_key);
    if text::begins(play_key, "steam:"@) {
        match text::parse_unsigned(play_key.skip("steam:"@.len() as int), u32::MAX as nat) {
            Some(n) => text::dec(n) + "|"@ + title,
            None => "|"@ + title,
        }
    } else if g.headers.dom().contains("game"@) {
        g.headers["game"@]
    } else {
        "|"@ + title
    }
}

/// The `game:` header of a row.
pub fn game_header_for_row(lib: &MacroLibrary, play_key: &str, title: &str) -> (r: String)
    ensures
        r@ == row_header(lib@, play_key@, title@),
{
    if text::str_begins(play_key, "steam:") {
        proof {
            reveal_strlit("steam:");
        }
        let cs = text::chars_of(play_key);
        let digits = text::slice_to_vec_range(cs.as_slice(), 6, cs.len());
        assert(digits@ == play_key@.skip(6));
        let appid = text::chars_parse_unsigned(digits.as_slice(), u32::MAX);
        return GameRef::format(appid, title);
    }
    if let Some(game) = lib.for_game(play_key) {
        if let Some(stored) = game.headers.get("game") {
            return stored.clone();
        }
    }
    GameRef::format(None, title)
}

/// Name and action that the editor opens with.
pub fn editor_content(lib: &MacroLibrary, play_key: &str, id: Option<&str>) -> (r: (
    String,
    String,
))
    ensures
        ({
            let ms = macro_lib::game_of(lib@, play_key@).macros;
            match id {
                Some(id) => {
                    let at = macro_lib::id_at(ms, id@);
                    if at < ms.len() {
                        r.0@ == ms[at].name && r.1@ == ms[at].body
                    } else {
                        r.0@.len() == 0 && r.1@.len() == 0
                    }
                },
                None => r.0@.len() == 0 && r.1@.len() == 0,
            }
        }),
{
    if let Some(id) = id {
        if let Some(m) = lib.find_macro(play_key, id) {
            return (m.name.clone(), m.body.clone());
        }
    }
    (String::new(), String::new())
}

/// The action of an editor field: blanks around it, and a pasted `action:` lead, do not count.
pub open spec fn editor_action(field: Seq<char>) -> Seq<char> {
    let t = text::trim(field);
    if text::begins(t, "action:"@) {
        text::trim(t.skip("action:"@.len() as int))
    } else {
        t
    }
}

fn action_of(field: &str) -> (r: String)
    ensures
        r@ == editor_action(field@),
{
    let t = text::str_trim(field);
    if text::str_begins(t.as_str(), "action:") {
        proof {
            reveal_strlit("action:");
        }
        let cs = text::chars_of(t.as_str());
        let rest = text::slice_to_vec_range(cs.as_slice(), 7, cs.len());
        assert(rest@ == t@.skip(7));
        text::to_text(text::chars_trim(rest.as_slice()))
    } else {
        t
    }
}

/// The library once the editor is saved, or why that is refused.
pub open spec fn saved(
    lib: Map<Seq<char>, macro_lib::GameMacrosView>,
    play_key: Seq<char>,
    id: Option<Seq<char>>,
    name: Seq<char>,
    action: Seq<char>,
    nanos: u128,
) -> Result<macro_lib::GameMacrosView, Seq<char>> {
    let n = text::trim(name);
    let a = editor_action(action);
    if n.len() == 0 {
        Err("name must be non-empty"@)
    } else {
        match id {
            Some(id) => macro_lib::rewritten(lib, play_key, id, n, a),
            None => macro_lib::added(macro_lib::game_of(lib, play_key), n, a, nanos),
        }
    }
}

/// Model of an optional id.
pub open spec fn id_view(id: Option<&str>) -> Option<Seq<char>> {
    match id {
        Some(s) => Some(s@),
        None => None,
    }
}

/// Saves a macro from the editor: a new one is made at the time `nanos`.
pub fn save_macro(
    lib: &mut MacroLibrary,
    play_key: &str,
    id: Option<&str>,
    name: &str,
    action: &str,
    nanos: u128,
) -> (r: Result<(), String>)
    ensures
        match saved(old(lib)@, play_key@, id_view(id), name@, action@, nanos) {
            Ok(after) => r is Ok && final(lib)@ == old(lib)@.insert(play_key@, after),
            Err(m) => (r matches Err(e) && e@ == m) && final(lib)@ == old(lib)@,
        },
{
    let name = text::str_trim(name);
    if name.as_str().is_empty() {
        return Err(text::own("name must be non-empty"));
    }
    let action = action_of(action);
    match id {
        Some(id) => lib.update_macro(play_key, id, name, action),
        None => match lib.add_macro(play_key, name, action, nanos) {
            Ok(_) => Ok(()),
            Err(e) => Err(e),
        },
    }
}

// ---------------------------------------------------------------------------
// Import
// ---------------------------------------------------------------------------

/// What an import came to.
#[derive(Debug)]
pub enum ImportReport {
    /// Nothing was imported; the text says why.
    Refused(String),
    /// Macros went to the game of this key; `switched` when that is not the open one.
    Done { play_key: String, status: String, switched: bool },
}

/// Model of [`ImportReport`].
#[verifier::ext_equal]
pub enum ReportView {
    Refused(Seq<char>),
    Done { play_key: Seq<char>, status: Seq<char>, switched: bool },
}

impl View for ImportReport {
    type V = ReportView;

    open spec fn view(&self) -> ReportView {
        match *self {
            ImportReport::Refused(m) => ReportView::Refused(m@),
            ImportReport::Done { play_key, status, switched } => ReportView::Done {
                play_key: play_key@,
                status: status@,
                switched,
            },
        }
    }
}

/// Times at which the macros of an import are made: one after the other.
pub open spec fn stamps(nanos: u128, n: nat) -> Seq<u128> {
    Seq::new(n, |i: int| stamp(nanos, i))
}

/// The `i`-th time after `nanos`, on a clock that wraps.
pub open spec fn stamp(nanos: u128, i: int) -> u128 {
    if nanos + i > u128::MAX {
        (nanos + i - u128::MAX - 1) as u128
    } else {
        (nanos + i) as u128
    }
}

fn make_stamps(nanos: u128, n: usize) -> (r: Vec<u128>)
    ensures
        r@ == stamps(nanos, n as nat),
{
    let mut out: Vec<u128> = Vec::new();
    let mut i: usize = 0;
    while i < n
        invariant
            i <= n,
            out@.len() == i,
            forall|k: int| 0 <= k < i ==> #[trigger] out@[k] == stamp(nanos, k),
        decreases n - i,
    {
        out.push(nanos.wrapping_add(i as u128));
        i = i + 1;
    }
    assert(out@ =~= stamps(nanos, n as nat));
    out
}

/// Text of an error in a document.
pub open spec fn error_text(e: macro_text::ErrorView) -> Seq<char> {
    match e.line {
        Some(n) => "line "@ + text::dec(n as nat) + ": "@ + e.message,
        None => e.message,
    }
}

/// What is said of an import.
pub open spec fn import_status(added: nat, updated: nat, warning: Option<Seq<char>>) -> Seq<char> {
    "imported +"@ + text::dec(added) + " ~"@ + text::dec(updated) + (match warning {
        Some(w) => " ("@ + w + ")"@,
        None => seq![],
    })
}

/// Key and warning of an import target; none when it is ambiguous.
pub open spec fn bound_key(b: macro_lib::BindView) -> Option<(Seq<char>, Option<Seq<char>>)> {
    match b {
        macro_lib::BindView::Target(k) => Some((k, None)),
        macro_lib::BindView::Fallback { play_key, warning } => Some((play_key, Some(warning))),
        macro_lib::BindView::Ambiguous(_) => None,
    }
}

/// The library with a document merged into a game.
pub open spec fn with_document(
    lib: Map<Seq<char>, macro_lib::GameMacrosView>,
    key: Seq<char>,
    doc: macro_text::DocumentView,
    nanos: u128,
) -> Map<Seq<char>, macro_lib::GameMacrosView> {
    let g = macro_lib::game_of(lib, key);
    lib.insert(
        key,
        macro_lib::GameMacrosView {
            headers: g.headers.union_prefer_right(doc.headers),
            macros: macro_lib::merged(
                g.macros,
                doc.macros,
                stamps(nanos, doc.macros.len()),
            ).macros,
        },
    )
}

/// What importing a text does: the library then, and what is said.
pub open spec fn imported(
    lib: Map<Seq<char>, macro_lib::GameMacrosView>,
    s: Seq<char>,
    open_key: Seq<char>,
    catalog: Seq<games::GameView>,
    nanos: u128,
) -> (Map<Seq<char>, macro_lib::GameMacrosView>, ReportView) {
    match macro_text::document(s) {
        Err(e) => (lib, ReportView::Refused(error_text(e))),
        Ok(doc) => {
            let bind = macro_lib::import_target(doc.headers, open_key, catalog);
            match bound_key(bind) {
                None => (lib, ReportView::Refused(bind->Ambiguous_0)),
                Some((key, warning)) => {
                    let m = macro_lib::merged(
                        macro_lib::game_of(lib, key).macros,
                        doc.macros,
                        stamps(nanos, doc.macros.len()),
                    );
                    (
                        with_document(lib, key, doc, nanos),
                        if m.full {
                            ReportView::Refused(macro_lib::full_message())
                        } else {
                            ReportView::Done {
                                play_key: key,
                                status: import_status(m.added, m.updated, warning),
                                switched: key != open_key,
                            }
                        },
                    )
                },
            }
        },
    }
}

fn status_text(added: usize, updated: usize, warning: &Option<String>) -> (r: String)
    ensures
        r@ == import_status(added as nat, updated as nat, games::text_option(*warning)),
{
    let mut r = text::own("imported +");
    text::push_dec(&mut r, added as u64);
    r.append(" ~");
    text::push_dec(&mut r, updated as u64);
    let ghost before = r@;
    match warning {
        Some(w) => {
            r.append(" (");
            r.append(w.as_str());
            r.append(")");
            assert(r@ =~= before + (" ("@ + w@ + ")"@));
        },
        None => {
            assert(r@ =~= before + Seq::<char>::empty());
        },
    }
    r
}

/// Imports pasted share text into the game it names, or into the open one. New macros are
/// made at the time `nanos`.
pub fn import_text(
    lib: &mut MacroLibrary,
    s: &str,
    open_key: &str,
    catalog: &[GameEntry],
    nanos: u128,
) -> (r: ImportReport)
    ensures
        (final(lib)@, r@) == imported(
            old(lib)@,
            s@,
            open_key@,
            games::game_views(catalog@),
            nanos,
        ),
{
    let doc = match parse_import(s) {
        Ok(doc) => doc,
        Err(e) => {
            return ImportReport::Refused(e.to_string());
        },
    };
    let (key, warning) = match lib.resolve_import_target(&doc, open_key, catalog) {
        ImportBind::Target(key) => (key, None),
        ImportBind::Fallback { play_key, warning } => (play_key, Some(warning)),
        ImportBind::Ambiguous(m) => {
            return ImportReport::Refused(m);
        },
    };
    let times = make_stamps(nanos, doc.macros.len());
    match lib.merge_document(key.as_str(), &doc, times.as_slice()) {
        Ok(result) => {
            let status = status_text(result.added, result.updated, &warning);
            let switched = !text::str_eq(key.as_str(), open_key);
            ImportReport::Done { play_key: key, status, switched }
        },
        Err(e) => ImportReport::Refused(e),
    }
}

// ---------------------------------------------------------------------------
// Running
// ---------------------------------------------------------------------------

/// What running a macro comes to.
#[derive(Debug)]
pub enum RunPlan {
    /// The macro is gone.
    Missing,
    /// Its action does not parse.
    BadAction(String),
    /// Nothing is known of the game's processes.
    NoPaths,
    /// Focus the game, close the start screen, then run these steps.
    Run(Vec<Step>),
}

/// Prepares a macro of the running game, whose processes match `paths`.
pub fn plan_run(lib: &MacroLibrary, play_key: &str, id: &str, paths: &[String]) -> (r:
    RunPlan)
    ensures
        ({
            let ms = macro_lib::game_of(lib@, play_key@).macros;
            let at = macro_lib::id_at(ms, id@);
            if at >= ms.len() {
                r is Missing
            } else {
                match macro_text::action_steps(ms[at].body) {
                    Err(m) => r matches RunPlan::BadAction(e) && e@ == m,
                    Ok(steps) => if paths@.len() == 0 {
                        r is NoPaths
                    } else {
                        r matches RunPlan::Run(v) && macro_text::steps_view(v@) == steps
                    },
                }
            }
        }),
{
    let record = match lib.find_macro(play_key, id) {
        Some(m) => m,
        None => {
            return RunPlan::Missing;
        },
    };
    let steps = match parse_action(record.body.as_str()) {
        Ok(s) => s,
        Err(e) => {
            return RunPlan::BadAction(e);
        },
    };
    if paths.len() == 0 {
        return RunPlan::NoPaths;
    }
    RunPlan::Run(steps)
}

// ---------------------------------------------------------------------------
// Laws
// ---------------------------------------------------------------------------

/// A refused text leaves the library alone, unless it was refused only because the game filled
/// up on the way.
pub proof fn law_refused_import_changes_nothing(
    lib: Map<Seq<char>, macro_lib::GameMacrosView>,
    s: Seq<char>,
    open_key: Seq<char>,
    catalog: Seq<games::GameView>,
    nanos: u128,
)
    requires
        imported(lib, s, open_key, catalog, nanos).1 matches ReportView::Refused(m) && m
            != macro_lib::full_message(),
    ensures
        imported(lib, s, open_key, catalog, nanos).0 == lib,
{
}

/// An import touches one game only.
pub proof fn law_import_touches_one_game(
    lib: Map<Seq<char>, macro_lib::GameMacrosView>,
    s: Seq<char>,
    open_key: Seq<char>,
    catalog: Seq<games::GameView>,
    nanos: u128,
    other: Seq<char>,
)
    requires
        macro_text::document(s) is Ok,
        bound_key(
            macro_lib::import_target(macro_text::document(s)->Ok_0.headers, open_key, catalog),
        ) matches Some(b) && b.0 != other,
    ensures
        macro_lib::game_of(imported(lib, s, open_key, catalog, nanos).0, other)
            == macro_lib::game_of(lib, other),
{
}

/// New macros of one import get distinct times, and with them distinct ids.
pub proof fn law_import_times_differ(nanos: u128, n: nat, i: int, j: int)
    requires
        0 <= i < j < n <= u64::MAX,
    ensures
        stamps(nanos, n)[i] != stamps(nanos, n)[j],
{
}

} // verus!
