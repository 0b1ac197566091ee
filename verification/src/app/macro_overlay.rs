//! The macro overlay of the start screen: a list of a game's macros, or the editor of one.
use crate::app::macros;
use crate::app::macros::{
    clamped_selection, editor_content, game_header_for_row, import_text, macro_list_rows, plan_run,
    save_macro, ImportReport, MacroListRow, RunPlan,
};
use crate::app::rows;
use crate::app::rows::{find_row, StartRow};
use crate::games;
use crate::games::macro_lib;
use crate::games::macro_lib::MacroLibrary;
use crate::games::macro_text;
use crate::games::GameEntry;
use crate::text;
use vstd::prelude::*;

verus! {

/// What the overlay shows.
#[derive(Debug)]
pub enum MacroOverlay {
    /// Macros of a game, to run or to edit.
    List {
        play_key: String,
        title: String,
        run_mode: bool,
        rows: Vec<MacroListRow>,
        selected: usize,
        status: Option<String>,
    },
    /// One macro in the editor; a new one has no id.
    Edit {
        play_key: String,
        id: Option<String>,
        name: String,
        action: String,
        error: Option<String>,
    },
}

/// Model of [`MacroOverlay`].
#[verifier::ext_equal]
pub enum OverlayView {
    List {
        play_key: Seq<char>,
        title: Seq<char>,
        run_mode: bool,
        rows: Seq<(Seq<char>, Seq<char>)>,
        selected: usize,
        status: Option<Seq<char>>,
    },
    Edit {
        play_key: Seq<char>,
        id: Option<Seq<char>>,
        name: Seq<char>,
        action: Seq<char>,
        error: Option<Seq<char>>,
    },
}

impl View for MacroOverlay {
    type V = OverlayView;

    open spec fn view(&self) -> OverlayView {
        match *self {
            MacroOverlay::List { play_key, title, run_mode, rows, selected, status } => {
                OverlayView::List {
                    play_key: play_key@,
                    title: title@,
                    run_mode,
                    rows: macros::row_pairs(rows@),
                    selected,
                    status: games::text_option(status),
                }
            },
            MacroOverlay::Edit { play_key, id, name, action, error } => OverlayView::Edit {
                play_key: play_key@,
                id: games::text_option(id),
                name: name@,
                action: action@,
                error: games::text_option(error),
            },
        }
    }
}

/// Library of macros, as a model.
pub type Library = Map<Seq<char>, macro_lib::GameMacrosView>;

impl OverlayView {
    /// Play key of the game that the overlay is about.
    pub open spec fn key(self) -> Seq<char> {
        match self {
            OverlayView::List { play_key, .. } => play_key,
            OverlayView::Edit { play_key, .. } => play_key,
        }
    }

    /// The overlay with a message: in a list its status, elsewhere nothing.
    pub open spec fn with_status(self, m: Seq<char>) -> OverlayView {
        match self {
            OverlayView::List { play_key, title, run_mode, rows, selected, .. } => {
                OverlayView::List { play_key, title, run_mode, rows, selected, status: Some(m) }
            },
            OverlayView::Edit { .. } => self,
        }
    }

    /// Id of the selected macro of a list.
    pub open spec fn selected_id(self) -> Option<Seq<char>> {
        match self {
            OverlayView::List { rows, selected, .. } => if selected < rows.len() {
                Some(rows[selected as int].0)
            } else {
                None
            },
            OverlayView::Edit { .. } => None,
        }
    }

    /// The list with its macros read again.
    pub open spec fn relisted(self, lib: Library, status: Option<Seq<char>>) -> OverlayView {
        match self {
            OverlayView::List { play_key, title, run_mode, selected, .. } => {
                let rows = macros::rows_of(macro_lib::game_of(lib, play_key));
                OverlayView::List {
                    play_key,
                    title,
                    run_mode,
                    rows,
                    selected: if rows.len() == 0 {
                        0
                    } else if selected < rows.len() {
                        selected
                    } else {
                        (rows.len() - 1) as usize
                    },
                    status,
                }
            },
            OverlayView::Edit { .. } => self,
        }
    }

    /// Status of a list.
    pub open spec fn status_now(self) -> Option<Seq<char>> {
        match self {
            OverlayView::List { status, .. } => status,
            OverlayView::Edit { .. } => None,
        }
    }
}

/// A list as it opens.
pub open spec fn opened_list(
    lib: Library,
    play_key: Seq<char>,
    title: Seq<char>,
    run_mode: bool,
    status: Option<Seq<char>>,
) -> OverlayView {
    OverlayView::List {
        play_key,
        title,
        run_mode,
        rows: macros::rows_of(macro_lib::game_of(lib, play_key)),
        selected: 0,
        status,
    }
}

/// Title of the game list's row with a play key, or the key itself.
pub open spec fn listed_title(rs: Seq<rows::StartRowView>, play_key: Seq<char>) -> Seq<char> {
    let at = rows::key_at(rs, play_key);
    if at < rs.len() {
        rs[at].title
    } else {
        play_key
    }
}

/// The `game:` header that shared macros of a game carry where none is stored.
pub open spec fn listed_header(
    lib: Library,
    rs: Seq<rows::StartRowView>,
    play_key: Seq<char>,
) -> Seq<char> {
    let at = rows::key_at(rs, play_key);
    if at < rs.len() {
        macros::row_header(lib, rs[at].play_key, rs[at].title)
    } else {
        play_key
    }
}

/// An editor as it opens.
pub open spec fn opened_editor(lib: Library, play_key: Seq<char>, id: Option<Seq<char>>) -> OverlayView {
    let ms = macro_lib::game_of(lib, play_key).macros;
    let at = match id {
        Some(i) => macro_lib::id_at(ms, i),
        None => ms.len() as int,
    };
    OverlayView::Edit {
        play_key,
        id,
        name: if at < ms.len() {
            ms[at].name
        } else {
            seq![]
        },
        action: if at < ms.len() {
            ms[at].body
        } else {
            seq![]
        },
        error: None,
    }
}

fn open_list(
    lib: &MacroLibrary,
    play_key: String,
    title: String,
    run_mode: bool,
    status: Option<String>,
) -> (r: MacroOverlay)
    ensures
        r@ == opened_list(lib@, play_key@, title@, run_mode, games::text_option(status)),
{
    let rows = macro_list_rows(lib, play_key.as_str());
    MacroOverlay::List { play_key, title, run_mode, rows, selected: 0, status }
}

fn title_of(rs: &[StartRow], play_key: &str) -> (r: String)
    ensures
        r@ == listed_title(rows::start_rows(rs@), play_key@),
{
    let at: usize = find_row(rs, play_key);
    if at < rs.len() {
        rs[at].title.clone()
    } else {
        text::own(play_key)
    }
}

fn header_of(lib: &MacroLibrary, rs: &[StartRow], play_key: &str) -> (r: String)
    ensures
        r@ == listed_header(lib@, rows::start_rows(rs@), play_key@),
{
    let at: usize = find_row(rs, play_key);
    if at < rs.len() {
        game_header_for_row(lib, rs[at].play_key.as_str(), rs[at].title.as_str())
    } else {
        text::own(play_key)
    }
}

/// Whether the overlay opens for a row, and then whether to run macros: a game of the catalog
/// has its macros edited while the catalog is, and otherwise run while it is the running game.
pub open spec fn opens(
    row: rows::StartRowView,
    editing: bool,
    running_target: Option<Seq<char>>,
) -> Option<bool> {
    let in_catalog = match row.edit {
        Some(rows::EditView::Steam { in_catalog, .. }) => in_catalog,
        _ => true,
    };
    let run_mode = !editing && running_target == Some(row.target) && row.has_macros;
    if !in_catalog || (!editing && !run_mode) {
        None
    } else {
        Some(run_mode)
    }
}

/// The library with a row's `game:` header.
pub open spec fn with_row_header(lib: Library, row: rows::StartRowView) -> Library {
    let g = macro_lib::game_of(lib, row.play_key);
    lib.insert(
        row.play_key,
        macro_lib::GameMacrosView {
            headers: g.headers.insert("game"@, macros::row_header(lib, row.play_key, row.title)),
            ..g
        },
    )
}

/// Opens the overlay for the selected row, and gives its game the header of the row.
pub fn open_macros_overlay(
    lib: &mut MacroLibrary,
    row: Option<&StartRow>,
    editing: bool,
    running_target: Option<&str>,
) -> (r: Option<MacroOverlay>)
    ensures
        match row {
            Some(row) => match opens(row@, editing, macros::id_view(running_target)) {
                Some(run_mode) => {
                    &&& final(lib)@ == with_row_header(old(lib)@, row@)
                    &&& r matches Some(o)
                    &&& o@ == opened_list(
                        final(lib)@,
                        row@.play_key,
                        row@.title,
                        run_mode,
                        None,
                    )
                },
                None => r is None && final(lib)@ == old(lib)@,
            },
            None => r is None && final(lib)@ == old(lib)@,
        },
{
    let row = match row {
        Some(row) => row,
        None => {
            return None;
        },
    };
    if !row.in_catalog() {
        return None;
    }
    let is_running = match running_target {
        Some(t) => text::str_eq(t, row.target.as_str()),
        None => false,
    };
    let run_mode = !editing && is_running && row.has_macros;
    if !editing && !run_mode {
        return None;
    }
    let header = game_header_for_row(lib, row.play_key.as_str(), row.title.as_str());
    lib.ensure_game_header(row.play_key.as_str(), header);
    Some(open_list(lib, row.play_key.clone(), row.title.clone(), run_mode, None))
}

impl MacroOverlay {
    /// Play key of the game that the overlay is about.
    pub fn play_key(&self) -> (r: &str)
        ensures
            r@ == self@.key(),
    {
        match self {
            MacroOverlay::List { play_key, .. } => play_key.as_str(),
            MacroOverlay::Edit { play_key, .. } => play_key.as_str(),
        }
    }

    /// Goes back to the list of macros to edit.
    pub fn return_to_macro_list(
        &mut self,
        lib: &MacroLibrary,
        rs: &[StartRow],
        status: Option<String>,
    )
        ensures
            final(self)@ == opened_list(
                lib@,
                old(self)@.key(),
                listed_title(rows::start_rows(rs@), old(self)@.key()),
                false,
                games::text_option(status),
            ),
    {
        let key = text::own(self.play_key());
        let title = title_of(rs, key.as_str());
        *self = open_list(lib, key, title, false, status);
    }

    /// Opens the editor for a macro, or for a new one.
    pub fn open_macro_editor(&mut self, lib: &MacroLibrary, id: Option<String>)
        ensures
            final(self)@ == opened_editor(lib@, old(self)@.key(), games::text_option(id)),
    {
        let key = text::own(self.play_key());
        let (name, action) = match &id {
            Some(i) => editor_content(lib, key.as_str(), Some(i.as_str())),
            None => editor_content(lib, key.as_str(), None),
        };
        *self = MacroOverlay::Edit { play_key: key, id, name, action, error: None };
        assert(self@ =~= opened_editor(lib@, old(self)@.key(), games::text_option(id)));
    }

    /// Id of the selected macro of a list.
    fn selected(&self) -> (r: Option<String>)
        ensures
            games::text_option(r) == self@.selected_id(),
    {
        match self {
            MacroOverlay::List { rows, selected, .. } => if *selected < rows.len() {
                Some(rows[*selected].id.clone())
            } else {
                None
            },
            MacroOverlay::Edit { .. } => None,
        }
    }

    /// Opens the editor for the selected macro of a list.
    pub fn open_macro_editor_selected(&mut self, lib: &MacroLibrary)
        ensures
            final(self)@ == (match old(self)@.selected_id() {
                Some(id) => opened_editor(lib@, old(self)@.key(), Some(id)),
                None => old(self)@,
            }),
    {
        let id = self.selected();
        if id.is_some() {
            self.open_macro_editor(lib, id);
        }
    }

    /// Saves the editor and goes back to the list, or says why that is refused; whether the
    /// library is to be written. A new macro is made at the time `nanos`.
    pub fn save_macro_editor(&mut self, lib: &mut MacroLibrary, rs: &[StartRow], nanos: u128) -> (r:
        bool)
        ensures
            (final(self)@, final(lib)@, r) == editor_saved(
                old(self)@,
                old(lib)@,
                rows::start_rows(rs@),
                nanos,
            ),
    {
        let result = match &*self {
            MacroOverlay::Edit { play_key, id, name, action, .. } => {
                let id = match id {
                    Some(i) => Some(i.as_str()),
                    None => None,
                };
                save_macro(lib, play_key.as_str(), id, name.as_str(), action.as_str(), nanos)
            },
            MacroOverlay::List { .. } => {
                return false;
            },
        };
        match result {
            Ok(()) => {
                self.return_to_macro_list(lib, rs, None);
                true
            },
            Err(e) => {
                if let MacroOverlay::Edit { error, .. } = self {
                    *error = Some(e);
                }
                false
            },
        }
    }

    /// Removes the selected macro of a list to edit; whether the library is to be written.
    pub fn remove_selected_macro(&mut self, lib: &mut MacroLibrary) -> (r: bool)
        ensures
            match old(self)@ {
                OverlayView::List { play_key, run_mode: false, .. } => match old(
                    self,
                )@.selected_id() {
                    Some(id) => {
                        let g = macro_lib::game_of(old(lib)@, play_key);
                        &&& r == (macro_lib::id_at(g.macros, id) < g.macros.len())
                        &&& final(lib)@ == removed(old(lib)@, play_key, id)
                        &&& final(self)@ == old(self)@.relisted(
                            final(lib)@,
                            old(self)@.status_now(),
                        )
                    },
                    None => !r && final(self)@ == old(self)@ && final(lib)@ == old(lib)@,
                },
                _ => !r && final(self)@ == old(self)@ && final(lib)@ == old(lib)@,
            },
    {
        let id = match &*self {
            MacroOverlay::List { run_mode: false, .. } => self.selected(),
            _ => None,
        };
        let id = match id {
            Some(i) => i,
            None => {
                return false;
            },
        };
        let key = text::own(self.play_key());
        let gone = lib.remove_macro(key.as_str(), id.as_str());
        let listed = macro_list_rows(lib, key.as_str());
        if let MacroOverlay::List { rows, selected, .. } = self {
            *selected = clamped_selection(*selected, listed.len());
            *rows = listed;
        }
        gone
    }

    /// Share text of the listed game's macros.
    pub fn copy_macro_catalog(&self, lib: &MacroLibrary, rs: &[StartRow]) -> (r: Option<String>)
        ensures
            ({
                let key = self@.key();
                let g = macro_lib::game_of(lib@, key);
                match r {
                    Some(t) => {
                        &&& self@ is List
                        &&& g.macros.len() > 0
                        &&& t@ == macro_text::share_text(
                            macro_lib::export_headers(
                                g,
                                listed_header(lib@, rows::start_rows(rs@), key),
                            ),
                            macro_lib::all_shared(g.macros),
                        )
                    },
                    None => self@ is Edit || g.macros.len() == 0,
                }
            }),
    {
        match self {
            MacroOverlay::List { play_key, .. } => {
                let header = header_of(lib, rs, play_key.as_str());
                lib.export_catalog(play_key.as_str(), header.as_str())
            },
            MacroOverlay::Edit { .. } => None,
        }
    }

    /// Share text of the selected macro.
    pub fn copy_selected_macro(&self, lib: &MacroLibrary, rs: &[StartRow]) -> (r: Option<String>)
        ensures
            ({
                let key = self@.key();
                let ms = macro_lib::game_of(lib@, key).macros;
                match self@.selected_id() {
                    Some(id) => {
                        let at = macro_lib::id_at(ms, id);
                        match r {
                            Some(t) => at < ms.len() && t@ == macro_text::share_text(
                                macro_lib::export_headers(
                                    macro_lib::game_of(lib@, key),
                                    listed_header(lib@, rows::start_rows(rs@), key),
                                ),
                                seq![macro_lib::shared(ms[at])],
                            ),
                            None => at == ms.len(),
                        }
                    },
                    None => r is None,
                }
            }),
    {
        match self.selected() {
            Some(id) => {
                let header = header_of(lib, rs, self.play_key());
                lib.export_macro(self.play_key(), id.as_str(), header.as_str())
            },
            None => None,
        }
    }

    /// Imports pasted share text and shows what came of it; whether the library is to be
    /// written. New macros are made at the time `nanos`.
    pub fn import_macros_from_text(
        &mut self,
        lib: &mut MacroLibrary,
        s: &str,
        rs: &[StartRow],
        catalog: &[GameEntry],
        nanos: u128,
    ) -> (r: bool)
        ensures
            ({
                let (after, report) = macros::imported(
                    old(lib)@,
                    s@,
                    old(self)@.key(),
                    games::game_views(catalog@),
                    nanos,
                );
                &&& final(lib)@ == after
                &&& r == (report is Done)
                &&& final(self)@ == shown_import(
                    old(self)@,
                    after,
                    rows::start_rows(rs@),
                    report,
                )
            }),
    {
        let open = text::own(self.play_key());
        match import_text(lib, s, open.as_str(), catalog, nanos) {
            ImportReport::Refused(m) => {
                if let MacroOverlay::List { status, .. } = self {
                    *status = Some(m);
                }
                false
            },
            ImportReport::Done { play_key, status, switched } => {
                if switched {
                    let title = title_of(rs, play_key.as_str());
                    *self = open_list(lib, play_key, title, false, Some(status));
                } else {
                    let listed = macro_list_rows(lib, play_key.as_str());
                    if let MacroOverlay::List { rows, selected, status: shown, .. } = self {
                        *selected = clamped_selection(*selected, listed.len());
                        *rows = listed;
                        *shown = Some(status);
                    }
                }
                true
            },
        }
    }

    /// Prepares the selected macro of a list to run, for the running game, whose processes match
    /// `paths`; `None` when nothing is to be run.
    pub fn run_selected_macro(&self, lib: &MacroLibrary, paths: &[String]) -> (r: Option<RunPlan>)
        ensures
            match self@ {
                OverlayView::List { play_key, run_mode: true, .. } => match self@.selected_id() {
                    Some(id) => {
                        let ms = macro_lib::game_of(lib@, play_key).macros;
                        let at = macro_lib::id_at(ms, id);
                        &&& r matches Some(plan)
                        &&& if at >= ms.len() {
                            plan is Missing
                        } else {
                            match macro_text::action_steps(ms[at].body) {
                                Err(m) => plan matches RunPlan::BadAction(e) && e@ == m,
                                Ok(steps) => if paths@.len() == 0 {
                                    plan is NoPaths
                                } else {
                                    plan matches RunPlan::Run(v) && macro_text::steps_view(v@)
                                        == steps
                                },
                            }
                        }
                    },
                    None => r is None,
                },
                _ => r is None,
            },
    {
        match self {
            MacroOverlay::List { play_key, run_mode: true, .. } => match self.selected() {
                Some(id) => Some(plan_run(lib, play_key.as_str(), id.as_str(), paths)),
                None => None,
            },
            _ => None,
        }
    }
}

/// The library without the macros of an id; a game that is left with neither macros nor headers
/// goes too.
pub open spec fn removed(lib: Library, play_key: Seq<char>, id: Seq<char>) -> Library {
    let g = macro_lib::game_of(lib, play_key);
    let rest = g.macros.filter(|m: macro_lib::RecordView| m.id != id);
    if !lib.dom().contains(play_key) {
        lib
    } else if rest.len() == 0 && g.headers.dom().len() == 0 {
        lib.remove(play_key)
    } else {
        lib.insert(play_key, macro_lib::GameMacrosView { macros: rest, ..g })
    }
}

/// What saving the editor leads to: overlay, library, and whether it is to be written.
pub open spec fn editor_saved(
    o: OverlayView,
    lib: Library,
    rs: Seq<rows::StartRowView>,
    nanos: u128,
) -> (OverlayView, Library, bool) {
    match o {
        OverlayView::Edit { play_key, id, name, action, .. } => {
            match macros::saved(lib, play_key, id, name, action, nanos) {
                Ok(game) => {
                    let after = lib.insert(play_key, game);
                    (
                        opened_list(after, play_key, listed_title(rs, play_key), false, None),
                        after,
                        true,
                    )
                },
                Err(m) => (
                    OverlayView::Edit { play_key, id, name, action, error: Some(m) },
                    lib,
                    false,
                ),
            }
        },
        OverlayView::List { .. } => (o, lib, false),
    }
}

/// The overlay after an import: a list shows what came of it, and where the macros went to
/// another game, that game's list opens.
pub open spec fn shown_import(
    o: OverlayView,
    lib: Library,
    rs: Seq<rows::StartRowView>,
    report: macros::ReportView,
) -> OverlayView {
    match report {
        macros::ReportView::Refused(m) => o.with_status(m),
        macros::ReportView::Done { play_key, status, switched } => if switched {
            opened_list(lib, play_key, listed_title(rs, play_key), false, Some(status))
        } else {
            o.relisted(lib, Some(status))
        },
    }
}

// ---------------------------------------------------------------------------
// Laws
// ---------------------------------------------------------------------------

/// A macro that was saved without a complaint is in the list that follows.
pub proof fn law_saved_macro_is_listed(
    o: OverlayView,
    lib: Library,
    rs: Seq<rows::StartRowView>,
    nanos: u128,
)
    requires
        o is Edit,
        editor_saved(o, lib, rs, nanos).2,
    ensures
        editor_saved(o, lib, rs, nanos).0 matches OverlayView::List { rows, .. } && exists|i: int|
            0 <= i < rows.len() && (#[trigger] rows[i]).1 == text::trim(o->name),
{
    let g = macros::saved(lib, o.key(), o->id, o->name, o->action, nanos)->Ok_0;
    let listed = macros::rows_of(g);
    assert(macro_lib::game_of(lib.insert(o.key(), g), o.key()) == g);
    assert(editor_saved(o, lib, rs, nanos).0->rows == listed);
    match o->id {
        Some(id) => {
            let before = macro_lib::game_of(lib, o.key());
            macro_lib::lemma_id_at(before.macros, id);
            let at = macro_lib::id_at(before.macros, id);
            assert(listed[at].1 == text::trim(o->name));
        },
        None => {
            assert(listed[listed.len() - 1].1 == text::trim(o->name));
        },
    }
}

/// Refusing to save keeps what was typed, and the library.
pub proof fn law_refused_save_keeps_the_editor(
    o: OverlayView,
    lib: Library,
    rs: Seq<rows::StartRowView>,
    nanos: u128,
)
    requires
        o is Edit,
        !editor_saved(o, lib, rs, nanos).2,
    ensures
        editor_saved(o, lib, rs, nanos).1 == lib,
        editor_saved(o, lib, rs, nanos).0 matches OverlayView::Edit { name, action, error, .. }
            && name == o->name && action == o->action && error is Some,
{
}

/// After any import a list shows what came of it.
pub proof fn law_import_is_answered(
    o: OverlayView,
    lib: Library,
    rs: Seq<rows::StartRowView>,
    report: macros::ReportView,
)
    requires
        o is List,
    ensures
        shown_import(o, lib, rs, report).status_now() is Some,
        shown_import(o, lib, rs, report) is List,
{
}

} // verus!
