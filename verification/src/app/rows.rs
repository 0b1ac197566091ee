//! Rows of the start screen's game list: the catalog to browse, or the checklist to edit.
use crate::games;
use crate::games::macro_lib;
use crate::games::macro_lib::MacroLibrary;
use crate::games::{GameEntry, GamesCatalog};
use crate::prefs::GamesSortMode;
use crate::text;
use vstd::prelude::*;

verus! {

/// A game that a scan of the Steam library found.
#[derive(Debug, Clone, PartialEq, Eq)]
pub struct SteamGame {
    pub appid: u32,
    pub name: String,
}

/// Model of a scan: id and name of each game.
pub open spec fn scan(v: Seq<SteamGame>) -> Seq<(u32, Seq<char>)> {
    Seq::new(v.len(), |i: int| (v[i].appid, v[i].name@))
}

/// What is known of the Steam library.
#[derive(Debug)]
pub struct SteamLibrary {
    /// Ids that the last successful scan found; `None` before there was one.
    pub installed: Option<Vec<u32>>,
    /// Games that the last successful scan found. Of two with one id the later counts.
    pub games: Vec<SteamGame>,
}

/// Place of the last game with an id, or -1.
pub open spec fn last_at(s: Seq<(u32, Seq<char>)>, appid: u32) -> int
    decreases s.len(),
{
    if s.len() == 0 {
        -1
    } else if s.last().0 == appid {
        s.len() - 1
    } else {
        last_at(s.drop_last(), appid)
    }
}

/// Title of a Steam game: its name, or its id while the library does not have it.
pub open spec fn steam_title(s: Seq<(u32, Seq<char>)>, appid: u32) -> Seq<char> {
    let at = last_at(s, appid);
    if at >= 0 {
        s[at].1
    } else {
        "Steam "@ + text::dec(appid as nat)
    }
}

/// Title under which a game shows.
pub open spec fn display_title(s: Seq<(u32, Seq<char>)>, g: games::GameView) -> Seq<char> {
    match g {
        games::GameView::Steam { appid } => steam_title(s, appid),
        games::GameView::Manual { title, .. } => title,
    }
}

/// Titles under which games show.
pub open spec fn display_titles(s: Seq<(u32, Seq<char>)>, v: Seq<games::GameView>) -> Seq<
    Seq<char>,
> {
    Seq::new(v.len(), |i: int| display_title(s, v[i]))
}

proof fn lemma_last_at(s: Seq<(u32, Seq<char>)>, appid: u32)
    ensures
        -1 <= last_at(s, appid) < s.len(),
        last_at(s, appid) >= 0 ==> s[last_at(s, appid)].0 == appid,
        forall|k: int| last_at(s, appid) < k < s.len() ==> (#[trigger] s[k]).0 != appid,
    decreases s.len(),
{
    if s.len() > 0 && s.last().0 != appid {
        let t = s.drop_last();
        lemma_last_at(t, appid);
        assert forall|k: int| last_at(s, appid) < k < s.len() implies (#[trigger] s[k]).0
            != appid by {
            if k < t.len() {
                assert(t[k] == s[k]);
            }
        }
    }
}

proof fn lemma_last_at_is(s: Seq<(u32, Seq<char>)>, appid: u32, at: int)
    requires
        -1 <= at < s.len(),
        at >= 0 ==> s[at].0 == appid,
        forall|k: int| at < k < s.len() ==> (#[trigger] s[k]).0 != appid,
    ensures
        last_at(s, appid) == at,
{
    lemma_last_at(s, appid);
    let l = last_at(s, appid);
    if l < at {
        assert(s[at].0 != appid);
    } else if at < l {
        assert(s[l].0 != appid);
    }
}

impl SteamLibrary {
    /// Nothing is known yet.
    pub fn new() -> (r: Self)
        ensures
            r.installed is None,
            r.games@.len() == 0,
    {
        SteamLibrary { installed: None, games: Vec::new() }
    }

    /// What a scan found, or that it failed: a failed scan keeps what was known.
    pub fn on_steam_scan_done(&mut self, result: Result<Vec<SteamGame>, String>)
        ensures
            match result {
                Ok(found) => {
                    &&& final(self).games == found
                    &&& final(self).installed matches Some(ids)
                    &&& ids@ == Seq::new(found@.len(), |i: int| found@[i].appid)
                },
                Err(_) => *final(self) == *old(self),
            },
    {
        if let Ok(found) = result {
            let mut ids: Vec<u32> = Vec::new();
            let mut i: usize = 0;
            while i < found.len()
                invariant
                    i <= found@.len(),
                    ids@ == Seq::new(i as nat, |k: int| found@[k].appid),
                decreases found@.len() - i,
            {
                ids.push(found[i].appid);
                assert(ids@ =~= Seq::new((i + 1) as nat, |k: int| found@[k].appid));
                i = i + 1;
            }
            self.installed = Some(ids);
            self.games = found;
        }
    }

    /// Title of a Steam game.
    pub fn title(&self, appid: u32) -> (r: String)
        ensures
            r@ == steam_title(scan(self.games@), appid),
    {
        let ghost s = scan(self.games@);
        let mut i: usize = self.games.len();
        while i > 0
            invariant
                i <= self.games@.len(),
                s == scan(self.games@),
                forall|k: int| i <= k < s.len() ==> (#[trigger] s[k]).0 != appid,
            decreases i,
        {
            i = i - 1;
            assert(s[i as int] == (self.games@[i as int].appid, self.games@[i as int].name@));
            if self.games[i].appid == appid {
                proof {
                    lemma_last_at_is(s, appid, i as int);
                }
                return self.games[i].name.clone();
            }
        }
        proof {
            lemma_last_at_is(s, appid, -1);
        }
        let mut r = text::own("Steam ");
        text::push_dec(&mut r, appid as u64);
        r
    }

    /// Whether no later game of the scan has the id of the `i`-th.
    fn is_latest(&self, i: usize) -> (r: bool)
        requires
            i < self.games@.len(),
        ensures
            r == (last_at(scan(self.games@), self.games@[i as int].appid) == i),
    {
        let ghost s = scan(self.games@);
        let appid: u32 = self.games[i].appid;
        let count: usize = self.games.len();
        assert(i < count);
        let mut k: usize = i + 1;
        while k < self.games.len()
            invariant
                i < k <= self.games@.len(),
                s == scan(self.games@),
                appid == self.games@[i as int].appid,
                forall|q: int| i < q < k ==> (#[trigger] s[q]).0 != appid,
            decreases self.games@.len() - k,
        {
            assert(s[k as int] == (self.games@[k as int].appid, self.games@[k as int].name@));
            if self.games[k].appid == appid {
                proof {
                    lemma_last_at(s, appid);
                    assert(last_at(s, appid) >= k);
                }
                return false;
            }
            k = k + 1;
        }
        proof {
            assert(s[i as int].0 == appid);
            lemma_last_at_is(s, appid, i as int);
        }
        true
    }

    /// Titles under which games show.
    pub fn display_titles(&self, entries: &[GameEntry]) -> (r: Vec<String>)
        ensures
            text::views(r@) == display_titles(scan(self.games@), games::game_views(entries@)),
    {
        let ghost s = scan(self.games@);
        let ghost want = display_titles(s, games::game_views(entries@));
        let mut out: Vec<String> = Vec::new();
        let mut i: usize = 0;
        assert(text::views(out@) =~= want.take(0));
        while i < entries.len()
            invariant
                i <= entries@.len(),
                s == scan(self.games@),
                want == display_titles(s, games::game_views(entries@)),
                text::views(out@) == want.take(i as int),
            decreases entries@.len() - i,
        {
            let t = match &entries[i] {
                GameEntry::Steam { appid } => self.title(*appid),
                GameEntry::Manual { title, .. } => title.clone(),
            };
            assert(games::game_views(entries@)[i as int] == entries@[i as int]@);
            let ghost before = text::views(out@);
            out.push(t);
            assert(text::views(out@) =~= before.push(t@));
            assert(want.take(i + 1) =~= want.take(i as int).push(t@));
            i = i + 1;
        }
        assert(want.take(i as int) =~= want);
        out
    }

    /// Ids of the last successful scan.
    pub open spec fn ids(self) -> Option<Seq<u32>> {
        match self.installed {
            Some(v) => Some(v@),
            None => None,
        }
    }
}

// ---------------------------------------------------------------------------
// Rows
// ---------------------------------------------------------------------------

/// What a row of the checklist stands for.
#[derive(Debug, Clone, PartialEq, Eq)]
pub enum EditRow {
    Steam { appid: u32, in_catalog: bool },
    Manual { id: String },
}

/// Model of [`EditRow`].
#[verifier::ext_equal]
pub enum EditView {
    Steam { appid: u32, in_catalog: bool },
    Manual { id: Seq<char> },
}

/// A row of the game list.
#[derive(Debug, Clone, PartialEq, Eq)]
pub struct StartRow {
    pub title: String,
    pub target: String,
    pub args: String,
    pub play_key: String,
    pub has_macros: bool,
    /// `Some` on the checklist.
    pub edit: Option<EditRow>,
}

/// Model of [`StartRow`].
#[verifier::ext_equal]
pub struct StartRowView {
    pub title: Seq<char>,
    pub target: Seq<char>,
    pub args: Seq<char>,
    pub play_key: Seq<char>,
    pub has_macros: bool,
    pub edit: Option<EditView>,
}

impl View for EditRow {
    type V = EditView;

    open spec fn view(&self) -> EditView {
        match *self {
            EditRow::Steam { appid, in_catalog } => EditView::Steam { appid, in_catalog },
            EditRow::Manual { id } => EditView::Manual { id: id@ },
        }
    }
}

impl View for StartRow {
    type V = StartRowView;

    open spec fn view(&self) -> StartRowView {
        StartRowView {
            title: self.title@,
            target: self.target@,
            args: self.args@,
            play_key: self.play_key@,
            has_macros: self.has_macros,
            edit: match self.edit {
                Some(e) => Some(e@),
                None => None,
            },
        }
    }
}

/// Models of a list of rows.
pub open spec fn start_rows(v: Seq<StartRow>) -> Seq<StartRowView> {
    Seq::new(v.len(), |i: int| v[i]@)
}

/// Whether a game has macros.
pub open spec fn macros_of(
    lib: Map<Seq<char>, macro_lib::GameMacrosView>,
    play_key: Seq<char>,
) -> bool {
    macro_lib::game_of(lib, play_key).macros.len() > 0
}

/// Target that launches a Steam game.
pub open spec fn steam_target(appid: u32) -> Seq<char> {
    "steam://rungameid/"@ + text::dec(appid as nat)
}

/// Row of a game to browse.
pub open spec fn browse_row(
    s: Seq<(u32, Seq<char>)>,
    lib: Map<Seq<char>, macro_lib::GameMacrosView>,
    g: games::GameView,
) -> StartRowView {
    let key = games::play_key_of(g);
    StartRowView {
        title: display_title(s, g),
        target: match g {
            games::GameView::Steam { appid } => steam_target(appid),
            games::GameView::Manual { target, .. } => target,
        },
        args: match g {
            games::GameView::Steam { .. } => seq![],
            games::GameView::Manual { args, .. } => args,
        },
        play_key: key,
        has_macros: macros_of(lib, key),
        edit: None,
    }
}

/// Row of the checklist for a Steam game that the scan found.
pub open spec fn steam_edit_row(
    game: (u32, Seq<char>),
    catalog: Seq<games::GameView>,
    lib: Map<Seq<char>, macro_lib::GameMacrosView>,
) -> StartRowView {
    let key = games::play_key_of(games::GameView::Steam { appid: game.0 });
    StartRowView {
        title: game.1,
        target: steam_target(game.0),
        args: seq![],
        play_key: key,
        has_macros: macros_of(lib, key),
        edit: Some(
            EditView::Steam { appid: game.0, in_catalog: games::has_steam(catalog, game.0) },
        ),
    }
}

/// Rows of the checklist for the Steam games of the first `n` that the scan found.
pub open spec fn steam_edit_rows(
    s: Seq<(u32, Seq<char>)>,
    catalog: Seq<games::GameView>,
    lib: Map<Seq<char>, macro_lib::GameMacrosView>,
    n: int,
) -> Seq<StartRowView>
    decreases n,
{
    if n <= 0 {
        seq![]
    } else {
        let before = steam_edit_rows(s, catalog, lib, n - 1);
        if last_at(s, s[n - 1].0) == n - 1 {
            before.push(steam_edit_row(s[n - 1], catalog, lib))
        } else {
            before
        }
    }
}

/// Rows of the checklist for the shortcuts of a catalog.
pub open spec fn manual_edit_rows(
    catalog: Seq<games::GameView>,
    lib: Map<Seq<char>, macro_lib::GameMacrosView>,
) -> Seq<StartRowView>
    decreases catalog.len(),
{
    if catalog.len() == 0 {
        seq![]
    } else {
        let before = manual_edit_rows(catalog.drop_last(), lib);
        match catalog.last() {
            games::GameView::Steam { .. } => before,
            games::GameView::Manual { id, title, target, args, .. } => {
                let key = games::play_key_of(catalog.last());
                before.push(
                    StartRowView {
                        title,
                        target,
                        args,
                        play_key: key,
                        has_macros: macros_of(lib, key),
                        edit: Some(EditView::Manual { id }),
                    },
                )
            },
        }
    }
}

/// Rows of the checklist before they are sorted: the library, then the shortcuts.
pub open spec fn unsorted_checklist(
    s: Seq<(u32, Seq<char>)>,
    catalog: Seq<games::GameView>,
    lib: Map<Seq<char>, macro_lib::GameMacrosView>,
) -> Seq<StartRowView> {
    steam_edit_rows(s, catalog, lib, s.len() as int) + manual_edit_rows(catalog, lib)
}

/// What rows sort by: their titles in lower case.
pub open spec fn row_keys(rows: Seq<StartRowView>) -> Seq<Seq<char>> {
    Seq::new(rows.len(), |i: int| text::lowercased(rows[i].title))
}

/// Rows at the given places.
pub open spec fn rows_at(rows: Seq<StartRowView>, order: Seq<int>) -> Seq<StartRowView> {
    Seq::new(order.len(), |i: int| rows[order[i]])
}

/// Whether rows are others sorted by title, equal titles in the order they had.
pub open spec fn by_title(rows: Seq<StartRowView>, from: Seq<StartRowView>) -> bool {
    exists|order: Seq<int>|
        #![trigger rows_at(from, order)]
        text::stable_order(order, row_keys(from), from.len() as int) && rows == rows_at(from, order)
}

/// Rows of games to browse.
pub open spec fn browse_rows(
    s: Seq<(u32, Seq<char>)>,
    lib: Map<Seq<char>, macro_lib::GameMacrosView>,
    v: Seq<games::GameView>,
) -> Seq<StartRowView> {
    Seq::new(v.len(), |i: int| browse_row(s, lib, v[i]))
}

fn steam_target_of(appid: u32) -> (r: String)
    ensures
        r@ == steam_target(appid),
{
    let mut r = text::own("steam://rungameid/");
    text::push_dec(&mut r, appid as u64);
    r
}

impl StartRow {
    /// Copy of the row.
    pub fn copy(&self) -> (r: Self)
        ensures
            r@ == self@,
    {
        StartRow {
            title: self.title.clone(),
            target: self.target.clone(),
            args: self.args.clone(),
            play_key: self.play_key.clone(),
            has_macros: self.has_macros,
            edit: match &self.edit {
                Some(EditRow::Steam { appid, in_catalog }) => Some(
                    EditRow::Steam { appid: *appid, in_catalog: *in_catalog },
                ),
                Some(EditRow::Manual { id }) => Some(EditRow::Manual { id: id.clone() }),
                None => None,
            },
        }
    }

    /// Row of a game to browse.
    pub fn from_entry(entry: &GameEntry, library: &SteamLibrary, macros: &MacroLibrary) -> (r: Self)
        ensures
            r@ == browse_row(scan(library.games@), macros@, entry@),
    {
        let play_key = entry.play_key();
        let has_macros = macros.has_macros(play_key.as_str());
        let r = match entry {
            GameEntry::Steam { appid } => StartRow {
                title: library.title(*appid),
                target: steam_target_of(*appid),
                args: String::new(),
                play_key,
                has_macros,
                edit: None,
            },
            GameEntry::Manual { title, target, args, .. } => StartRow {
                title: title.clone(),
                target: target.clone(),
                args: args.clone(),
                play_key,
                has_macros,
                edit: None,
            },
        };
        assert(r@ =~= browse_row(scan(library.games@), macros@, entry@));
        r
    }

    /// Whether the row is a game of the catalog: on the checklist a Steam game may not be.
    pub fn in_catalog(&self) -> (r: bool)
        ensures
            r == (match self@.edit {
                Some(EditView::Steam { in_catalog, .. }) => in_catalog,
                _ => true,
            }),
    {
        match &self.edit {
            Some(EditRow::Steam { in_catalog, .. }) => *in_catalog,
            Some(EditRow::Manual { .. }) => true,
            None => true,
        }
    }
}

/// The catalog in browse order.
pub fn display_catalog(catalog: &GamesCatalog, library: &SteamLibrary, mode: GamesSortMode) -> (r:
    Vec<GameEntry>)
    ensures
        browses(games::game_views(r@), *catalog, *library, mode),
{
    let titles = library.display_titles(catalog.entries.as_slice());
    assert(titles@.len() == text::views(titles@).len());
    let installed = match &library.installed {
        Some(v) => Some(v.as_slice()),
        None => None,
    };
    assert(games::scan_view(installed) == library.ids());
    catalog.merge_sorted(installed, mode, titles.as_slice())
}

/// Whether games are those of a catalog that show, in browse order.
pub open spec fn browses(
    v: Seq<games::GameView>,
    catalog: GamesCatalog,
    library: SteamLibrary,
    mode: GamesSortMode,
) -> bool {
    let s = games::game_views(catalog.entries@);
    exists|order: Seq<int>|
        #![trigger games::picked(s, order)]
        games::browse_order(
            order,
            s,
            library.ids(),
            games::sort_keys(
                s,
                catalog.last_played_ms@,
                display_titles(scan(library.games@), s),
                mode,
            ),
            s.len() as int,
        ) && v == games::picked(s, order)
}

/// The checklist: the Steam library and the shortcuts of the catalog, by title.
pub fn edit_checklist_rows(
    catalog: &GamesCatalog,
    library: &SteamLibrary,
    macros: &MacroLibrary,
) -> (r: Vec<StartRow>)
    ensures
        by_title(
            start_rows(r@),
            unsorted_checklist(
                scan(library.games@),
                games::game_views(catalog.entries@),
                macros@,
            ),
        ),
{
    let ghost s = scan(library.games@);
    let ghost c = games::game_views(catalog.entries@);
    let mut rows: Vec<StartRow> = Vec::new();
    let mut i: usize = 0;
    assert(start_rows(rows@) =~= steam_edit_rows(s, c, macros@, 0));
    while i < library.games.len()
        invariant
            i <= library.games@.len(),
            s == scan(library.games@),
            c == games::game_views(catalog.entries@),
            start_rows(rows@) == steam_edit_rows(s, c, macros@, i as int),
        decreases library.games@.len() - i,
    {
        let g = &library.games[i];
        assert(s[i as int] == (g.appid, g.name@));
        let ghost before = start_rows(rows@);
        if library.is_latest(i) {
            let entry = GameEntry::Steam { appid: g.appid };
            let play_key = entry.play_key();
            let has_macros = macros.has_macros(play_key.as_str());
            let row = StartRow {
                title: g.name.clone(),
                target: steam_target_of(g.appid),
                args: String::new(),
                play_key,
                has_macros,
                edit: Some(
                    EditRow::Steam {
                        appid: g.appid,
                        in_catalog: catalog.contains_steam(g.appid),
                    },
                ),
            };
            assert(row@ =~= steam_edit_row(s[i as int], c, macros@));
            rows.push(row);
            assert(start_rows(rows@) =~= before.push(row@));
        }
        i = i + 1;
    }
    let ghost steam = start_rows(rows@);
    let mut k: usize = 0;
    assert(c.take(0).len() == 0);
    assert(steam =~= steam + manual_edit_rows(c.take(0), macros@));
    while k < catalog.entries.len()
        invariant
            k <= catalog.entries@.len(),
            c == games::game_views(catalog.entries@),
            start_rows(rows@) == steam + manual_edit_rows(c.take(k as int), macros@),
        decreases catalog.entries@.len() - k,
    {
        let entry = &catalog.entries[k];
        assert(c[k as int] == entry@);
        assert(c.take(k + 1).drop_last() =~= c.take(k as int));
        assert(c.take(k + 1).last() == entry@);
        let ghost before = start_rows(rows@);
        if let GameEntry::Manual { id, title, target, args, .. } = entry {
            let play_key = entry.play_key();
            let has_macros = macros.has_macros(play_key.as_str());
            let row = StartRow {
                title: title.clone(),
                target: target.clone(),
                args: args.clone(),
                play_key,
                has_macros,
                edit: Some(EditRow::Manual { id: id.clone() }),
            };
            rows.push(row);
            assert(start_rows(rows@) =~= before.push(row@));
            assert(start_rows(rows@) =~= steam + manual_edit_rows(c.take(k + 1), macros@));
        }
        k = k + 1;
    }
    assert(c.take(k as int) =~= c);
    sorted_by_title(rows.as_slice())
}

/// Rows sorted by title; equal titles keep their order.
pub fn sorted_by_title(rows: &[StartRow]) -> (r: Vec<StartRow>)
    ensures
        by_title(start_rows(r@), start_rows(rows@)),
{
    let ghost from = start_rows(rows@);
    let ghost keys = row_keys(from);
    let mut lower: Vec<String> = Vec::new();
    let mut i: usize = 0;
    assert(text::views(lower@) =~= keys.take(0));
    while i < rows.len()
        invariant
            i <= rows@.len(),
            from == start_rows(rows@),
            keys == row_keys(from),
            text::views(lower@) == keys.take(i as int),
        decreases rows@.len() - i,
    {
        let l = text::str_lowercase(rows[i].title.as_str());
        assert(from[i as int] == rows@[i as int]@);
        let ghost before = text::views(lower@);
        lower.push(l);
        assert(text::views(lower@) =~= before.push(l@));
        assert(keys.take(i + 1) =~= keys.take(i as int).push(l@));
        i = i + 1;
    }
    assert(keys.take(i as int) =~= keys);
    assert(lower@.len() == text::views(lower@).len());
    let order = text::sorted_places(lower.as_slice());
    let ghost want = rows_at(from, text::places(order@));
    let mut out: Vec<StartRow> = Vec::new();
    let mut k: usize = 0;
    assert(start_rows(out@) =~= want.take(0));
    while k < order.len()
        invariant
            k <= order@.len(),
            from == start_rows(rows@),
            text::stable_order(text::places(order@), keys, from.len() as int),
            want == rows_at(from, text::places(order@)),
            start_rows(out@) == want.take(k as int),
        decreases order@.len() - k,
    {
        assert(text::places(order@)[k as int] == order@[k as int]);
        let row = rows[order[k]].copy();
        let ghost before = start_rows(out@);
        out.push(row);
        assert(start_rows(out@) =~= before.push(row@));
        assert(want.take(k + 1) =~= want.take(k as int).push(row@));
        k = k + 1;
    }
    assert(want.take(k as int) =~= want);
    out
}

/// Rows of the start screen: the checklist of the edited catalog, or the catalog to browse.
pub fn refresh_start_rows(
    editing: bool,
    games: &GamesCatalog,
    draft: Option<&GamesCatalog>,
    library: &SteamLibrary,
    mode: GamesSortMode,
    macros: &MacroLibrary,
) -> (r: Vec<StartRow>)
    ensures
        editing ==> by_title(
            start_rows(r@),
            unsorted_checklist(
                scan(library.games@),
                games::game_views(
                    (match draft {
                        Some(d) => *d,
                        None => *games,
                    }).entries@,
                ),
                macros@,
            ),
        ),
        !editing ==> exists|v: Seq<games::GameView>|
            #![trigger browse_rows(scan(library.games@), macros@, v)]
            browses(v, *games, *library, mode) && start_rows(r@) == browse_rows(
                scan(library.games@),
                macros@,
                v,
            ),
{
    if editing {
        let catalog = match draft {
            Some(d) => d,
            None => games,
        };
        return edit_checklist_rows(catalog, library, macros);
    }
    let shown = display_catalog(games, library, mode);
    let ghost v = games::game_views(shown@);
    let ghost want = browse_rows(scan(library.games@), macros@, v);
    let mut out: Vec<StartRow> = Vec::new();
    let mut i: usize = 0;
    assert(start_rows(out@) =~= want.take(0));
    while i < shown.len()
        invariant
            i <= shown@.len(),
            v == games::game_views(shown@),
            want == browse_rows(scan(library.games@), macros@, v),
            start_rows(out@) == want.take(i as int),
        decreases shown@.len() - i,
    {
        let row = StartRow::from_entry(&shown[i], library, macros);
        assert(v[i as int] == shown@[i as int]@);
        let ghost before = start_rows(out@);
        out.push(row);
        assert(start_rows(out@) =~= before.push(row@));
        assert(want.take(i + 1) =~= want.take(i as int).push(row@));
        i = i + 1;
    }
    assert(want.take(i as int) =~= want);
    out
}

/// Place of the row with a play key, or the length when there is none.
pub open spec fn key_at(rows: Seq<StartRowView>, play_key: Seq<char>) -> int
    decreases rows.len(),
{
    if rows.len() == 0 || rows[0].play_key == play_key {
        0
    } else {
        1 + key_at(rows.drop_first(), play_key)
    }
}

proof fn lemma_key_at(rows: Seq<StartRowView>, play_key: Seq<char>, k: int)
    requires
        0 <= k <= rows.len(),
        k < rows.len() ==> rows[k].play_key == play_key,
        forall|i: int| 0 <= i < k ==> (#[trigger] rows[i]).play_key != play_key,
    ensures
        key_at(rows, play_key) == k,
    decreases k,
{
    if k > 0 {
        assert(rows[0].play_key != play_key);
        let t = rows.drop_first();
        assert forall|i: int| 0 <= i < k - 1 implies (#[trigger] t[i]).play_key != play_key by {
            assert(t[i] == rows[i + 1]);
        }
        lemma_key_at(t, play_key, k - 1);
    }
}

/// Place of the row with a play key, or the length when there is none.
pub fn find_row(rows: &[StartRow], play_key: &str) -> (r: usize)
    ensures
        r == key_at(start_rows(rows@), play_key@),
        r <= rows@.len(),
{
    let ghost s = start_rows(rows@);
    let mut i: usize = 0;
    while i < rows.len()
        invariant
            i <= rows@.len(),
            s == start_rows(rows@),
            forall|k: int| 0 <= k < i ==> (#[trigger] s[k]).play_key != play_key@,
        decreases rows@.len() - i,
    {
        assert(s[i as int] == rows@[i as int]@);
        if text::str_eq(rows[i].play_key.as_str(), play_key) {
            proof {
                lemma_key_at(s, play_key@, i as int);
            }
            return i;
        }
        i = i + 1;
    }
    proof {
        lemma_key_at(s, play_key@, s.len() as int);
    }
    i
}

// ---------------------------------------------------------------------------
// Laws
// ---------------------------------------------------------------------------

/// A failed scan hides nothing: while no scan succeeded, every game of the catalog shows.
pub proof fn law_unscanned_library_hides_nothing(
    v: Seq<games::GameView>,
    catalog: GamesCatalog,
    library: SteamLibrary,
    mode: GamesSortMode,
    k: int,
)
    requires
        library.installed is None,
        browses(v, catalog, library, mode),
        0 <= k < catalog.entries@.len(),
    ensures
        v.contains(catalog.entries@[k]@),
{
    let s = games::game_views(catalog.entries@);
    let order = choose|order: Seq<int>|
        #![trigger games::picked(s, order)]
        games::browse_order(
            order,
            s,
            library.ids(),
            games::sort_keys(
                s,
                catalog.last_played_ms@,
                display_titles(scan(library.games@), s),
                mode,
            ),
            s.len() as int,
        ) && v == games::picked(s, order);
    assert(games::shows(s[k], library.ids()));
    assert(order.contains(k));
    let i = order.index_of(k);
    assert(v[i] == s[k]);
}

/// The checklist has a row for every shortcut of the catalog.
pub proof fn law_checklist_has_every_shortcut(
    rows: Seq<StartRowView>,
    s: Seq<(u32, Seq<char>)>,
    catalog: Seq<games::GameView>,
    lib: Map<Seq<char>, macro_lib::GameMacrosView>,
    k: int,
)
    requires
        by_title(rows, unsorted_checklist(s, catalog, lib)),
        0 <= k < catalog.len(),
        catalog[k] is Manual,
    ensures
        exists|i: int|
            0 <= i < rows.len() && (#[trigger] rows[i]).edit == Some(
                EditView::Manual { id: catalog[k]->id },
            ),
{
    let from = unsorted_checklist(s, catalog, lib);
    let m = manual_edit_rows(catalog, lib);
    lemma_manual_row(catalog, lib, k);
    let j = choose|j: int|
        0 <= j < m.len() && (#[trigger] m[j]).edit == Some(EditView::Manual { id: catalog[k]->id });
    let at = steam_edit_rows(s, catalog, lib, s.len() as int).len() + j;
    assert(from[at] == m[j]);
    let order = choose|order: Seq<int>|
        #![trigger rows_at(from, order)]
        text::stable_order(order, row_keys(from), from.len() as int) && rows == rows_at(from, order);
    assert(order.contains(at));
    let i = order.index_of(at);
    assert(rows[i] == from[at]);
}

proof fn lemma_manual_row(
    catalog: Seq<games::GameView>,
    lib: Map<Seq<char>, macro_lib::GameMacrosView>,
    k: int,
)
    requires
        0 <= k < catalog.len(),
        catalog[k] is Manual,
    ensures
        exists|j: int|
            0 <= j < manual_edit_rows(catalog, lib).len() && (#[trigger] manual_edit_rows(
                catalog,
                lib,
            )[j]).edit == Some(EditView::Manual { id: catalog[k]->id }),
    decreases catalog.len(),
{
    let m = manual_edit_rows(catalog, lib);
    let before = manual_edit_rows(catalog.drop_last(), lib);
    if k == catalog.len() - 1 {
        assert(m[m.len() - 1].edit == Some(EditView::Manual { id: catalog[k]->id }));
    } else {
        assert(catalog.drop_last()[k] == catalog[k]);
        lemma_manual_row(catalog.drop_last(), lib, k);
        let j = choose|j: int|
            0 <= j < before.len() && (#[trigger] before[j]).edit == Some(
                EditView::Manual { id: catalog[k]->id },
            );
        assert(m[j] == before[j]);
    }
}

} // verus!
