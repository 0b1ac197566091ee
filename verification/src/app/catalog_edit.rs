//! Editing the game catalog on the start screen: changes go to a draft that is saved or thrown
//! away as a whole.
use crate::app::rows;
use crate::app::rows::{EditRow, StartRow};
use crate::games;
use crate::games::macro_lib;
use crate::games::macro_lib::MacroLibrary;
use crate::games::{copy_text_option, title_from_target, GameEntry, GamesCatalog};
use crate::text;
use crate::text_map;
use vstd::prelude::*;

verus! {

/// Model of a catalog.
#[verifier::ext_equal]
pub struct CatalogView {
    pub entries: Seq<games::GameView>,
    pub played: Map<Seq<char>, u64>,
}

/// Model of a catalog.
pub open spec fn catalog_view(c: GamesCatalog) -> CatalogView {
    CatalogView { entries: games::game_views(c.entries@), played: c.last_played_ms@ }
}

/// The catalog, and the draft while it is edited.
#[derive(Debug)]
pub struct CatalogEdit {
    pub games: GamesCatalog,
    pub draft: Option<GamesCatalog>,
}

/// Model of [`CatalogEdit`].
#[verifier::ext_equal]
pub struct CatalogEditView {
    pub games: CatalogView,
    pub draft: Option<CatalogView>,
}

impl View for CatalogEdit {
    type V = CatalogEditView;

    open spec fn view(&self) -> CatalogEditView {
        CatalogEditView {
            games: catalog_view(self.games),
            draft: match self.draft {
                Some(d) => Some(catalog_view(d)),
                None => None,
            },
        }
    }
}

impl CatalogEditView {
    /// The catalog that edits go to.
    pub open spec fn edited(self) -> CatalogView {
        match self.draft {
            Some(d) => d,
            None => self.games,
        }
    }

    /// The state with the edited catalog replaced.
    pub open spec fn with_edited(self, c: CatalogView) -> CatalogEditView {
        match self.draft {
            Some(_) => CatalogEditView { draft: Some(c), ..self },
            None => CatalogEditView { games: c, ..self },
        }
    }
}

/// A shortcut that is being added or edited.
#[derive(Debug)]
pub struct ManualAddDraft {
    /// Id of the shortcut that is edited; `None` for a new one.
    pub edit_id: Option<String>,
    pub target: String,
    pub title: String,
    pub args: String,
    pub icon_path: Option<String>,
}

/// Model of [`ManualAddDraft`].
#[verifier::ext_equal]
pub struct ManualView {
    pub edit_id: Option<Seq<char>>,
    pub target: Seq<char>,
    pub title: Seq<char>,
    pub args: Seq<char>,
    pub icon_path: Option<Seq<char>>,
}

impl View for ManualAddDraft {
    type V = ManualView;

    open spec fn view(&self) -> ManualView {
        ManualView {
            edit_id: games::text_option(self.edit_id),
            target: self.target@,
            title: self.title@,
            args: self.args@,
            icon_path: games::text_option(self.icon_path),
        }
    }
}

/// Copy of a catalog.
pub fn copy_catalog(c: &GamesCatalog) -> (r: GamesCatalog)
    ensures
        catalog_view(r) == catalog_view(*c),
{
    let ghost s = games::game_views(c.entries@);
    let mut entries: Vec<GameEntry> = Vec::new();
    let mut i: usize = 0;
    assert(games::game_views(entries@) =~= s.take(0));
    while i < c.entries.len()
        invariant
            i <= c.entries@.len(),
            s == games::game_views(c.entries@),
            games::game_views(entries@) == s.take(i as int),
        decreases c.entries@.len() - i,
    {
        let e = c.entries[i].copy();
        let ghost before = games::game_views(entries@);
        entries.push(e);
        assert(games::game_views(entries@) =~= before.push(e@));
        assert(s.take(i + 1) =~= s.take(i as int).push(e@));
        i = i + 1;
    }
    assert(s.take(i as int) =~= s);
    let last_played_ms = c.last_played_ms.clone();
    assert(last_played_ms@ =~= c.last_played_ms@);
    GamesCatalog { entries, last_played_ms }
}

// ---------------------------------------------------------------------------
// Commit
// ---------------------------------------------------------------------------

/// Whether a play key belongs to one of the games.
pub open spec fn in_use(entries: Seq<games::GameView>, key: Seq<char>) -> bool {
    exists|i: int| 0 <= i < entries.len() && games::play_key_of(#[trigger] entries[i]) == key
}

/// The macros of the games that are still there.
pub open spec fn without_orphans(
    lib: Map<Seq<char>, macro_lib::GameMacrosView>,
    entries: Seq<games::GameView>,
) -> Map<Seq<char>, macro_lib::GameMacrosView> {
    Map::new(
        |k: Seq<char>| lib.dom().contains(k) && in_use(entries, k),
        |k: Seq<char>| lib[k],
    )
}

/// Whether a game with macros is gone.
pub open spec fn has_orphan(
    lib: Map<Seq<char>, macro_lib::GameMacrosView>,
    entries: Seq<games::GameView>,
) -> bool {
    exists|k: Seq<char>| #[trigger] lib.dom().contains(k) && !in_use(entries, k)
}

/// What saving the edit leaves to write.
#[derive(Debug, Clone, Copy, PartialEq, Eq, Structural)]
pub struct CommitOutcome {
    pub save_games: bool,
    pub save_macros: bool,
}

fn key_in_use(entries: &[GameEntry], key: &str) -> (r: bool)
    ensures
        r == in_use(games::game_views(entries@), key@),
{
    let ghost s = games::game_views(entries@);
    let mut i: usize = 0;
    while i < entries.len()
        invariant
            i <= entries@.len(),
            s == games::game_views(entries@),
            forall|k: int| 0 <= k < i ==> games::play_key_of(#[trigger] s[k]) != key@,
        decreases entries@.len() - i,
    {
        let mine = entries[i].play_key();
        assert(s[i as int] == entries@[i as int]@);
        if text::str_eq(mine.as_str(), key) {
            return true;
        }
        i = i + 1;
    }
    false
}

/// Keys of the games with macros that are gone.
fn orphans(macros: &MacroLibrary, entries: &[GameEntry]) -> (r: Vec<String>)
    ensures
        forall|i: int|
            0 <= i < r@.len() ==> macros@.dom().contains((#[trigger] r@[i])@) && !in_use(
                games::game_views(entries@),
                r@[i]@,
            ),
        forall|k: Seq<char>| #[trigger]
            macros@.dom().contains(k) && !in_use(games::game_views(entries@), k) ==> exists|i: int|
                0 <= i < r@.len() && (#[trigger] r@[i])@ == k,
{
    let ghost s = games::game_views(entries@);
    let ghost dom = macros.games@.dom();
    let ghost q = text_map::in_order(dom);
    let mut out: Vec<String> = Vec::new();
    let mut i: usize = 0;
    let n: usize = macros.games.len();
    proof {
        text_map::lemma_in_order_exists(dom);
        assert(macros@.dom() =~= dom);
    }
    while i < n
        invariant
            i <= n,
            n == macros.games@.dom().len(),
            n == q.len(),
            dom == macros.games@.dom(),
            macros@.dom() == dom,
            q == text_map::in_order(dom),
            q.to_set() == dom,
            s == games::game_views(entries@),
            forall|k: int|
                0 <= k < out@.len() ==> dom.contains((#[trigger] out@[k])@) && !in_use(
                    s,
                    out@[k]@,
                ),
            forall|j: int|
                0 <= j < i && !in_use(s, #[trigger] q[j]) ==> exists|k: int|
                    0 <= k < out@.len() && (#[trigger] out@[k])@ == q[j],
        decreases n - i,
    {
        let key = macros.games.key_at(i);
        let used = key_in_use(entries, key.as_str());
        let ghost before = out@;
        if !used {
            out.push(key.clone());
        }
        proof {
            assert forall|j: int| 0 <= j < i + 1 && !in_use(s, #[trigger] q[j]) implies exists|k: int|
                0 <= k < out@.len() && (#[trigger] out@[k])@ == q[j] by {
                if j < i {
                    let k = choose|k: int| 0 <= k < before.len() && (#[trigger] before[k])@ == q[j];
                    assert(out@[k] == before[k]);
                } else {
                    assert(out@[out@.len() - 1]@ == q[j]);
                }
            }
        }
        i = i + 1;
    }
    proof {
        assert forall|k: Seq<char>| #[trigger] macros@.dom().contains(k) && !in_use(s, k) implies exists|
            i: int,
        |
            0 <= i < out@.len() && (#[trigger] out@[i])@ == k by {
            assert(q.to_set().contains(k));
            let j = q.index_of(k);
            assert(!in_use(s, q[j]));
        }
    }
    out
}

impl CatalogEdit {
    /// Starts an edit with a copy of the catalog.
    pub fn enter_start_edit(&mut self)
        ensures
            final(self)@ == (CatalogEditView { draft: Some(old(self)@.games), ..old(self)@ }),
    {
        self.draft = Some(copy_catalog(&self.games));
    }

    /// Throws the draft away.
    pub fn cancel_start_edit(&mut self)
        ensures
            final(self)@ == (CatalogEditView { draft: None, ..old(self)@ }),
    {
        self.draft = None;
    }

    /// Saves the draft, and forgets the macros of games that it no longer has.
    pub fn commit_start_edit(&mut self, macros: &mut MacroLibrary) -> (r: CommitOutcome)
        ensures
            match old(self)@.draft {
                Some(d) => {
                    &&& final(self)@ == (CatalogEditView { games: d, draft: None })
                    &&& final(macros)@ == without_orphans(old(macros)@, d.entries)
                    &&& r == (CommitOutcome {
                        save_games: true,
                        save_macros: has_orphan(old(macros)@, d.entries),
                    })
                },
                None => {
                    &&& final(self)@ == old(self)@
                    &&& final(macros)@ == old(macros)@
                    &&& r == (CommitOutcome { save_games: false, save_macros: false })
                },
            },
    {
        let draft = match self.draft.take() {
            Some(d) => d,
            None => {
                return CommitOutcome { save_games: false, save_macros: false };
            },
        };
        let ghost s = games::game_views(draft.entries@);
        let ghost lib = macros@;
        let gone = orphans(macros, draft.entries.as_slice());
        let mut i: usize = 0;
        while i < gone.len()
            invariant
                i <= gone@.len(),
                forall|k: int| 0 <= k < gone@.len() ==> !in_use(s, (#[trigger] gone@[k])@),
                forall|k: Seq<char>| #[trigger]
                    macros@.dom().contains(k) ==> lib.dom().contains(k) && macros@[k] == lib[k],
                forall|k: Seq<char>|
                    lib.dom().contains(k) && !(#[trigger] macros@.dom().contains(k)) ==> !in_use(
                        s,
                        k,
                    ),
                forall|k: int|
                    0 <= k < i ==> !macros@.dom().contains((#[trigger] gone@[k])@),
            decreases gone@.len() - i,
        {
            macros.remove_game(gone[i].as_str());
            i = i + 1;
        }
        let save_macros = gone.len() > 0;
        proof {
            let want = without_orphans(lib, s);
            assert forall|k: Seq<char>| macros@.dom().contains(k) == want.dom().contains(k) by {
                if macros@.dom().contains(k) && !in_use(s, k) {
                    assert(lib.dom().contains(k));
                    let j = choose|j: int| 0 <= j < gone@.len() && (#[trigger] gone@[j])@ == k;
                    assert(!macros@.dom().contains(gone@[j]@));
                }
            }
            assert(macros@ =~= want);
            if save_macros {
                assert(lib.dom().contains(gone@[0]@));
            }
        }
        self.games = draft;
        CommitOutcome { save_games: true, save_macros }
    }

    /// The catalog that edits go to.
    pub fn edit_catalog(&self) -> (r: &GamesCatalog)
        ensures
            catalog_view(*r) == self@.edited(),
    {
        match &self.draft {
            Some(d) => d,
            None => &self.games,
        }
    }

    /// The catalog that edits go to, to be changed.
    pub fn edit_catalog_mut(&mut self) -> (r: &mut GamesCatalog)
        ensures
            catalog_view(*r) == old(self)@.edited(),
            final(self)@ == old(self)@.with_edited(catalog_view(*final(r))),
    {
        if self.draft.is_some() {
            self.draft.as_mut().unwrap()
        } else {
            &mut self.games
        }
    }

    /// Puts the game of a checklist row in or out of the edited catalog, or removes its
    /// shortcut; whether that changed anything.
    pub fn edit_toggle_selected(&mut self, row: Option<&StartRow>) -> (r: bool)
        ensures
            (final(self)@, r) == toggled(
                old(self)@,
                match row {
                    Some(row) => row@.edit,
                    None => None,
                },
            ),
    {
        let row = match row {
            Some(row) => row,
            None => {
                return false;
            },
        };
        match &row.edit {
            Some(EditRow::Steam { appid, in_catalog }) => {
                let c = self.edit_catalog_mut();
                c.toggle_steam(*appid, !*in_catalog)
            },
            Some(EditRow::Manual { id }) => {
                let c = self.edit_catalog_mut();
                let r = c.remove_manual_id(id.as_str());
                r
            },
            None => false,
        }
    }

    /// Adds the drafted shortcut at the time `nanos`, or updates the one it edits. A blank title
    /// becomes the one of the target.
    pub fn confirm_manual_add(&mut self, draft: ManualAddDraft, nanos: u128)
        ensures
            final(self)@ == confirmed(old(self)@, draft@, nanos),
    {
        let trimmed = text::str_trim(draft.title.as_str());
        let title = if trimmed.as_str().is_empty() {
            title_from_target(draft.target.as_str())
        } else {
            trimmed
        };
        let args = text::str_trim(draft.args.as_str());
        let c = self.edit_catalog_mut();
        match &draft.edit_id {
            Some(id) => {
                c.update_manual(id.as_str(), title, args, draft.icon_path);
            },
            None => {
                c.add_manual(title, draft.target, args, draft.icon_path, nanos);
            },
        }
    }
}

/// The state once a checklist row is toggled, and whether that changed anything.
pub open spec fn toggled(c: CatalogEditView, edit: Option<rows::EditView>) -> (
    CatalogEditView,
    bool,
) {
    let e = c.edited();
    match edit {
        Some(rows::EditView::Steam { appid, in_catalog }) => {
            let present = games::has_steam(e.entries, appid);
            if present != in_catalog {
                (c, false)
            } else if in_catalog {
                (
                    c.with_edited(
                        CatalogView {
                            entries: e.entries.filter(
                                |g: games::GameView| g != games::GameView::Steam { appid },
                            ),
                            ..e
                        },
                    ),
                    true,
                )
            } else {
                (
                    c.with_edited(
                        CatalogView {
                            entries: e.entries.push(games::GameView::Steam { appid }),
                            ..e
                        },
                    ),
                    true,
                )
            }
        },
        Some(rows::EditView::Manual { id }) => {
            let present = exists|k: int|
                0 <= k < e.entries.len() && games::is_manual(#[trigger] e.entries[k], id);
            (
                c.with_edited(
                    CatalogView {
                        entries: e.entries.filter(|g: games::GameView| !games::is_manual(g, id)),
                        played: if present {
                            e.played.remove("manual:"@ + id)
                        } else {
                            e.played
                        },
                    },
                ),
                present,
            )
        },
        None => (c, false),
    }
}

/// Title of a drafted shortcut.
pub open spec fn draft_title(d: ManualView) -> Seq<char> {
    if text::trim(d.title).len() == 0 {
        games::target_title(d.target)
    } else {
        text::trim(d.title)
    }
}

/// The state once a drafted shortcut is confirmed at the time `nanos`.
pub open spec fn confirmed(c: CatalogEditView, d: ManualView, nanos: u128) -> CatalogEditView {
    let e = c.edited();
    let args = text::trim(d.args);
    match d.edit_id {
        Some(id) => {
            let at = games::manual_at(e.entries, id);
            if at < e.entries.len() {
                c.with_edited(
                    CatalogView {
                        entries: e.entries.update(
                            at,
                            games::edited(e.entries[at], draft_title(d), args, d.icon_path),
                        ),
                        ..e
                    },
                )
            } else {
                c
            }
        },
        None => c.with_edited(
            CatalogView {
                entries: e.entries.push(
                    games::GameView::Manual {
                        id: text::hex(nanos as nat),
                        title: draft_title(d),
                        target: d.target,
                        args,
                        icon: d.icon_path,
                    },
                ),
                ..e
            },
        ),
    }
}

// ---------------------------------------------------------------------------
// The shortcut form
// ---------------------------------------------------------------------------

/// A program was picked for a new shortcut: the form to show, if an edit is on.
pub fn on_manual_file_picked(path: Option<String>, editing: bool) -> (r: Option<ManualAddDraft>)
    ensures
        match r {
            Some(d) => {
                &&& editing
                &&& path matches Some(p)
                &&& d@ == (ManualView {
                    edit_id: None,
                    target: p@,
                    title: games::target_title(p@),
                    args: seq![],
                    icon_path: None,
                })
            },
            None => path is None || !editing,
        },
{
    match path {
        Some(target) => if editing {
            let title = title_from_target(target.as_str());
            let r = ManualAddDraft {
                edit_id: None,
                target,
                title,
                args: String::new(),
                icon_path: None,
            };
            assert(r@.args =~= Seq::<char>::empty());
            Some(r)
        } else {
            None
        },
        None => None,
    }
}

/// An image was picked for the shortcut in the form.
pub fn on_manual_icon_picked(form: &mut Option<ManualAddDraft>, path: Option<String>)
    ensures
        match *old(form) {
            Some(d) => {
                &&& *final(form) matches Some(e)
                &&& e@ == (ManualView {
                    icon_path: match path {
                        Some(p) => Some(p@),
                        None => d@.icon_path,
                    },
                    ..d@
                })
            },
            None => *final(form) is None,
        },
{
    if let Some(mut d) = form.take() {
        if let Some(p) = path {
            d.icon_path = Some(p);
        }
        *form = Some(d);
    }
}

/// Icon of the first shortcut with an id that has one.
pub open spec fn icon_of(entries: Seq<games::GameView>, id: Seq<char>) -> Option<Seq<char>>
    decreases entries.len(),
{
    if entries.len() == 0 {
        None
    } else {
        match entries[0] {
            games::GameView::Manual { id: mid, icon: Some(icon), .. } if mid == id => Some(icon),
            _ => icon_of(entries.drop_first(), id),
        }
    }
}

/// The form to edit the shortcut of a checklist row with.
pub fn begin_manual_edit(row: Option<&StartRow>, catalog: &GamesCatalog) -> (r: Option<
    ManualAddDraft,
>)
    ensures
        match row {
            Some(row) => match row@.edit {
                Some(rows::EditView::Manual { id }) => {
                    &&& r matches Some(d)
                    &&& d@ == (ManualView {
                        edit_id: Some(id),
                        target: row@.target,
                        title: row@.title,
                        args: row@.args,
                        icon_path: icon_of(games::game_views(catalog.entries@), id),
                    })
                },
                _ => r is None,
            },
            None => r is None,
        },
{
    let row = match row {
        Some(row) => row,
        None => {
            return None;
        },
    };
    let id = match &row.edit {
        Some(EditRow::Manual { id }) => id,
        _ => {
            return None;
        },
    };
    let ghost s = games::game_views(catalog.entries@);
    let mut icon_path: Option<String> = None;
    let mut i: usize = 0;
    assert(s.skip(0) =~= s);
    while i < catalog.entries.len() && icon_path.is_none()
        invariant
            i <= catalog.entries@.len(),
            s == games::game_views(catalog.entries@),
            match icon_path {
                Some(p) => icon_of(s, id@) == Some(p@),
                None => icon_of(s, id@) == icon_of(s.skip(i as int), id@),
            },
        decreases catalog.entries@.len() - i,
    {
        let e = &catalog.entries[i];
        assert(s.skip(i as int)[0] == e@);
        assert(s.skip(i as int).drop_first() =~= s.skip(i + 1));
        if let GameEntry::Manual { id: mid, icon, .. } = e {
            if text::str_eq(mid.as_str(), id.as_str()) {
                icon_path = copy_text_option(icon);
            }
        }
        i = i + 1;
    }
    Some(
        ManualAddDraft {
            edit_id: Some(id.clone()),
            target: row.target.clone(),
            title: row.title.clone(),
            args: row.args.clone(),
            icon_path,
        },
    )
}

// ---------------------------------------------------------------------------
// Laws
// ---------------------------------------------------------------------------

/// While a draft is edited the catalog itself does not change, so that cancelling restores what
/// was there.
pub proof fn law_cancel_restores(
    c: CatalogEditView,
    edit: Option<rows::EditView>,
    d: ManualView,
    nanos: u128,
)
    requires
        c.draft is Some,
    ensures
        toggled(c, edit).0.games == c.games,
        toggled(c, edit).0.draft is Some,
        confirmed(c, d, nanos).games == c.games,
        confirmed(c, d, nanos).draft is Some,
{
}

/// Saving an edit keeps the macros of every game that is still there.
pub proof fn law_commit_keeps_macros_in_use(
    lib: Map<Seq<char>, macro_lib::GameMacrosView>,
    entries: Seq<games::GameView>,
    i: int,
)
    requires
        0 <= i < entries.len(),
    ensures
        macro_lib::game_of(without_orphans(lib, entries), games::play_key_of(entries[i]))
            == macro_lib::game_of(lib, games::play_key_of(entries[i])),
{
    let k = games::play_key_of(entries[i]);
    assert(in_use(entries, k));
}

/// Saving an edit leaves no macros of games that are gone.
pub proof fn law_commit_drops_orphans(
    lib: Map<Seq<char>, macro_lib::GameMacrosView>,
    entries: Seq<games::GameView>,
    key: Seq<char>,
)
    requires
        !in_use(entries, key),
    ensures
        !without_orphans(lib, entries).dom().contains(key),
        !has_orphan(without_orphans(lib, entries), entries),
{
}

/// Toggling a Steam game off and on again, as the checklist shows it each time, leaves it in the
/// catalog.
pub proof fn law_toggle_off_and_on(c: CatalogEditView, appid: u32)
    requires
        games::has_steam(c.edited().entries, appid),
    ensures
        ({
            let (off, changed) = toggled(
                c,
                Some(rows::EditView::Steam { appid, in_catalog: true }),
            );
            let (on, again) = toggled(
                off,
                Some(rows::EditView::Steam { appid, in_catalog: false }),
            );
            &&& changed
            &&& again
            &&& !games::has_steam(off.edited().entries, appid)
            &&& games::has_steam(on.edited().entries, appid)
        }),
{
    let e = c.edited().entries;
    let keep = |g: games::GameView| g != games::GameView::Steam { appid };
    let f = e.filter(keep);
    assert(!games::has_steam(f, appid)) by {
        assert forall|i: int| 0 <= i < f.len() implies f[i] != (games::GameView::Steam { appid }) by {
            e.lemma_filter_pred(keep, i);
        }
    }
    let p = f.push(games::GameView::Steam { appid });
    assert(p[p.len() - 1] == games::GameView::Steam { appid });
}

} // verus!
