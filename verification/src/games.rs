//! Game catalog and per-game macros.
use crate::prefs::GamesSortMode;
use crate::text;
use crate::text_map::TextMap;
use crate::win_path;
use vstd::prelude::*;

pub mod browsing;
pub mod macro_documents;
pub mod macro_join;
pub mod macro_keeping;
pub mod macro_keys;
pub mod macro_lib;
pub mod macro_replies;
pub mod macro_round_trip;
pub mod macro_run;
pub mod macro_text;
pub mod macro_writing;

verus! {

/// A game of the catalog.
#[derive(Debug, Clone, PartialEq, Eq)]
pub enum GameEntry {
    Steam { appid: u32 },
    Manual { id: String, title: String, target: String, args: String, icon: Option<String> },
}

/// Model of [`GameEntry`].
#[verifier::ext_equal]
pub enum GameView {
    Steam { appid: u32 },
    Manual {
        id: Seq<char>,
        title: Seq<char>,
        target: Seq<char>,
        args: Seq<char>,
        icon: Option<Seq<char>>,
    },
}

/// Model of an optional text.
pub open spec fn text_option(s: Option<String>) -> Option<Seq<char>> {
    match s {
        Some(t) => Some(t@),
        None => None,
    }
}

impl View for GameEntry {
    type V = GameView;

    open spec fn view(&self) -> GameView {
        match *self {
            GameEntry::Steam { appid } => GameView::Steam { appid },
            GameEntry::Manual { id, title, target, args, icon } => GameView::Manual {
                id: id@,
                title: title@,
                target: target@,
                args: args@,
                icon: text_option(icon),
            },
        }
    }
}

/// Models of a list of games.
pub open spec fn game_views(v: Seq<GameEntry>) -> Seq<GameView> {
    Seq::new(v.len(), |i: int| v[i]@)
}

/// Key under which plays and macros of a game are remembered.
pub open spec fn play_key_of(g: GameView) -> Seq<char> {
    match g {
        GameView::Steam { appid } => "steam:"@ + text::dec(appid as nat),
        GameView::Manual { id, .. } => "manual:"@ + id,
    }
}

/// Copy of an optional text.
pub fn copy_text_option(s: &Option<String>) -> (r: Option<String>)
    ensures
        text_option(r) == text_option(*s),
{
    match s {
        Some(t) => Some(t.clone()),
        None => None,
    }
}

impl GameEntry {
    /// A shortcut that the user added at the time `nanos`, which becomes its id.
    pub fn manual_with(
        title: String,
        target: String,
        args: String,
        icon: Option<String>,
        nanos: u128,
    ) -> (r: Self)
        ensures
            r@ == (GameView::Manual {
                id: text::hex(nanos as nat),
                title: title@,
                target: target@,
                args: args@,
                icon: text_option(icon),
            }),
    {
        GameEntry::Manual { id: new_manual_id(nanos), title, target, args, icon }
    }

    /// Key under which plays and macros of the game are remembered.
    pub fn play_key(&self) -> (r: String)
        ensures
            r@ == play_key_of(self@),
    {
        match self {
            GameEntry::Steam { appid } => {
                let mut r = text::own("steam:");
                text::push_dec(&mut r, *appid as u64);
                r
            },
            GameEntry::Manual { id, .. } => text::cat2("manual:", id.as_str()),
        }
    }

    /// Copy of the entry.
    pub fn copy(&self) -> (r: Self)
        ensures
            r@ == self@,
    {
        match self {
            GameEntry::Steam { appid } => GameEntry::Steam { appid: *appid },
            GameEntry::Manual { id, title, target, args, icon } => GameEntry::Manual {
                id: id.clone(),
                title: title.clone(),
                target: target.clone(),
                args: args.clone(),
                icon: copy_text_option(icon),
            },
        }
    }
}

/// Curated games and when each was last launched.
#[derive(Debug, Clone, PartialEq, Eq)]
pub struct GamesCatalog {
    pub entries: Vec<GameEntry>,
    /// Unix millis of last successful launch, keyed by [`GameEntry::play_key`].
    pub last_played_ms: TextMap<u64>,
}

/// Whether a Steam game is among the entries.
pub open spec fn has_steam(s: Seq<GameView>, appid: u32) -> bool {
    s.contains(GameView::Steam { appid })
}

/// Whether an entry is the shortcut with an id.
pub open spec fn is_manual(g: GameView, id: Seq<char>) -> bool {
    g matches GameView::Manual { id: mid, .. } && mid == id
}

/// Place of the first shortcut with an id, or the length when there is none.
pub open spec fn manual_at(s: Seq<GameView>, id: Seq<char>) -> int
    decreases s.len(),
{
    if s.len() == 0 || is_manual(s[0], id) {
        0
    } else {
        1 + manual_at(s.drop_first(), id)
    }
}

/// A shortcut with its title, arguments and icon replaced.
pub open spec fn edited(
    g: GameView,
    title: Seq<char>,
    args: Seq<char>,
    icon: Option<Seq<char>>,
) -> GameView {
    match g {
        GameView::Steam { appid } => g,
        GameView::Manual { id, target, .. } => GameView::Manual { id, title, target, args, icon },
    }
}

/// Whether an entry shows on the start screen: after a scan (`Some`), Steam games that are
/// not installed do not.
pub open spec fn shows(g: GameView, installed: Option<Seq<u32>>) -> bool {
    match g {
        GameView::Steam { appid } => match installed {
            None => true,
            Some(ids) => ids.contains(appid),
        },
        GameView::Manual { .. } => true,
    }
}

/// Entries that show on the start screen.
pub open spec fn shown(s: Seq<GameView>, installed: Option<Seq<u32>>) -> Seq<GameView> {
    s.filter(|g: GameView| shows(g, installed))
}

/// Model of an optional scan result.
pub open spec fn scan_view(installed: Option<&[u32]>) -> Option<Seq<u32>> {
    match installed {
        None => None,
        Some(ids) => Some(ids@),
    }
}

/// When an entry was last launched.
pub open spec fn played(m: Map<Seq<char>, u64>, g: GameView) -> Option<u64> {
    if m.dom().contains(play_key_of(g)) {
        Some(m[play_key_of(g)])
    } else {
        None
    }
}

/// The same, with 0 for never.
pub open spec fn played_or_zero(m: Map<Seq<char>, u64>, g: GameView) -> u64 {
    match played(m, g) {
        Some(t) => t,
        None => 0,
    }
}

/// What browse mode sorts an entry by: the launch time (0 when sorting by title alone) and
/// the title in lower case.
pub struct SortKey {
    pub played: u64,
    pub title: Seq<char>,
}

/// Sort key of the `k`-th entry.
pub open spec fn sort_key(
    s: Seq<GameView>,
    m: Map<Seq<char>, u64>,
    titles: Seq<Seq<char>>,
    mode: GamesSortMode,
    k: int,
) -> SortKey {
    SortKey {
        played: if mode == GamesSortMode::LastPlayed {
            played_or_zero(m, s[k])
        } else {
            0
        },
        title: text::lowercased(titles[k]),
    }
}

/// Whether a key comes strictly first: more recently launched, then smaller title.
pub open spec fn key_first(a: SortKey, b: SortKey) -> bool {
    a.played > b.played || (a.played == b.played && text::text_lt(a.title, b.title))
}

/// Whether entry `a` comes before entry `b`: by key, equal keys in catalog order.
pub open spec fn entry_first(keys: Seq<SortKey>, a: int, b: int) -> bool {
    key_first(keys[a], keys[b]) || (!key_first(keys[b], keys[a]) && a < b)
}

/// Sort keys of all entries.
pub open spec fn sort_keys(
    s: Seq<GameView>,
    m: Map<Seq<char>, u64>,
    titles: Seq<Seq<char>>,
    mode: GamesSortMode,
) -> Seq<SortKey> {
    Seq::new(s.len(), |k: int| sort_key(s, m, titles, mode, k))
}

/// Whether `order` lists, each once and in browse order, the entries below `n` that show.
pub open spec fn browse_order(
    order: Seq<int>,
    s: Seq<GameView>,
    installed: Option<Seq<u32>>,
    keys: Seq<SortKey>,
    n: int,
) -> bool {
    &&& forall|i: int, j: int|
        0 <= i < j < order.len() ==> entry_first(keys, #[trigger] order[i], #[trigger] order[j])
    &&& forall|i: int|
        0 <= i < order.len() ==> 0 <= (#[trigger] order[i]) < n && shows(s[order[i]], installed)
    &&& forall|k: int| 0 <= k < n && shows(#[trigger] s[k], installed) ==> order.contains(k)
}

/// Places as plain integers.
pub open spec fn ints(v: Seq<usize>) -> Seq<int> {
    Seq::new(v.len(), |i: int| v[i] as int)
}

/// Entries at the given places.
pub open spec fn picked(s: Seq<GameView>, order: Seq<int>) -> Seq<GameView> {
    Seq::new(order.len(), |i: int| s[order[i]])
}

proof fn lemma_manual_at(s: Seq<GameView>, id: Seq<char>, k: int)
    requires
        0 <= k <= s.len(),
        k < s.len() ==> is_manual(s[k], id),
        forall|i: int| 0 <= i < k ==> !is_manual(#[trigger] s[i], id),
    ensures
        manual_at(s, id) == k,
    decreases k,
{
    if k > 0 {
        assert(!is_manual(s[0], id));
        let t = s.drop_first();
        assert forall|i: int| 0 <= i < k - 1 implies !is_manual(#[trigger] t[i], id) by {
            assert(t[i] == s[i + 1]);
        }
        lemma_manual_at(t, id, k - 1);
    }
}

pub proof fn lemma_filter_step(s: Seq<GameView>, keep: spec_fn(GameView) -> bool, i: int)
    requires
        0 <= i < s.len(),
    ensures
        s.take(i + 1).filter(keep) == (if keep(s[i]) {
            s.take(i).filter(keep).push(s[i])
        } else {
            s.take(i).filter(keep)
        }),
{
    reveal(Seq::filter);
    assert(s.take(i + 1).drop_last() == s.take(i));
    assert(s.take(i + 1).last() == s[i]);
}

proof fn lemma_filter_len(s: Seq<GameView>, keep: spec_fn(GameView) -> bool)
    ensures
        s.filter(keep).len() <= s.len(),
        s.filter(keep).len() == s.len() <==> forall|i: int|
            0 <= i < s.len() ==> keep(#[trigger] s[i]),
        (forall|i: int| 0 <= i < s.len() ==> keep(#[trigger] s[i])) ==> s.filter(keep) == s,
    decreases s.len(),
{
    reveal(Seq::filter);
    if s.len() > 0 {
        lemma_filter_len(s.drop_last(), keep);
        let t = s.drop_last();
        assert forall|i: int| 0 <= i < t.len() implies t[i] == s[i] by {}
        if forall|i: int| 0 <= i < s.len() ==> keep(#[trigger] s[i]) {
            assert(keep(s[s.len() - 1]));
            assert forall|i: int| 0 <= i < t.len() implies keep(#[trigger] t[i]) by {
                assert(t[i] == s[i]);
            }
            assert(t.push(s.last()) =~= s);
        } else if s.filter(keep).len() == s.len() {
            assert(keep(s.last()));
            assert forall|i: int| 0 <= i < s.len() implies keep(#[trigger] s[i]) by {
                if i < t.len() {
                    assert(t[i] == s[i]);
                }
            }
        }
    } else {
        assert(s.filter(keep) =~= s);
    }
}

impl Default for GamesCatalog {
    fn default() -> (r: Self)
        ensures
            r.entries@.len() == 0,
            r.last_played_ms@ == Map::<Seq<char>, u64>::empty(),
    {
        GamesCatalog { entries: Vec::new(), last_played_ms: TextMap::new() }
    }
}

impl GamesCatalog {
    /// Whether a Steam game is in the catalog.
    pub fn contains_steam(&self, appid: u32) -> (r: bool)
        ensures
            r == has_steam(game_views(self.entries@), appid),
    {
        let ghost s = game_views(self.entries@);
        let mut i: usize = 0;
        while i < self.entries.len()
            invariant
                i <= self.entries@.len(),
                s == game_views(self.entries@),
                forall|k: int| 0 <= k < i ==> #[trigger] s[k] != (GameView::Steam { appid }),
            decreases self.entries@.len() - i,
        {
            assert(s[i as int] == self.entries@[i as int]@);
            if let GameEntry::Steam { appid: id } = &self.entries[i] {
                if *id == appid {
                    return true;
                }
            }
            i = i + 1;
        }
        false
    }

    /// Puts a Steam game in the catalog or takes it out; whether that changed anything.
    pub fn toggle_steam(&mut self, appid: u32, enabled: bool) -> (r: bool)
        ensures
            final(self).last_played_ms == old(self).last_played_ms,
            r == (has_steam(game_views(old(self).entries@), appid) != enabled),
            ({
                let before = game_views(old(self).entries@);
                game_views(final(self).entries@) == (if !r {
                    before
                } else if enabled {
                    before.push(GameView::Steam { appid })
                } else {
                    before.filter(|g: GameView| g != GameView::Steam { appid })
                })
            }),
    {
        let present = self.contains_steam(appid);
        let ghost s = game_views(self.entries@);
        if enabled && !present {
            self.entries.push(GameEntry::Steam { appid });
            assert(game_views(self.entries@) =~= s.push(GameView::Steam { appid }));
            true
        } else if !enabled && present {
            let ghost keep = |g: GameView| g != GameView::Steam { appid };
            let mut kept: Vec<GameEntry> = Vec::new();
            let mut i: usize = 0;
            proof {
                reveal(Seq::filter);
                assert(game_views(kept@) =~= s.take(0).filter(keep));
            }
            while i < self.entries.len()
                invariant
                    i <= self.entries@.len(),
                    *self == *old(self),
                    s == game_views(self.entries@),
                    keep == (|g: GameView| g != GameView::Steam { appid }),
                    game_views(kept@) == s.take(i as int).filter(keep),
                decreases self.entries@.len() - i,
            {
                let e = &self.entries[i];
                let same = match e {
                    GameEntry::Steam { appid: id } => *id == appid,
                    GameEntry::Manual { .. } => false,
                };
                assert(s[i as int] == e@);
                proof {
                    lemma_filter_step(s, keep, i as int);
                }
                let ghost before = game_views(kept@);
                if !same {
                    kept.push(e.copy());
                    assert(game_views(kept@) =~= before.push(e@));
                }
                i = i + 1;
            }
            assert(s.take(i as int) == s);
            self.entries = kept;
            true
        } else {
            false
        }
    }

    /// Adds a shortcut at the time `nanos`.
    pub fn add_manual(
        &mut self,
        title: String,
        target: String,
        args: String,
        icon: Option<String>,
        nanos: u128,
    )
        ensures
            final(self).last_played_ms == old(self).last_played_ms,
            game_views(final(self).entries@) == game_views(old(self).entries@).push(
                GameView::Manual {
                    id: text::hex(nanos as nat),
                    title: title@,
                    target: target@,
                    args: args@,
                    icon: text_option(icon),
                },
            ),
    {
        let ghost s = game_views(self.entries@);
        let e = GameEntry::manual_with(title, target, args, icon, nanos);
        self.entries.push(e);
        assert(game_views(self.entries@) =~= s.push(e@));
    }

    /// Replaces title, arguments and icon of the first shortcut with an id; whether there is
    /// one.
    pub fn update_manual(
        &mut self,
        id: &str,
        title: String,
        args: String,
        icon: Option<String>,
    ) -> (r: bool)
        ensures
            final(self).last_played_ms == old(self).last_played_ms,
            ({
                let before = game_views(old(self).entries@);
                let at = manual_at(before, id@);
                &&& r == (at < before.len())
                &&& game_views(final(self).entries@) == (if r {
                    before.update(at, edited(before[at], title@, args@, text_option(icon)))
                } else {
                    before
                })
            }),
    {
        let ghost s = game_views(self.entries@);
        let mut i: usize = 0;
        while i < self.entries.len()
            invariant
                i <= self.entries@.len(),
                *self == *old(self),
                s == game_views(self.entries@),
                forall|k: int| 0 <= k < i ==> !is_manual(#[trigger] s[k], id@),
            decreases self.entries@.len() - i,
        {
            assert(s[i as int] == self.entries@[i as int]@);
            let target: Option<String> = match &self.entries[i] {
                GameEntry::Manual { id: mid, target, .. } => if text::str_eq(mid.as_str(), id) {
                    Some(target.clone())
                } else {
                    None
                },
                GameEntry::Steam { .. } => None,
            };
            if let Some(target) = target {
                proof {
                    lemma_manual_at(s, id@, i as int);
                }
                let e = GameEntry::Manual { id: text::own(id), title, target, args, icon };
                self.entries.set(i, e);
                assert(game_views(self.entries@) =~= s.update(i as int, e@));
                return true;
            }
            i = i + 1;
        }
        proof {
            lemma_manual_at(s, id@, s.len() as int);
        }
        false
    }

    /// Removes every shortcut with an id, and with it when it was last launched; whether
    /// there was one.
    pub fn remove_manual_id(&mut self, id: &str) -> (r: bool)
        ensures
            ({
                let before = game_views(old(self).entries@);
                &&& r == (exists|k: int| 0 <= k < before.len() && is_manual(#[trigger] before[k], id@))
                &&& game_views(final(self).entries@) == before.filter(
                    |g: GameView| !is_manual(g, id@),
                )
                &&& final(self).last_played_ms@ == (if r {
                    old(self).last_played_ms@.remove("manual:"@ + id@)
                } else {
                    old(self).last_played_ms@
                })
            }),
    {
        let ghost s = game_views(self.entries@);
        let ghost keep = |g: GameView| !is_manual(g, id@);
        let mut kept: Vec<GameEntry> = Vec::new();
        let mut found = false;
        let mut i: usize = 0;
        proof {
            reveal(Seq::filter);
            assert(game_views(kept@) =~= s.take(0).filter(keep));
        }
        while i < self.entries.len()
            invariant
                i <= self.entries@.len(),
                *self == *old(self),
                s == game_views(self.entries@),
                keep == (|g: GameView| !is_manual(g, id@)),
                game_views(kept@) == s.take(i as int).filter(keep),
                found == (exists|k: int| 0 <= k < i && is_manual(#[trigger] s[k], id@)),
            decreases self.entries@.len() - i,
        {
            let e = &self.entries[i];
            let same = match e {
                GameEntry::Steam { .. } => false,
                GameEntry::Manual { id: mid, .. } => text::str_eq(mid.as_str(), id),
            };
            assert(s[i as int] == e@);
            proof {
                lemma_filter_step(s, keep, i as int);
            }
            let ghost before = game_views(kept@);
            if same {
                found = true;
            } else {
                kept.push(e.copy());
                assert(game_views(kept@) =~= before.push(e@));
            }
            i = i + 1;
        }
        assert(s.take(i as int) == s);
        self.entries = kept;
        if found {
            let key = text::cat2("manual:", id);
            self.last_played_ms.remove(key.as_str());
        }
        found
    }

    /// Remembers a launch at the time `now_ms`.
    pub fn touch_played_key(&mut self, key: String, now_ms: u64)
        ensures
            final(self).entries == old(self).entries,
            final(self).last_played_ms@ == old(self).last_played_ms@.insert(key@, now_ms),
    {
        self.last_played_ms.insert(key, now_ms);
    }

    /// When an entry was last launched.
    pub fn last_played(&self, entry: &GameEntry) -> (r: Option<u64>)
        ensures
            r == played(self.last_played_ms@, entry@),
    {
        let key = entry.play_key();
        match self.last_played_ms.get(key.as_str()) {
            Some(t) => Some(*t),
            None => None,
        }
    }

    /// Entries for the start screen.
    ///
    /// `installed_steam`: `None` — the library scan is not finished or failed, every Steam
    /// game stays. `Some(ids)` — a successful scan, Steam games that are not installed go.
    pub fn merge_for_display(&self, installed_steam: Option<&[u32]>) -> (r: Vec<GameEntry>)
        ensures
            game_views(r@) == shown(game_views(self.entries@), scan_view(installed_steam)),
    {
        let ghost s = game_views(self.entries@);
        let ghost inst = scan_view(installed_steam);
        let ghost keep = |g: GameView| shows(g, inst);
        let mut kept: Vec<GameEntry> = Vec::new();
        let mut i: usize = 0;
        proof {
            reveal(Seq::filter);
            assert(game_views(kept@) =~= s.take(0).filter(keep));
        }
        while i < self.entries.len()
            invariant
                i <= self.entries@.len(),
                s == game_views(self.entries@),
                inst == scan_view(installed_steam),
                keep == (|g: GameView| shows(g, inst)),
                game_views(kept@) == s.take(i as int).filter(keep),
            decreases self.entries@.len() - i,
        {
            let e = &self.entries[i];
            assert(s[i as int] == e@);
            proof {
                lemma_filter_step(s, keep, i as int);
            }
            let ghost before = game_views(kept@);
            if entry_shows(e, installed_steam) {
                kept.push(e.copy());
                assert(game_views(kept@) =~= before.push(e@));
            }
            i = i + 1;
        }
        assert(s.take(i as int) == s);
        kept
    }

    /// Places of the entries that browse mode shows, in its order. `titles` holds the display
    /// title of each entry.
    pub fn sorted_places(
        &self,
        installed_steam: Option<&[u32]>,
        mode: GamesSortMode,
        titles: &[String],
    ) -> (r: Vec<usize>)
        requires
            titles@.len() == self.entries@.len(),
        ensures
            ({
                let s = game_views(self.entries@);
                browse_order(
                    ints(r@),
                    s,
                    scan_view(installed_steam),
                    sort_keys(s, self.last_played_ms@, text::views(titles@), mode),
                    s.len() as int,
                )
            }),
    {
        let ghost s = game_views(self.entries@);
        let ghost inst = scan_view(installed_steam);
        let ghost keys = sort_keys(s, self.last_played_ms@, text::views(titles@), mode);
        let mut recent: Vec<u64> = Vec::new();
        let mut lower: Vec<String> = Vec::new();
        let mut order: Vec<usize> = Vec::new();
        let mut i: usize = 0;
        while i < self.entries.len()
            invariant
                i <= self.entries@.len(),
                titles@.len() == self.entries@.len(),
                s == game_views(self.entries@),
                inst == scan_view(installed_steam),
                keys == sort_keys(s, self.last_played_ms@, text::views(titles@), mode),
                recent@.len() == i,
                lower@.len() == i,
                forall|k: int|
                    0 <= k < i ==> (#[trigger] keys[k]) == (SortKey {
                        played: recent@[k],
                        title: lower@[k]@,
                    }),
                browse_order(ints(order@), s, inst, keys, i as int),
            decreases self.entries@.len() - i,
        {
            let e = &self.entries[i];
            let time: u64 = match mode {
                GamesSortMode::Alphabetical => 0,
                GamesSortMode::LastPlayed => match self.last_played(e) {
                    Some(t) => t,
                    None => 0,
                },
            };
            recent.push(time);
            lower.push(text::str_lowercase(titles[i].as_str()));
            assert(s[i as int] == e@);
            assert(text::views(titles@)[i as int] == titles@[i as int]@);
            assert(keys[i as int] == (SortKey { played: time, title: lower@[i as int]@ }));
            assert forall|k: int| 0 <= k < i + 1 implies (#[trigger] keys[k]) == (SortKey {
                played: recent@[k],
                title: lower@[k]@,
            }) by {}
            if entry_shows(e, installed_steam) {
                place(&mut order, i, recent.as_slice(), lower.as_slice(), Ghost(s), Ghost(inst), Ghost(keys));
            }
            i = i + 1;
        }
        order
    }

    /// Curated catalog sorted for browse mode: entries that show, by title, or the most
    /// recently launched first. `titles` holds the display title of each entry.
    pub fn merge_sorted(
        &self,
        installed_steam: Option<&[u32]>,
        mode: GamesSortMode,
        titles: &[String],
    ) -> (r: Vec<GameEntry>)
        requires
            titles@.len() == self.entries@.len(),
        ensures
            ({
                let s = game_views(self.entries@);
                exists|order: Seq<int>|
                    #![trigger picked(s, order)]
                    browse_order(
                        order,
                        s,
                        scan_view(installed_steam),
                        sort_keys(s, self.last_played_ms@, text::views(titles@), mode),
                        s.len() as int,
                    ) && game_views(r@) == picked(s, order)
            }),
    {
        let ghost s = game_views(self.entries@);
        let order = self.sorted_places(installed_steam, mode, titles);
        let ghost want = picked(s, ints(order@));
        let mut out: Vec<GameEntry> = Vec::new();
        let mut i: usize = 0;
        while i < order.len()
            invariant
                i <= order@.len(),
                s == game_views(self.entries@),
                want == picked(s, ints(order@)),
                forall|k: int| 0 <= k < order@.len() ==> (#[trigger] ints(order@)[k]) < s.len(),
                game_views(out@) == want.take(i as int),
            decreases order@.len() - i,
        {
            assert(ints(order@)[i as int] == order@[i as int]);
            let e = self.entries[order[i]].copy();
            let ghost before = game_views(out@);
            out.push(e);
            assert(game_views(out@) =~= before.push(e@));
            assert(want.take(i + 1) =~= want.take(i as int).push(e@));
            i = i + 1;
        }
        assert(want.take(i as int) =~= want);
        out
    }
}

proof fn lemma_key_first(a: SortKey, b: SortKey, c: SortKey)
    requires
        key_first(a, b),
        !key_first(c, b),
    ensures
        key_first(a, c),
        !key_first(b, a),
{
    text::lemma_text_lt_total(b.title, c.title);
    text::lemma_text_lt_irreflexive(a.title);
    if a.played == b.played && text::text_lt(b.title, a.title) {
        text::lemma_text_lt_transitive(a.title, b.title, a.title);
    }
    if text::text_lt(a.title, b.title) && text::text_lt(b.title, c.title) {
        text::lemma_text_lt_transitive(a.title, b.title, c.title);
    }
}

/// Puts entry `i`, which comes behind all entries so far in the catalog, in its place.
fn place(
    order: &mut Vec<usize>,
    i: usize,
    recent: &[u64],
    lower: &[String],
    Ghost(s): Ghost<Seq<GameView>>,
    Ghost(inst): Ghost<Option<Seq<u32>>>,
    Ghost(keys): Ghost<Seq<SortKey>>,
)
    requires
        i < s.len(),
        i < recent@.len(),
        i < lower@.len(),
        keys.len() == s.len(),
        forall|k: int|
            0 <= k <= i ==> (#[trigger] keys[k]) == (SortKey {
                played: recent@[k],
                title: lower@[k]@,
            }),
        shows(s[i as int], inst),
        browse_order(ints(old(order)@), s, inst, keys, i as int),
    ensures
        browse_order(ints(final(order)@), s, inst, keys, i + 1),
{
    let ghost o = ints(order@);
    let ghost v = order@;
    let mut at: usize = 0;
    loop
        invariant
            at <= order@.len(),
            order@ == v,
            o == ints(v),
            i < recent@.len(),
            i < lower@.len(),
            i < keys.len(),
            forall|k: int|
                0 <= k <= i ==> (#[trigger] keys[k]) == (SortKey {
                    played: recent@[k],
                    title: lower@[k]@,
                }),
            forall|q: int| 0 <= q < o.len() ==> 0 <= (#[trigger] o[q]) < i,
            forall|q: int|
                0 <= q < at ==> !key_first(keys[i as int], keys[#[trigger] o[q]]),
        ensures
            at <= order@.len(),
            order@ == v,
            forall|q: int|
                0 <= q < at ==> !key_first(keys[i as int], keys[#[trigger] o[q]]),
            at < order@.len() ==> key_first(keys[i as int], keys[o[at as int]]),
        decreases order@.len() - at,
    {
        if at >= order.len() {
            break;
        }
        let k: usize = order[at];
        assert(o[at as int] == k);
        assert(keys[k as int].title == lower@[k as int]@);
        assert(keys[i as int].title == lower@[i as int]@);
        if recent[i] > recent[k] || (recent[i] == recent[k] && text::str_lt(
            lower[i].as_str(),
            lower[k].as_str(),
        )) {
            break;
        }
        at = at + 1;
    }
    order.insert(at, i);
    proof {
        let n = ints(order@);
        assert(n =~= o.insert(at as int, i as int));
        assert forall|q: int| 0 <= q < at implies entry_first(keys, #[trigger] o[q], i as int) by {}
        assert forall|q: int| at <= q < o.len() implies entry_first(
            keys,
            i as int,
            #[trigger] o[q],
        ) by {
            if q > at {
                assert(entry_first(keys, o[at as int], o[q]));
                text::lemma_text_lt_irreflexive(keys[o[q]].title);
                if key_first(keys[o[at as int]], keys[o[q]]) {
                    lemma_key_first(keys[o[at as int]], keys[o[q]], keys[o[q]]);
                }
                lemma_key_first(keys[i as int], keys[o[at as int]], keys[o[q]]);
            }
        }
        assert forall|a: int, b: int| 0 <= a < b < n.len() implies entry_first(
            keys,
            #[trigger] n[a],
            #[trigger] n[b],
        ) by {
            if a < at && b < at {
                assert(n[a] == o[a] && n[b] == o[b]);
            } else if a < at && b == at {
                assert(n[a] == o[a]);
            } else if a < at {
                assert(n[a] == o[a] && n[b] == o[b - 1]);
            } else if a == at {
                assert(n[b] == o[b - 1]);
            } else {
                assert(n[a] == o[a - 1] && n[b] == o[b - 1]);
            }
        }
        assert forall|a: int| 0 <= a < n.len() implies 0 <= (#[trigger] n[a]) < i + 1 && shows(
            s[n[a]],
            inst,
        ) by {
            if a < at {
                assert(n[a] == o[a]);
            } else if a > at {
                assert(n[a] == o[a - 1]);
            }
        }
        assert forall|k: int| 0 <= k < i + 1 && shows(#[trigger] s[k], inst) implies n.contains(
            k,
        ) by {
            if k == i {
                assert(n[at as int] == k);
            } else {
                assert(o.contains(k));
                let q = o.index_of(k);
                if q < at {
                    assert(n[q] == k);
                } else {
                    assert(n[q + 1] == k);
                }
            }
        }
    }
}

fn entry_shows(e: &GameEntry, installed_steam: Option<&[u32]>) -> (r: bool)
    ensures
        r == shows(e@, scan_view(installed_steam)),
{
    match e {
        GameEntry::Manual { .. } => true,
        GameEntry::Steam { appid } => match installed_steam {
            None => true,
            Some(ids) => {
                let mut i: usize = 0;
                while i < ids.len()
                    invariant
                        i <= ids@.len(),
                        e@ == (GameView::Steam { appid: *appid }),
                        scan_view(installed_steam) == Some(ids@),
                        forall|k: int| 0 <= k < i ==> ids@[k] != appid,
                    decreases ids@.len() - i,
                {
                    if ids[i] == *appid {
                        return true;
                    }
                    i = i + 1;
                }
                false
            },
        },
    }
}

/// Id of a shortcut that was added at the time `nanos`.
fn new_manual_id(nanos: u128) -> (r: String)
    ensures
        r@ == text::hex(nanos as nat),
{
    let mut r = String::new();
    text::push_hex(&mut r, nanos);
    r
}

/// Default display title for a shortcut's target: what follows `steam://`, or the file name
/// without its extension.
pub open spec fn target_title(target: Seq<char>) -> Seq<char> {
    let t = text::trim(target);
    if t.len() == 0 {
        "Untitled"@
    } else if text::begins(t, "steam://"@) {
        "Steam: "@ + t.skip("steam://"@.len() as int)
    } else {
        match win_path::file_name(t) {
            Some(name) => win_path::stem(name),
            None => t,
        }
    }
}

/// Default display title for a manual target path or URL.
pub fn title_from_target(target: &str) -> (r: String)
    ensures
        r@ == target_title(target@),
{
    let trimmed = text::str_trim(target);
    if trimmed.as_str().is_empty() {
        return text::own("Untitled");
    }
    if text::str_begins(trimmed.as_str(), "steam://") {
        let cs = text::chars_of(trimmed.as_str());
        proof {
            reveal_strlit("steam://");
        }
        let rest = text::slice_to_vec_range(cs.as_slice(), 8, cs.len());
        assert(rest@ == trimmed@.skip(8));
        let rest = text::to_text(rest.as_slice());
        return text::cat2("Steam: ", rest.as_str());
    }
    match win_path::file_name_of(trimmed.as_str()) {
        Some(name) => text::to_text(win_path::stem_of(name.as_slice()).as_slice()),
        None => trimmed,
    }
}

// ---------------------------------------------------------------------------
// Laws
// ---------------------------------------------------------------------------

/// Taking out a Steam game that was just put in gives the catalog back, and no other entry
/// ever goes with it.
pub proof fn law_toggle_steam_undoes(s: Seq<GameView>, appid: u32)
    requires
        !has_steam(s, appid),
    ensures
        s.push(GameView::Steam { appid }).filter(|g: GameView| g != GameView::Steam { appid })
            == s,
{
    let keep = |g: GameView| g != GameView::Steam { appid };
    let p = s.push(GameView::Steam { appid });
    reveal(Seq::filter);
    assert(p.drop_last() == s);
    assert forall|i: int| 0 <= i < s.len() implies keep(#[trigger] s[i]) by {}
    lemma_filter_len(s, keep);
}

/// Every entry shows until a library scan has succeeded.
pub proof fn law_unknown_scan_keeps_all(s: Seq<GameView>)
    ensures
        shown(s, None) == s,
{
    lemma_filter_len(s, |g: GameView| shows(g, None));
}

/// Browse order is unique: the entries that show, their titles and launch times decide it.
pub proof fn law_browse_order_is_unique(
    a: Seq<int>,
    b: Seq<int>,
    s: Seq<GameView>,
    installed: Option<Seq<u32>>,
    keys: Seq<SortKey>,
)
    requires
        keys.len() == s.len(),
        browse_order(a, s, installed, keys, s.len() as int),
        browse_order(b, s, installed, keys, s.len() as int),
    ensures
        a == b,
{
    lemma_order_prefix(a, b, s, installed, keys, a.len());
    lemma_order_prefix(b, a, s, installed, keys, b.len());
    assert(a =~= b);
}

proof fn lemma_entry_first_asymmetric(keys: Seq<SortKey>, a: int, b: int)
    requires
        entry_first(keys, a, b),
    ensures
        !entry_first(keys, b, a),
{
    text::lemma_text_lt_irreflexive(keys[b].title);
    if key_first(keys[a], keys[b]) {
        lemma_key_first(keys[a], keys[b], keys[b]);
    }
    if key_first(keys[b], keys[a]) {
        text::lemma_text_lt_irreflexive(keys[a].title);
        lemma_key_first(keys[b], keys[a], keys[a]);
    }
}

proof fn lemma_order_prefix(
    a: Seq<int>,
    b: Seq<int>,
    s: Seq<GameView>,
    installed: Option<Seq<u32>>,
    keys: Seq<SortKey>,
    n: nat,
)
    requires
        n <= a.len(),
        browse_order(a, s, installed, keys, s.len() as int),
        browse_order(b, s, installed, keys, s.len() as int),
    ensures
        n <= b.len(),
        forall|i: int| 0 <= i < n ==> a[i] == b[i],
    decreases n,
{
    if n > 0 {
        let m = (n - 1) as nat;
        lemma_order_prefix(a, b, s, installed, keys, m);
        let x = a[m as int];
        assert(shows(s[x], installed));
        assert(b.contains(x));
        let q = b.index_of(x);
        if q < m {
            assert(a[q] == b[q]);
            assert(entry_first(keys, a[q], a[m as int]));
            lemma_entry_first_asymmetric(keys, x, x);
        }
        assert(m < b.len());
        if q > m {
            let y = b[m as int];
            assert(entry_first(keys, b[m as int], b[q]));
            assert(shows(s[y], installed));
            assert(a.contains(y));
            let w = a.index_of(y);
            if w < m {
                assert(b[w] == y);
                assert(entry_first(keys, b[w], b[m as int]));
                lemma_entry_first_asymmetric(keys, y, y);
            } else if w > m {
                assert(entry_first(keys, a[m as int], a[w]));
                lemma_entry_first_asymmetric(keys, x, y);
            } else {
                lemma_entry_first_asymmetric(keys, x, x);
            }
        }
    }
}

} // verus!
