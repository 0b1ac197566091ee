//! Per-game macro library.
use crate::games;
use crate::games::macro_text;
use crate::games::macro_text::{
    GameRef, MacroDocument, ParseError, ParsedMacro, MAX_MACROS_PER_GAME,
};
use crate::games::GameEntry;
use crate::text;
use crate::text_map;
use crate::text_map::TextMap;
use vstd::prelude::*;
use vstd::string::StringExecFns;

verus! {

/// Macros of every game, keyed by [`GameEntry::play_key`].
#[derive(Debug, Clone, PartialEq, Eq)]
pub struct MacroLibrary {
    pub games: TextMap<GameMacros>,
}

/// Macros of one game.
#[derive(Debug, Clone, PartialEq, Eq)]
pub struct GameMacros {
    pub headers: TextMap<String>,
    pub macros: Vec<MacroRecord>,
}

/// One stored macro.
#[derive(Debug, Clone, PartialEq, Eq)]
pub struct MacroRecord {
    pub id: String,
    pub name: String,
    /// Action chain text (`focus > wait 100 > …`).
    pub body: String,
    pub meta: TextMap<String>,
}

/// Where an imported document goes.
#[derive(Debug, Clone, PartialEq, Eq)]
pub enum ImportBind {
    /// Merge into this play key.
    Target(String),
    /// The `game:` header matched nothing; use the open game and show a warning.
    Fallback { play_key: String, warning: String },
    Ambiguous(String),
}

/// What an import did.
#[derive(Debug, Clone, PartialEq, Eq)]
pub struct ImportResult {
    pub play_key: String,
    pub added: usize,
    pub updated: usize,
    pub warning: Option<String>,
}

// ---------------------------------------------------------------------------
// Models
// ---------------------------------------------------------------------------

/// Model of [`MacroRecord`].
#[verifier::ext_equal]
pub struct RecordView {
    pub id: Seq<char>,
    pub name: Seq<char>,
    pub body: Seq<char>,
    pub meta: Map<Seq<char>, Seq<char>>,
}

impl View for MacroRecord {
    type V = RecordView;

    open spec fn view(&self) -> RecordView {
        RecordView {
            id: self.id@,
            name: self.name@,
            body: self.body@,
            meta: text_map::texts(self.meta@),
        }
    }
}

/// Models of a list of macros.
pub open spec fn records(v: Seq<MacroRecord>) -> Seq<RecordView> {
    Seq::new(v.len(), |i: int| v[i]@)
}

/// Model of [`GameMacros`].
#[verifier::ext_equal]
pub struct GameMacrosView {
    pub headers: Map<Seq<char>, Seq<char>>,
    pub macros: Seq<RecordView>,
}

impl View for GameMacros {
    type V = GameMacrosView;

    open spec fn view(&self) -> GameMacrosView {
        GameMacrosView { headers: text_map::texts(self.headers@), macros: records(self.macros@) }
    }
}

impl View for MacroLibrary {
    type V = Map<Seq<char>, GameMacrosView>;

    open spec fn view(&self) -> Map<Seq<char>, GameMacrosView> {
        library(self.games@)
    }
}

/// Model of a library's games.
pub open spec fn library(m: Map<Seq<char>, GameMacros>) -> Map<Seq<char>, GameMacrosView> {
    Map::new(|k: Seq<char>| m.dom().contains(k), |k: Seq<char>| m[k]@)
}

/// Model of [`ImportBind`].
#[verifier::ext_equal]
pub enum BindView {
    Target(Seq<char>),
    Fallback { play_key: Seq<char>, warning: Seq<char> },
    Ambiguous(Seq<char>),
}

impl View for ImportBind {
    type V = BindView;

    open spec fn view(&self) -> BindView {
        match *self {
            ImportBind::Target(k) => BindView::Target(k@),
            ImportBind::Fallback { play_key, warning } => BindView::Fallback {
                play_key: play_key@,
                warning: warning@,
            },
            ImportBind::Ambiguous(m) => BindView::Ambiguous(m@),
        }
    }
}

/// A game without headers and macros.
pub open spec fn no_macros() -> GameMacrosView {
    GameMacrosView { headers: Map::empty(), macros: seq![] }
}

/// Macros of a game, none when the library does not hold it.
pub open spec fn game_of(
    lib: Map<Seq<char>, GameMacrosView>,
    play_key: Seq<char>,
) -> GameMacrosView {
    if lib.dom().contains(play_key) {
        lib[play_key]
    } else {
        no_macros()
    }
}

/// Place of the first macro with an id, or the length when there is none.
pub open spec fn id_at(s: Seq<RecordView>, id: Seq<char>) -> int
    decreases s.len(),
{
    if s.len() == 0 || s[0].id == id {
        0
    } else {
        1 + id_at(s.drop_first(), id)
    }
}

/// Place of the first macro with a name, ASCII case ignored, or the length.
pub open spec fn name_at(s: Seq<RecordView>, name: Seq<char>) -> int
    decreases s.len(),
{
    if s.len() == 0 || text::same_ignoring_case(s[0].name, name) {
        0
    } else {
        1 + name_at(s.drop_first(), name)
    }
}

pub proof fn lemma_id_at(s: Seq<RecordView>, id: Seq<char>)
    ensures
        0 <= id_at(s, id) <= s.len(),
        id_at(s, id) < s.len() ==> s[id_at(s, id)].id == id,
        forall|i: int| 0 <= i < id_at(s, id) ==> (#[trigger] s[i]).id != id,
    decreases s.len(),
{
    if s.len() > 0 && s[0].id != id {
        let t = s.drop_first();
        lemma_id_at(t, id);
        assert forall|i: int| 0 <= i < id_at(s, id) implies (#[trigger] s[i]).id != id by {
            if i > 0 {
                assert(s[i] == t[i - 1]);
            }
        }
    }
}

pub proof fn lemma_name_at(s: Seq<RecordView>, name: Seq<char>)
    ensures
        0 <= name_at(s, name) <= s.len(),
        name_at(s, name) < s.len() ==> text::same_ignoring_case(s[name_at(s, name)].name, name),
        forall|i: int|
            0 <= i < name_at(s, name) ==> !text::same_ignoring_case((#[trigger] s[i]).name, name),
    decreases s.len(),
{
    if s.len() > 0 && !text::same_ignoring_case(s[0].name, name) {
        let t = s.drop_first();
        lemma_name_at(t, name);
        assert forall|i: int| 0 <= i < name_at(s, name) implies !text::same_ignoring_case(
            (#[trigger] s[i]).name,
            name,
        ) by {
            if i > 0 {
                assert(s[i] == t[i - 1]);
            }
        }
    }
}

fn position_id(v: &[MacroRecord], id: &str) -> (r: usize)
    ensures
        r == id_at(records(v@), id@),
        r <= v@.len(),
{
    let ghost s = records(v@);
    let mut i: usize = 0;
    proof {
        lemma_id_at(s, id@);
    }
    while i < v.len()
        invariant
            i <= v@.len(),
            i <= id_at(s, id@) <= s.len(),
            s == records(v@),
            id_at(s, id@) < s.len() ==> s[id_at(s, id@)].id == id@,
            forall|k: int| 0 <= k < id_at(s, id@) ==> (#[trigger] s[k]).id != id@,
        decreases v@.len() - i,
    {
        assert(s[i as int] == v@[i as int]@);
        if text::str_eq(v[i].id.as_str(), id) {
            return i;
        }
        i = i + 1;
    }
    i
}

fn position_name(v: &[MacroRecord], name: &str) -> (r: usize)
    ensures
        r == name_at(records(v@), name@),
        r <= v@.len(),
{
    let ghost s = records(v@);
    let mut i: usize = 0;
    proof {
        lemma_name_at(s, name@);
    }
    while i < v.len()
        invariant
            i <= v@.len(),
            i <= name_at(s, name@) <= s.len(),
            s == records(v@),
            name_at(s, name@) < s.len() ==> text::same_ignoring_case(
                s[name_at(s, name@)].name,
                name@,
            ),
            forall|k: int|
                0 <= k < name_at(s, name@) ==> !text::same_ignoring_case(
                    (#[trigger] s[k]).name,
                    name@,
                ),
        decreases v@.len() - i,
    {
        assert(s[i as int] == v@[i as int]@);
        if text::str_eq_ignore_case(v[i].name.as_str(), name) {
            return i;
        }
        i = i + 1;
    }
    i
}

// ---------------------------------------------------------------------------
// Import target
// ---------------------------------------------------------------------------

/// Whether an entry is a shortcut with a title, ASCII case ignored.
pub open spec fn titled(g: games::GameView, name: Seq<char>) -> bool {
    g matches games::GameView::Manual { title, .. } && text::same_ignoring_case(title, name)
}

/// Shortcuts with a title.
pub open spec fn all_titled(catalog: Seq<games::GameView>, name: Seq<char>) -> Seq<
    games::GameView,
> {
    catalog.filter(|g: games::GameView| titled(g, name))
}

/// Warning for a document without a `game:` header.
pub open spec fn unnamed_warning() -> Seq<char> {
    "document has no game: header"@
}

/// Where a document with these headers goes: the Steam game of its appid, else the one
/// shortcut titled like it, else the open game.
pub open spec fn import_target(
    headers: Map<Seq<char>, Seq<char>>,
    open_play_key: Seq<char>,
    catalog: Seq<games::GameView>,
) -> BindView {
    if !headers.dom().contains("game"@) {
        BindView::Fallback { play_key: open_play_key, warning: unnamed_warning() }
    } else {
        let raw = headers["game"@];
        let appid = text::parse_unsigned(macro_text::game_ref_left(raw), u32::MAX as nat);
        let name = macro_text::game_ref_right(raw);
        let same = all_titled(catalog, name);
        if appid is Some && games::has_steam(catalog, appid->0 as u32) {
            BindView::Target("steam:"@ + text::dec(appid->0))
        } else if name.len() > 0 && same.len() == 1 {
            BindView::Target(games::play_key_of(same[0]))
        } else if name.len() > 0 && same.len() > 1 {
            BindView::Ambiguous("multiple manual shortcuts titled `"@ + name + "`"@)
        } else {
            BindView::Fallback {
                play_key: open_play_key,
                warning: "game: `"@ + raw + "` did not match a catalog row"@,
            }
        }
    }
}

fn contains_steam(catalog: &[GameEntry], appid: u32) -> (r: bool)
    ensures
        r == games::has_steam(games::game_views(catalog@), appid),
{
    let ghost s = games::game_views(catalog@);
    let mut i: usize = 0;
    while i < catalog.len()
        invariant
            i <= catalog@.len(),
            s == games::game_views(catalog@),
            forall|k: int| 0 <= k < i ==> #[trigger] s[k] != (games::GameView::Steam { appid }),
        decreases catalog@.len() - i,
    {
        assert(s[i as int] == catalog@[i as int]@);
        if let GameEntry::Steam { appid: id } = &catalog[i] {
            if *id == appid {
                return true;
            }
        }
        i = i + 1;
    }
    false
}

/// Number of shortcuts with a title, and the place of the first.
fn find_titled(catalog: &[GameEntry], name: &str) -> (r: (usize, usize))
    ensures
        r.0 == all_titled(games::game_views(catalog@), name@).len(),
        r.0 > 0 ==> r.1 < catalog@.len() && catalog@[r.1 as int]@ == all_titled(
            games::game_views(catalog@),
            name@,
        )[0],
{
    let ghost s = games::game_views(catalog@);
    let ghost keep = |g: games::GameView| titled(g, name@);
    let mut count: usize = 0;
    let mut first: usize = 0;
    let mut i: usize = 0;
    proof {
        reveal(Seq::filter);
        assert(s.take(0).filter(keep).len() == 0);
    }
    while i < catalog.len()
        invariant
            i <= catalog@.len(),
            count <= i,
            s == games::game_views(catalog@),
            keep == (|g: games::GameView| titled(g, name@)),
            count == s.take(i as int).filter(keep).len(),
            count > 0 ==> first < catalog@.len() && catalog@[first as int]@ == s.take(
                i as int,
            ).filter(keep)[0],
        decreases catalog@.len() - i,
    {
        let e = &catalog[i];
        proof {
            assert(s[i as int] == e@);
            games::lemma_filter_step(s, keep, i as int);
        }
        let same = match e {
            GameEntry::Manual { title, .. } => text::str_eq_ignore_case(title.as_str(), name),
            GameEntry::Steam { .. } => false,
        };
        if same {
            if count == 0 {
                first = i;
            }
            count = count + 1;
        }
        i = i + 1;
    }
    assert(s.take(i as int) == s);
    (count, first)
}

// ---------------------------------------------------------------------------
// Merging
// ---------------------------------------------------------------------------

/// Id of a macro that was made at the time `nanos`.
pub open spec fn macro_id(nanos: u128) -> Seq<char> {
    "m"@ + text::hex(nanos as nat)
}

fn new_id(nanos: u128) -> (r: String)
    ensures
        r@ == macro_id(nanos),
{
    let mut r = text::own("m");
    text::push_hex(&mut r, nanos);
    r
}

/// Macros of a game while a document is merged in.
#[verifier::ext_equal]
pub struct Merging {
    pub macros: Seq<RecordView>,
    pub added: nat,
    pub updated: nat,
    /// A macro did not fit: merging stopped there.
    pub full: bool,
}

/// Nothing merged in yet.
pub open spec fn fresh(macros: Seq<RecordView>) -> Merging {
    Merging { macros, added: 0, updated: 0, full: false }
}

/// One macro merged in: it replaces the macro of its name, which keeps its id, or is added
/// where there is room.
pub open spec fn merged_one(st: Merging, m: macro_text::MacroView, nanos: u128) -> Merging {
    let at = name_at(st.macros, m.name);
    if st.full {
        st
    } else if at < st.macros.len() {
        Merging {
            macros: st.macros.update(
                at,
                RecordView {
                    id: st.macros[at].id,
                    name: m.name,
                    body: m.action,
                    meta: m.meta,
                },
            ),
            updated: st.updated + 1,
            ..st
        }
    } else if st.macros.len() >= MAX_MACROS_PER_GAME {
        Merging { full: true, ..st }
    } else {
        Merging {
            macros: st.macros.push(
                RecordView { id: macro_id(nanos), name: m.name, body: m.action, meta: m.meta },
            ),
            added: st.added + 1,
            ..st
        }
    }
}

/// Macros merged in one after the other, the `i`-th at the time `nanos[i]`.
pub open spec fn merged(
    start: Seq<RecordView>,
    ms: Seq<macro_text::MacroView>,
    nanos: Seq<u128>,
) -> Merging
    decreases ms.len(),
{
    if ms.len() == 0 {
        fresh(start)
    } else {
        merged_one(merged(start, ms.drop_last(), nanos), ms.last(), nanos[ms.len() - 1])
    }
}

/// Message for a game whose macros are at their limit.
pub open spec fn full_message() -> Seq<char> {
    "game already has "@ + text::dec(MAX_MACROS_PER_GAME as nat) + " macros"@
}

fn full_text() -> (r: String)
    ensures
        r@ == full_message(),
{
    let mut r = text::own("game already has ");
    text::push_dec(&mut r, MAX_MACROS_PER_GAME as u64);
    r.append(" macros");
    r
}

/// Message for a name that is taken.
pub open spec fn taken_message(name: Seq<char>) -> Seq<char> {
    "macro `"@ + name + "` already exists"@
}

fn taken_text(name: &str) -> (r: String)
    ensures
        r@ == taken_message(name@),
{
    text::cat3("macro `", name, "` already exists")
}

/// Copy of a text map.
fn copy_texts(m: &TextMap<String>) -> (r: TextMap<String>)
    ensures
        text_map::texts(r@) == text_map::texts(m@),
{
    let r = m.clone();
    assert forall|k: Seq<char>| m@.dom().contains(k) implies (#[trigger] r@[k])@ == m@[k]@ by {
        assert(cloned::<String>(m@[k], r@[k]));
    }
    assert(text_map::texts(r@) =~= text_map::texts(m@));
    r
}

#[derive(Debug, Clone, Copy, PartialEq, Eq, Structural)]
enum MergeKind {
    Added,
    Updated,
    Full,
}

fn merge_one(game: &mut GameMacros, parsed: &ParsedMacro, nanos: u128) -> (r: MergeKind)
    ensures
        final(game).headers == old(game).headers,
        ({
            let st = fresh(records(old(game).macros@));
            merged_one(st, parsed@, nanos) == (Merging {
                macros: records(final(game).macros@),
                added: if r == MergeKind::Added {
                    1
                } else {
                    0
                },
                updated: if r == MergeKind::Updated {
                    1
                } else {
                    0
                },
                full: r == MergeKind::Full,
            })
        }),
{
    let ghost s = records(game.macros@);
    let at: usize = position_name(game.macros.as_slice(), parsed.name.as_str());
    if at < game.macros.len() {
        let record = MacroRecord {
            id: game.macros[at].id.clone(),
            name: parsed.name.clone(),
            body: parsed.action.clone(),
            meta: copy_texts(&parsed.meta),
        };
        game.macros.set(at, record);
        assert(records(game.macros@) =~= s.update(at as int, record@));
        return MergeKind::Updated;
    }
    if game.macros.len() >= MAX_MACROS_PER_GAME {
        return MergeKind::Full;
    }
    let record = MacroRecord {
        id: new_id(nanos),
        name: parsed.name.clone(),
        body: parsed.action.clone(),
        meta: copy_texts(&parsed.meta),
    };
    game.macros.push(record);
    assert(records(game.macros@) =~= s.push(record@));
    MergeKind::Added
}

proof fn lemma_merged_full(
    start: Seq<RecordView>,
    ms: Seq<macro_text::MacroView>,
    nanos: Seq<u128>,
    k: int,
)
    requires
        0 <= k <= ms.len(),
        merged(start, ms.take(k), nanos).full,
    ensures
        merged(start, ms, nanos) == merged(start, ms.take(k), nanos),
    decreases ms.len() - k,
{
    if k < ms.len() {
        assert(ms.take(k + 1).drop_last() == ms.take(k));
        lemma_merged_full(start, ms, nanos, k + 1);
    } else {
        assert(ms.take(k) == ms);
    }
}

impl Default for GameMacros {
    fn default() -> (r: Self)
        ensures
            r@ == no_macros(),
    {
        proof {
            text_map::lemma_texts_empty();
        }
        let r = GameMacros { headers: TextMap::new(), macros: Vec::new() };
        assert(records(r.macros@) =~= Seq::<RecordView>::empty());
        r
    }
}

impl Default for MacroLibrary {
    fn default() -> (r: Self)
        ensures
            r@ == Map::<Seq<char>, GameMacrosView>::empty(),
    {
        let r = MacroLibrary { games: TextMap::new() };
        assert(r@ =~= Map::<Seq<char>, GameMacrosView>::empty());
        r
    }
}

/// Headers of a game for an export: its own, and a `game:` header in any case.
pub open spec fn export_headers(g: GameMacrosView, fallback_game: Seq<char>) -> Map<
    Seq<char>,
    Seq<char>,
> {
    if g.headers.dom().contains("game"@) {
        g.headers
    } else {
        g.headers.insert("game"@, fallback_game)
    }
}

/// A stored macro as an export writes it.
pub open spec fn shared(r: RecordView) -> macro_text::Share {
    macro_text::Share { name: r.name, action: r.body, meta: r.meta }
}

/// Stored macros as an export writes them.
pub open spec fn all_shared(s: Seq<RecordView>) -> Seq<macro_text::Share> {
    Seq::new(s.len(), |i: int| shared(s[i]))
}

fn headers_for_export(game: &GameMacros, fallback_game: &str) -> (r: TextMap<String>)
    ensures
        text_map::texts(r@) == export_headers(game@, fallback_game@),
{
    let mut headers = copy_texts(&game.headers);
    if !headers.contains_key("game") {
        let value = text::own(fallback_game);
        proof {
            text_map::lemma_texts_insert(headers@, "game"@, value);
        }
        headers.insert(text::own("game"), value);
    }
    headers
}

impl MacroLibrary {
    /// Macros of a game.
    pub fn for_game(&self, play_key: &str) -> (r: Option<&GameMacros>)
        ensures
            match r {
                Some(g) => self@.dom().contains(play_key@) && g@ == self@[play_key@],
                None => !self@.dom().contains(play_key@),
            },
    {
        self.games.get(play_key)
    }

    /// Macros of a game, to be changed; a new game begins with none.
    pub fn for_game_mut(&mut self, play_key: &str) -> (r: &mut GameMacros)
        ensures
            r@ == game_of(old(self)@, play_key@),
            final(self)@ == old(self)@.insert(play_key@, final(r)@),
    {
        let ghost before = self@;
        if !self.games.contains_key(play_key) {
            self.games.insert(text::own(play_key), GameMacros::default());
        }
        self.games.get_mut(play_key).unwrap()
    }

    /// Forgets a game; whether there was one.
    pub fn remove_game(&mut self, play_key: &str) -> (r: bool)
        ensures
            r == old(self)@.dom().contains(play_key@),
            final(self)@ == old(self)@.remove(play_key@),
    {
        let r = self.games.remove(play_key).is_some();
        assert(self@ =~= old(self)@.remove(play_key@));
        r
    }

    /// Whether a game has macros.
    pub fn has_macros(&self, play_key: &str) -> (r: bool)
        ensures
            r == (game_of(self@, play_key@).macros.len() > 0),
    {
        match self.games.get(play_key) {
            Some(g) => g.macros.len() > 0,
            None => false,
        }
    }

    /// The macro of a game with an id.
    pub fn find_macro(&self, play_key: &str, id: &str) -> (r: Option<&MacroRecord>)
        ensures
            ({
                let ms = game_of(self@, play_key@).macros;
                match r {
                    Some(m) => id_at(ms, id@) < ms.len() && m@ == ms[id_at(ms, id@)],
                    None => id_at(ms, id@) == ms.len(),
                }
            }),
    {
        match self.games.get(play_key) {
            Some(g) => {
                let at: usize = position_id(g.macros.as_slice(), id);
                if at < g.macros.len() {
                    Some(&g.macros[at])
                } else {
                    None
                }
            },
            None => None,
        }
    }

    /// Which play key an imported document merges into.
    pub fn resolve_import_target(
        &self,
        doc: &MacroDocument,
        open_play_key: &str,
        catalog: &[GameEntry],
    ) -> (r: ImportBind)
        ensures
            r@ == import_target(doc@.headers, open_play_key@, games::game_views(catalog@)),
    {
        let raw = match doc.game_header() {
            Some(raw) => raw,
            None => {
                return ImportBind::Fallback {
                    play_key: text::own(open_play_key),
                    warning: text::own("document has no game: header"),
                };
            },
        };
        let game = GameRef::parse(raw);
        if let Some(appid) = game.appid {
            if contains_steam(catalog, appid) {
                let mut key = text::own("steam:");
                text::push_dec(&mut key, appid as u64);
                return ImportBind::Target(key);
            }
        }
        if !game.name.as_str().is_empty() {
            let (count, first) = find_titled(catalog, game.name.as_str());
            if count == 1 {
                return ImportBind::Target(catalog[first].play_key());
            }
            if count > 1 {
                return ImportBind::Ambiguous(
                    text::cat3("multiple manual shortcuts titled `", game.name.as_str(), "`"),
                );
            }
        }
        ImportBind::Fallback {
            play_key: text::own(open_play_key),
            warning: text::cat3("game: `", raw, "` did not match a catalog row"),
        }
    }

    /// Merges a document into a game by macro name; the `i`-th macro, where it is new, is made
    /// at the time `nanos[i]`. A macro that no longer fits stops the merge.
    pub fn merge_document(
        &mut self,
        play_key: &str,
        doc: &MacroDocument,
        nanos: &[u128],
    ) -> (r: Result<ImportResult, String>)
        requires
            nanos@.len() >= doc.macros@.len(),
        ensures
            ({
                let g = game_of(old(self)@, play_key@);
                let m = merged(g.macros, doc@.macros, nanos@);
                &&& final(self)@ == old(self)@.insert(
                    play_key@,
                    GameMacrosView {
                        headers: g.headers.union_prefer_right(doc@.headers),
                        macros: m.macros,
                    },
                )
                &&& match r {
                    Ok(res) => {
                        &&& !m.full
                        &&& res.play_key@ == play_key@
                        &&& res.added == m.added
                        &&& res.updated == m.updated
                        &&& res.warning is None
                    },
                    Err(e) => m.full && e@ == full_message(),
                }
            }),
    {
        let game = self.for_game_mut(play_key);
        merge_into(game, play_key, doc, nanos)
    }

    /// Share text of a game's macros.
    pub fn export_catalog(&self, play_key: &str, fallback_game: &str) -> (r: Option<String>)
        ensures
            ({
                let g = game_of(self@, play_key@);
                match r {
                    Some(t) => g.macros.len() > 0 && t@ == macro_text::share_text(
                        export_headers(g, fallback_game@),
                        all_shared(g.macros),
                    ),
                    None => g.macros.len() == 0,
                }
            }),
    {
        let game = match self.games.get(play_key) {
            Some(g) => g,
            None => return None,
        };
        if game.macros.len() == 0 {
            return None;
        }
        let headers = headers_for_export(game, fallback_game);
        let ghost want = all_shared(game@.macros);
        let mut list: Vec<(String, String, &TextMap<String>)> = Vec::new();
        let mut i: usize = 0;
        assert(macro_text::shares(list@) =~= want.take(0));
        while i < game.macros.len()
            invariant
                i <= game.macros@.len(),
                want == all_shared(game@.macros),
                macro_text::shares(list@) == want.take(i as int),
            decreases game.macros@.len() - i,
        {
            let m = &game.macros[i];
            let ghost before = macro_text::shares(list@);
            list.push((m.name.clone(), m.body.clone(), &m.meta));
            assert(macro_text::shares(list@) =~= before.push(shared(m@)));
            assert(want.take(i + 1) =~= want.take(i as int).push(shared(m@)));
            i = i + 1;
        }
        assert(want.take(i as int) =~= want);
        Some(macro_text::export(&headers, list.as_slice()))
    }

    /// Share text of one macro.
    pub fn export_macro(&self, play_key: &str, id: &str, fallback_game: &str) -> (r: Option<
        String,
    >)
        ensures
            ({
                let g = game_of(self@, play_key@);
                let at = id_at(g.macros, id@);
                match r {
                    Some(t) => at < g.macros.len() && t@ == macro_text::share_text(
                        export_headers(g, fallback_game@),
                        seq![shared(g.macros[at])],
                    ),
                    None => at == g.macros.len(),
                }
            }),
    {
        let game = match self.games.get(play_key) {
            Some(g) => g,
            None => return None,
        };
        let at: usize = position_id(game.macros.as_slice(), id);
        if at >= game.macros.len() {
            return None;
        }
        let m = &game.macros[at];
        let headers = headers_for_export(game, fallback_game);
        Some(macro_text::export_one(&headers, m.name.as_str(), m.body.as_str(), &m.meta))
    }

    /// Adds a macro at the time `nanos` and returns its id.
    pub fn add_macro(
        &mut self,
        play_key: &str,
        name: String,
        body: String,
        nanos: u128,
    ) -> (r: Result<String, String>)
        ensures
            ({
                let g = game_of(old(self)@, play_key@);
                match added(g, name@, body@, nanos) {
                    Ok(after) => {
                        &&& final(self)@ == old(self)@.insert(play_key@, after)
                        &&& r matches Ok(id) && id@ == macro_id(nanos)
                    },
                    Err(m) => {
                        &&& final(self)@ == old(self)@
                        &&& r matches Err(e) && e@ == m
                    },
                }
            }),
    {
        let steps = match macro_text::parse_action(body.as_str()) {
            Ok(steps) => steps,
            Err(e) => return Err(e),
        };
        if steps.len() == 0 {
            return Err(text::own("action must contain at least one step"));
        }
        if let Some(game) = self.games.get(play_key) {
            if game.macros.len() >= MAX_MACROS_PER_GAME {
                return Err(full_text());
            }
            if position_name(game.macros.as_slice(), name.as_str()) < game.macros.len() {
                return Err(taken_text(name.as_str()));
            }
        }
        let id = new_id(nanos);
        let game = self.for_game_mut(play_key);
        let ghost before = records(game.macros@);
        let record = MacroRecord { id: id.clone(), name, body, meta: TextMap::new() };
        proof {
            text_map::lemma_texts_empty();
        }
        game.macros.push(record);
        assert(records(game.macros@) =~= before.push(record@));
        Ok(id)
    }

    /// Renames and rewrites a macro.
    pub fn update_macro(&mut self, play_key: &str, id: &str, name: String, body: String) -> (r:
        Result<(), String>)
        ensures
            match rewritten(old(self)@, play_key@, id@, name@, body@) {
                Ok(after) => {
                    &&& final(self)@ == old(self)@.insert(play_key@, after)
                    &&& r is Ok
                },
                Err(m) => {
                    &&& final(self)@ == old(self)@
                    &&& r matches Err(e) && e@ == m
                },
            },
    {
        let _steps = match macro_text::parse_action(body.as_str()) {
            Ok(steps) => steps,
            Err(e) => return Err(e),
        };
        let at: usize = match self.games.get(play_key) {
            None => return Err(text::own("game has no macros")),
            Some(game) => {
                if name_used(game.macros.as_slice(), id, name.as_str()) {
                    return Err(taken_text(name.as_str()));
                }
                let at: usize = position_id(game.macros.as_slice(), id);
                if at >= game.macros.len() {
                    return Err(text::own("macro not found"));
                }
                at
            },
        };
        let game = self.for_game_mut(play_key);
        let ghost before = records(game.macros@);
        let record = MacroRecord {
            id: game.macros[at].id.clone(),
            name,
            body,
            meta: copy_texts(&game.macros[at].meta),
        };
        game.macros.set(at, record);
        assert(records(game.macros@) =~= before.update(at as int, record@));
        Ok(())
    }

    /// Removes the macros with an id; a game that is left with neither macros nor headers
    /// goes too. Whether anything was removed.
    pub fn remove_macro(&mut self, play_key: &str, id: &str) -> (r: bool)
        ensures
            ({
                let g = game_of(old(self)@, play_key@);
                let rest = g.macros.filter(|m: RecordView| m.id != id@);
                &&& final(self)@ == (if !old(self)@.dom().contains(play_key@) {
                    old(self)@
                } else if rest.len() == 0 && g.headers.dom().len() == 0 {
                    old(self)@.remove(play_key@)
                } else {
                    old(self)@.insert(play_key@, GameMacrosView { macros: rest, ..g })
                })
                &&& r == (id_at(g.macros, id@) < g.macros.len())
            }),
    {
        let (kept, headers_empty, had) = match self.games.get(play_key) {
            None => {
                return false;
            },
            Some(game) => {
                let at: usize = position_id(game.macros.as_slice(), id);
                (
                    without_id(game.macros.as_slice(), id),
                    game.headers.is_empty(),
                    at < game.macros.len(),
                )
            },
        };
        let ghost g = game_of(self@, play_key@);
        proof {
            let ghost h = self.games@[play_key@].headers@;
            assert(text_map::texts(h).dom() =~= h.dom());
            lemma_without_id(g.macros, id@);
        }
        if kept.len() == 0 && headers_empty {
            self.games.remove(play_key);
            assert(self@ =~= old(self)@.remove(play_key@));
            had
        } else {
            let game = self.for_game_mut(play_key);
            game.macros = kept;
            had
        }
    }

    /// Gives a game the `game:` header of its catalog row.
    pub fn ensure_game_header(&mut self, play_key: &str, game_value: String)
        ensures
            ({
                let g = game_of(old(self)@, play_key@);
                final(self)@ == old(self)@.insert(
                    play_key@,
                    GameMacrosView { headers: g.headers.insert("game"@, game_value@), ..g },
                )
            }),
    {
        let game = self.for_game_mut(play_key);
        proof {
            text_map::lemma_texts_insert(game.headers@, "game"@, game_value);
        }
        game.headers.insert(text::own("game"), game_value);
    }
}

/// Reads pasted share text.
pub fn parse_import(text: &str) -> (r: Result<MacroDocument, ParseError>)
    ensures
        match r {
            Ok(d) => macro_text::document(text@) == Ok::<
                macro_text::DocumentView,
                macro_text::ErrorView,
            >(d@),
            Err(e) => macro_text::document(text@) == Err::<
                macro_text::DocumentView,
                macro_text::ErrorView,
            >(e@),
        },
{
    macro_text::parse(text)
}

/// A game with a macro added, or why it is refused.
pub open spec fn added(g: GameMacrosView, name: Seq<char>, body: Seq<char>, nanos: u128) -> Result<
    GameMacrosView,
    Seq<char>,
> {
    match macro_text::action_steps(body) {
        Err(m) => Err(m),
        Ok(steps) => if steps.len() == 0 {
            Err("action must contain at least one step"@)
        } else if g.macros.len() >= MAX_MACROS_PER_GAME {
            Err(full_message())
        } else if name_at(g.macros, name) < g.macros.len() {
            Err(taken_message(name))
        } else {
            Ok(
                GameMacrosView {
                    macros: g.macros.push(
                        RecordView { id: macro_id(nanos), name, body, meta: Map::empty() },
                    ),
                    ..g
                },
            )
        },
    }
}

/// Whether another macro than that with an id has a name, ASCII case ignored.
pub open spec fn used_elsewhere(s: Seq<RecordView>, id: Seq<char>, name: Seq<char>) -> bool {
    exists|i: int|
        0 <= i < s.len() && (#[trigger] s[i]).id != id && text::same_ignoring_case(
            s[i].name,
            name,
        )
}

/// A game with a macro renamed and rewritten, or why that is refused.
pub open spec fn rewritten(
    lib: Map<Seq<char>, GameMacrosView>,
    play_key: Seq<char>,
    id: Seq<char>,
    name: Seq<char>,
    body: Seq<char>,
) -> Result<GameMacrosView, Seq<char>> {
    let g = game_of(lib, play_key);
    let at = id_at(g.macros, id);
    match macro_text::action_steps(body) {
        Err(m) => Err(m),
        Ok(_) => if !lib.dom().contains(play_key) {
            Err("game has no macros"@)
        } else if used_elsewhere(g.macros, id, name) {
            Err(taken_message(name))
        } else if at >= g.macros.len() {
            Err("macro not found"@)
        } else {
            Ok(
                GameMacrosView {
                    macros: g.macros.update(at, RecordView { name, body, ..g.macros[at] }),
                    ..g
                },
            )
        },
    }
}

fn name_used(v: &[MacroRecord], id: &str, name: &str) -> (r: bool)
    ensures
        r == used_elsewhere(records(v@), id@, name@),
{
    let ghost s = records(v@);
    let mut i: usize = 0;
    while i < v.len()
        invariant
            i <= v@.len(),
            s == records(v@),
            forall|k: int|
                0 <= k < i ==> !((#[trigger] s[k]).id != id@ && text::same_ignoring_case(
                    s[k].name,
                    name@,
                )),
        decreases v@.len() - i,
    {
        assert(s[i as int] == v@[i as int]@);
        if !text::str_eq(v[i].id.as_str(), id) && text::str_eq_ignore_case(
            v[i].name.as_str(),
            name,
        ) {
            return true;
        }
        i = i + 1;
    }
    false
}

impl MacroRecord {
    /// Copy of the record.
    pub fn copy(&self) -> (r: Self)
        ensures
            r@ == self@,
    {
        MacroRecord {
            id: self.id.clone(),
            name: self.name.clone(),
            body: self.body.clone(),
            meta: copy_texts(&self.meta),
        }
    }
}

fn without_id(v: &[MacroRecord], id: &str) -> (r: Vec<MacroRecord>)
    ensures
        records(r@) == records(v@).filter(|m: RecordView| m.id != id@),
{
    let ghost s = records(v@);
    let ghost keep = |m: RecordView| m.id != id@;
    let mut kept: Vec<MacroRecord> = Vec::new();
    let mut i: usize = 0;
    proof {
        reveal(Seq::filter);
        assert(records(kept@) =~= s.take(0).filter(keep));
    }
    while i < v.len()
        invariant
            i <= v@.len(),
            s == records(v@),
            keep == (|m: RecordView| m.id != id@),
            records(kept@) == s.take(i as int).filter(keep),
        decreases v@.len() - i,
    {
        proof {
            reveal(Seq::filter);
            assert(s.take(i + 1).drop_last() == s.take(i as int));
            assert(s.take(i + 1).last() == v@[i as int]@);
        }
        let ghost before = records(kept@);
        if !text::str_eq(v[i].id.as_str(), id) {
            let m = v[i].copy();
            kept.push(m);
            assert(records(kept@) =~= before.push(m@));
        }
        i = i + 1;
    }
    assert(s.take(i as int) == s);
    kept
}

/// Removing an id that nothing has leaves all macros.
proof fn lemma_without_id(s: Seq<RecordView>, id: Seq<char>)
    ensures
        id_at(s, id) == s.len() ==> s.filter(|m: RecordView| m.id != id) == s,
{
    let keep = |m: RecordView| m.id != id;
    lemma_id_at(s, id);
    if id_at(s, id) == s.len() {
        lemma_filter_all(s, keep);
    }
}

proof fn lemma_filter_all(s: Seq<RecordView>, keep: spec_fn(RecordView) -> bool)
    requires
        forall|i: int| 0 <= i < s.len() ==> keep(#[trigger] s[i]),
    ensures
        s.filter(keep) == s,
    decreases s.len(),
{
    reveal(Seq::filter);
    if s.len() > 0 {
        let t = s.drop_last();
        assert forall|i: int| 0 <= i < t.len() implies keep(#[trigger] t[i]) by {
            assert(t[i] == s[i]);
        }
        lemma_filter_all(t, keep);
        assert(keep(s[s.len() - 1]));
        assert(t.push(s.last()) =~= s);
    } else {
        assert(s.filter(keep) =~= s);
    }
}

fn merge_headers(game: &mut GameMacros, headers: &TextMap<String>)
    ensures
        final(game).macros == old(game).macros,
        text_map::texts(final(game).headers@) == text_map::texts(
            old(game).headers@,
        ).union_prefer_right(text_map::texts(headers@)),
{
    let ghost start = text_map::texts(game.headers@);
    let ghost hm = text_map::texts(headers@);
    let ghost keys = text_map::in_order(headers@.dom());
    let ghost ms = game.macros;
    let n: usize = headers.len();
    let mut i: usize = 0;
    proof {
        text_map::lemma_in_order_exists(headers@.dom());
        assert(start.union_prefer_right(hm.restrict(keys.take(0).to_set())) =~= start);
    }
    while i < n
        invariant
            i <= n,
            n == keys.len(),
            n == headers@.dom().len(),
            hm == text_map::texts(headers@),
            keys == text_map::in_order(headers@.dom()),
            game.macros == ms,
            text_map::texts(game.headers@) == start.union_prefer_right(
                hm.restrict(keys.take(i as int).to_set()),
            ),
        decreases n - i,
    {
        let key = headers.key_at(i);
        let value = headers.value_at(i).clone();
        proof {
            assert(keys.take(i + 1) == keys.take(i as int).push(key@));
            text_map::lemma_push_set(keys.take(i as int), key@);
            text_map::lemma_texts_insert(game.headers@, key@, value);
            assert(start.union_prefer_right(hm.restrict(keys.take(i as int).to_set())).insert(
                key@,
                value@,
            ) =~= start.union_prefer_right(hm.restrict(keys.take(i + 1).to_set())));
        }
        game.headers.insert(key.clone(), value);
        i = i + 1;
    }
    proof {
        assert(keys.take(i as int) == keys);
        assert(hm.restrict(keys.to_set()) =~= hm);
    }
}

fn merge_into(game: &mut GameMacros, play_key: &str, doc: &MacroDocument, nanos: &[u128]) -> (r:
    Result<ImportResult, String>)
    requires
        nanos@.len() >= doc.macros@.len(),
    ensures
        ({
            let m = merged(old(game)@.macros, doc@.macros, nanos@);
            &&& final(game)@.headers == old(game)@.headers.union_prefer_right(doc@.headers)
            &&& final(game)@.macros == m.macros
            &&& match r {
                Ok(res) => {
                    &&& !m.full
                    &&& res.play_key@ == play_key@
                    &&& res.added == m.added
                    &&& res.updated == m.updated
                    &&& res.warning is None
                },
                Err(e) => m.full && e@ == full_message(),
            }
        }),
{
    let ghost start = game@.macros;
    let ghost ms = doc@.macros;
    merge_headers(game, &doc.headers);
    let ghost headers = game.headers;
    let mut added: usize = 0;
    let mut updated: usize = 0;
    let mut i: usize = 0;
    assert(ms.take(0) == Seq::<macro_text::MacroView>::empty());
    while i < doc.macros.len()
        invariant
            i <= doc.macros@.len(),
            nanos@.len() >= doc.macros@.len(),
            ms == doc@.macros,
            start == old(game)@.macros,
            game.headers == headers,
            text_map::texts(headers@) == old(game)@.headers.union_prefer_right(doc@.headers),
            added + updated == i,
            merged(start, ms.take(i as int), nanos@) == (Merging {
                macros: game@.macros,
                added: added as nat,
                updated: updated as nat,
                full: false,
            }),
        decreases doc.macros@.len() - i,
    {
        assert(ms.take(i + 1).drop_last() == ms.take(i as int));
        assert(ms.take(i + 1).last() == doc.macros@[i as int]@);
        match merge_one(game, &doc.macros[i], nanos[i]) {
            MergeKind::Added => {
                added = added + 1;
            },
            MergeKind::Updated => {
                updated = updated + 1;
            },
            MergeKind::Full => {
                proof {
                    lemma_merged_full(start, ms, nanos@, i + 1);
                }
                return Err(full_text());
            },
        }
        i = i + 1;
    }
    assert(ms.take(i as int) == ms);
    Ok(ImportResult { play_key: text::own(play_key), added, updated, warning: None })
}

// ---------------------------------------------------------------------------
// Laws
// ---------------------------------------------------------------------------

/// A macro whose name is not in the document stays as it is, in its place, and every macro
/// that was there keeps its id.
pub proof fn law_merge_keeps_others(
    start: Seq<RecordView>,
    ms: Seq<macro_text::MacroView>,
    nanos: Seq<u128>,
    k: int,
)
    requires
        0 <= k < start.len(),
    ensures
        k < merged(start, ms, nanos).macros.len(),
        merged(start, ms, nanos).macros[k].id == start[k].id,
        text::same_ignoring_case(merged(start, ms, nanos).macros[k].name, start[k].name),
        (forall|j: int|
            0 <= j < ms.len() ==> !text::same_ignoring_case(
                start[k].name,
                (#[trigger] ms[j]).name,
            )) ==> merged(start, ms, nanos).macros[k] == start[k],
    decreases ms.len(),
{
    if ms.len() > 0 {
        let t = ms.drop_last();
        law_merge_keeps_others(start, t, nanos, k);
        let st = merged(start, t, nanos);
        lemma_name_at(st.macros, ms.last().name);
        if forall|j: int|
            0 <= j < ms.len() ==> !text::same_ignoring_case(
                start[k].name,
                (#[trigger] ms[j]).name,
            ) {
            assert(!text::same_ignoring_case(start[k].name, ms[ms.len() - 1].name));
            assert forall|j: int| 0 <= j < t.len() implies !text::same_ignoring_case(
                start[k].name,
                (#[trigger] t[j]).name,
            ) by {
                assert(t[j] == ms[j]);
            }
        }
    }
}

/// A game never grows past its limit, and a merge adds and updates each macro once.
pub proof fn law_merge_is_bounded(
    start: Seq<RecordView>,
    ms: Seq<macro_text::MacroView>,
    nanos: Seq<u128>,
)
    requires
        start.len() <= MAX_MACROS_PER_GAME,
    ensures
        ({
            let m = merged(start, ms, nanos);
            &&& m.macros.len() <= MAX_MACROS_PER_GAME
            &&& m.macros.len() == start.len() + m.added
            &&& !m.full ==> m.added + m.updated == ms.len()
        }),
    decreases ms.len(),
{
    if ms.len() > 0 {
        law_merge_is_bounded(start, ms.drop_last(), nanos);
        lemma_name_at(merged(start, ms.drop_last(), nanos).macros, ms.last().name);
    }
}

/// Whether no two macros share a name, ASCII case ignored.
pub open spec fn distinct_names(s: Seq<RecordView>) -> bool {
    forall|i: int, j: int|
        0 <= i < j < s.len() ==> !text::same_ignoring_case(
            (#[trigger] s[i]).name,
            (#[trigger] s[j]).name,
        )
}

/// Names of a game's macros stay distinct through a merge.
pub proof fn law_merge_keeps_names_distinct(
    start: Seq<RecordView>,
    ms: Seq<macro_text::MacroView>,
    nanos: Seq<u128>,
)
    requires
        distinct_names(start),
    ensures
        distinct_names(merged(start, ms, nanos).macros),
    decreases ms.len(),
{
    if ms.len() > 0 {
        law_merge_keeps_names_distinct(start, ms.drop_last(), nanos);
        let st = merged(start, ms.drop_last(), nanos);
        let name = ms.last().name;
        lemma_name_at(st.macros, name);
        let at = name_at(st.macros, name);
        if at < st.macros.len() {
            let after = merged_one(st, ms.last(), nanos[ms.len() - 1]).macros;
            assert forall|i: int, j: int| 0 <= i < j < after.len() implies
                !text::same_ignoring_case((#[trigger] after[i]).name, (#[trigger] after[j]).name) by {
                assert(!text::same_ignoring_case(st.macros[i].name, st.macros[j].name));
            }
        }
    }
}

/// Names stay distinct when a macro is added or rewritten.
pub proof fn law_edits_keep_names_distinct(
    lib: Map<Seq<char>, GameMacrosView>,
    play_key: Seq<char>,
    id: Seq<char>,
    name: Seq<char>,
    body: Seq<char>,
    nanos: u128,
)
    requires
        distinct_names(game_of(lib, play_key).macros),
    ensures
        added(game_of(lib, play_key), name, body, nanos) matches Ok(g) ==> distinct_names(
            g.macros,
        ),
        (rewritten(lib, play_key, id, name, body) matches Ok(g) && distinct_ids(
            game_of(lib, play_key).macros,
        )) ==> distinct_names(
            rewritten(lib, play_key, id, name, body)->Ok_0.macros,
        ),
{
    let s = game_of(lib, play_key).macros;
    lemma_name_at(s, name);
    lemma_id_at(s, id);
    if rewritten(lib, play_key, id, name, body) is Ok && distinct_ids(s) {
        let at = id_at(s, id);
        let after = rewritten(lib, play_key, id, name, body)->Ok_0.macros;
        assert forall|i: int, j: int| 0 <= i < j < after.len() implies !text::same_ignoring_case(
            (#[trigger] after[i]).name,
            (#[trigger] after[j]).name,
        ) by {
            if i == at {
                assert(s[i].id != s[j].id);
                assert(after[j] == s[j]);
            } else if j == at {
                assert(s[i].id != s[j].id);
                assert(after[i] == s[i]);
            } else {
                assert(after[i] == s[i] && after[j] == s[j]);
            }
        }
    }
}

/// Whether no two macros share an id.
pub open spec fn distinct_ids(s: Seq<RecordView>) -> bool {
    forall|i: int, j: int|
        0 <= i < j < s.len() ==> (#[trigger] s[i]).id != (#[trigger] s[j]).id
}

/// Merging a document that was merged in whole before adds nothing.
pub proof fn law_merging_again_adds_nothing(
    start: Seq<RecordView>,
    ms: Seq<macro_text::MacroView>,
    nanos: Seq<u128>,
    later: Seq<u128>,
)
    requires
        !merged(start, ms, nanos).full,
    ensures
        ({
            let again = merged(merged(start, ms, nanos).macros, ms, later);
            &&& !again.full
            &&& again.added == 0
            &&& again.updated == ms.len()
        }),
{
    let s = merged(start, ms, nanos).macros;
    assert(ms.take(ms.len() as int) == ms);
    lemma_all_named(start, ms, nanos);
    lemma_only_updates(s, ms, later);
}

spec fn has_name(s: Seq<RecordView>, name: Seq<char>) -> bool {
    exists|i: int| 0 <= i < s.len() && text::same_ignoring_case((#[trigger] s[i]).name, name)
}

proof fn lemma_named_one(st: Merging, m: macro_text::MacroView, nanos: u128, name: Seq<char>)
    requires
        has_name(st.macros, name),
    ensures
        has_name(merged_one(st, m, nanos).macros, name),
{
    let i = choose|i: int|
        0 <= i < st.macros.len() && text::same_ignoring_case((#[trigger] st.macros[i]).name, name);
    lemma_name_at(st.macros, m.name);
    let after = merged_one(st, m, nanos).macros;
    assert(text::same_ignoring_case(after[i].name, name));
}

proof fn lemma_all_named(start: Seq<RecordView>, ms: Seq<macro_text::MacroView>, nanos: Seq<u128>)
    requires
        !merged(start, ms, nanos).full,
    ensures
        forall|j: int|
            0 <= j < ms.len() ==> has_name(
                merged(start, ms, nanos).macros,
                (#[trigger] ms[j]).name,
            ),
    decreases ms.len(),
{
    if ms.len() > 0 {
        let t = ms.drop_last();
        let st = merged(start, t, nanos);
        lemma_all_named(start, t, nanos);
        lemma_name_at(st.macros, ms.last().name);
        let after = merged(start, ms, nanos).macros;
        assert forall|j: int| 0 <= j < ms.len() implies has_name(after, (#[trigger] ms[j]).name) by {
            if j < t.len() {
                assert(t[j] == ms[j]);
                lemma_named_one(st, ms.last(), nanos[ms.len() - 1], ms[j].name);
            } else {
                let at = name_at(st.macros, ms.last().name);
                assert(text::same_ignoring_case(after[at].name, ms.last().name));
            }
        }
    }
}

proof fn lemma_only_updates(s: Seq<RecordView>, ms: Seq<macro_text::MacroView>, nanos: Seq<u128>)
    requires
        forall|j: int| 0 <= j < ms.len() ==> has_name(s, (#[trigger] ms[j]).name),
    ensures
        !merged(s, ms, nanos).full,
        merged(s, ms, nanos).added == 0,
        merged(s, ms, nanos).updated == ms.len(),
        forall|name: Seq<char>|
            has_name(s, name) ==> #[trigger] has_name(merged(s, ms, nanos).macros, name),
    decreases ms.len(),
{
    if ms.len() > 0 {
        let t = ms.drop_last();
        assert forall|j: int| 0 <= j < t.len() implies has_name(s, (#[trigger] t[j]).name) by {
            assert(t[j] == ms[j]);
        }
        lemma_only_updates(s, t, nanos);
        let st = merged(s, t, nanos);
        assert(has_name(s, ms[ms.len() - 1].name));
        assert(has_name(st.macros, ms.last().name));
        lemma_name_at(st.macros, ms.last().name);
        assert forall|name: Seq<char>| has_name(s, name) implies #[trigger] has_name(
            merged(s, ms, nanos).macros,
            name,
        ) by {
            lemma_named_one(st, ms.last(), nanos[ms.len() - 1], name);
        }
    }
}

} // verus!
