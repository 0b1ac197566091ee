//! Laws on the macro library: what an import, an addition and an edit leave in it.
use crate::games;
use crate::games::macro_lib as lib;
use crate::games::macro_lib::{BindView, GameMacrosView, Merging, RecordView};
use crate::games::macro_text;
use crate::games::GameView;
use crate::text;
use vstd::prelude::*;

verus! {

/// Whether a macro has this name, whatever its case.
pub open spec fn named(s: Seq<RecordView>, name: Seq<char>) -> bool {
    exists|i: int| 0 <= i < s.len() && text::same_ignoring_case((#[trigger] s[i]).name, name)
}

/// The first macro of a name: it has the name, and none before it does.
pub proof fn law_first_macro_of_a_name_is_found(s: Seq<RecordView>, name: Seq<char>)
    ensures
        0 <= lib::name_at(s, name) <= s.len(),
        lib::name_at(s, name) < s.len() <==> named(s, name),
        lib::name_at(s, name) < s.len() ==> text::same_ignoring_case(
            s[lib::name_at(s, name)].name,
            name,
        ),
        forall|i: int|
            0 <= i < lib::name_at(s, name) ==> !text::same_ignoring_case(
                (#[trigger] s[i]).name,
                name,
            ),
    decreases s.len(),
{
    if s.len() > 0 && !text::same_ignoring_case(s[0].name, name) {
        let t = s.drop_first();
        law_first_macro_of_a_name_is_found(t, name);
        assert forall|i: int| 0 <= i < lib::name_at(s, name) implies !text::same_ignoring_case(
            (#[trigger] s[i]).name,
            name,
        ) by {
            if i > 0 {
                assert(t[i - 1] == s[i]);
            }
        }
        if named(s, name) {
            let i = choose|i: int|
                0 <= i < s.len() && text::same_ignoring_case((#[trigger] s[i]).name, name);
            assert(t[i - 1] == s[i]);
            assert(named(t, name));
        }
        if lib::name_at(s, name) < s.len() {
            assert(text::same_ignoring_case(s[lib::name_at(s, name)].name, name));
        }
    } else if s.len() > 0 {
        assert(text::same_ignoring_case(s[0].name, name));
    }
}

/// The first macro with an id.
pub proof fn law_first_macro_with_the_id_is_found(s: Seq<RecordView>, id: Seq<char>)
    ensures
        0 <= lib::id_at(s, id) <= s.len(),
        lib::id_at(s, id) < s.len() ==> s[lib::id_at(s, id)].id == id,
        forall|i: int| 0 <= i < lib::id_at(s, id) ==> (#[trigger] s[i]).id != id,
    decreases s.len(),
{
    if s.len() > 0 && s[0].id != id {
        let t = s.drop_first();
        law_first_macro_with_the_id_is_found(t, id);
        assert forall|i: int| 0 <= i < lib::id_at(s, id) implies (#[trigger] s[i]).id != id by {
            if i > 0 {
                assert(t[i - 1] == s[i]);
            }
        }
    }
}

/// An imported macro is in the library as it was written: over the macro of its name, whose id
/// stays, or behind the others under an id of its own. Nothing else changes. Where it is new and
/// there are 24 macros already, nothing changes at all, and nothing more is taken in.
pub proof fn law_imported_macro_is_kept(
    st: Merging,
    m: macro_text::MacroView,
    nanos: u128,
    k: int,
)
    requires
        !st.full,
    ensures
        ({
            let next = lib::merged_one(st, m, nanos);
            let known = named(st.macros, m.name);
            let at = lib::name_at(st.macros, m.name);
            &&& known ==> !next.full && next.macros.len() == st.macros.len() && next.updated
                == st.updated + 1 && next.added == st.added
            &&& known ==> next.macros[at].name == m.name && next.macros[at].body == m.action
                && next.macros[at].meta == m.meta && next.macros[at].id == st.macros[at].id
            &&& 0 <= k < st.macros.len() && k != at ==> next.macros[k] == st.macros[k]
            &&& !known && st.macros.len() < 24 ==> !next.full && next.macros.len()
                == st.macros.len() + 1 && next.macros.last().name == m.name
                && next.macros.last().body == m.action && next.macros.last().meta == m.meta
                && next.added == st.added + 1 && next.updated == st.updated
            &&& !known && st.macros.len() >= 24 ==> next.full && next.macros == st.macros
                && next.added == st.added && next.updated == st.updated
        }),
        lib::merged_one(Merging { full: true, ..st }, m, nanos) == (Merging { full: true, ..st }),
{
    law_first_macro_of_a_name_is_found(st.macros, m.name);
}

/// Ids go up with the time they are made from: two times give two ids.
pub proof fn law_ids_differ_with_time(a: u128, b: u128)
    requires
        lib::macro_id(a) == lib::macro_id(b),
    ensures
        a == b,
{
    reveal_strlit("m");
    assert(lib::macro_id(a).skip(1) == text::hex(a as nat));
    assert(lib::macro_id(b).skip(1) == text::hex(b as nat));
    lemma_hex(a as nat);
    lemma_hex(b as nat);
}

proof fn lemma_hex(n: nat)
    ensures
        crate::text::reading::spelled(text::hex(n), 16) == n,
    decreases n,
{
    let s = text::hex(n);
    if n < 16 {
        assert(s.drop_last() == Seq::<char>::empty());
        assert(crate::text::reading::spelled(s.drop_last(), 16) == 0);
    } else {
        lemma_hex(n / 16);
        assert(s.drop_last() == text::hex(n / 16));
    }
}

/// A macro is added where its chain reads and has a step, its name is free and fewer than 24 are
/// there; it goes behind the others, with the name and the chain it was given. Otherwise nothing
/// is added.
pub proof fn law_added_macro_is_kept(
    g: GameMacrosView,
    name: Seq<char>,
    body: Seq<char>,
    nanos: u128,
)
    ensures
        lib::added(g, name, body, nanos) is Ok <==> (macro_text::action_steps(body) matches Ok(s)
            && s.len() > 0) && !named(g.macros, name) && g.macros.len() < 24,
        lib::added(g, name, body, nanos) matches Ok(h) ==> {
            &&& h.headers == g.headers
            &&& h.macros.drop_last() == g.macros
            &&& h.macros.last().name == name
            &&& h.macros.last().body == body
            &&& h.macros.last().id == lib::macro_id(nanos)
            &&& h.macros.last().meta == Map::<Seq<char>, Seq<char>>::empty()
        },
{
    law_first_macro_of_a_name_is_found(g.macros, name);
    if let Ok(h) = lib::added(g, name, body, nanos) {
        assert(h.macros.drop_last() =~= g.macros);
    }
}

/// An edit changes name and chain of the macro with the id and nothing else. It is refused where
/// the chain does not read, another macro has the name, or there is no such macro.
pub proof fn law_edited_macro_is_kept(
    l: Map<Seq<char>, GameMacrosView>,
    play_key: Seq<char>,
    id: Seq<char>,
    name: Seq<char>,
    body: Seq<char>,
    k: int,
)
    requires
        l.dom().contains(play_key),
    ensures
        ({
            let g = l[play_key];
            let at = lib::id_at(g.macros, id);
            let other = exists|i: int|
                0 <= i < g.macros.len() && (#[trigger] g.macros[i]).id != id
                    && text::same_ignoring_case(g.macros[i].name, name);
            &&& lib::rewritten(l, play_key, id, name, body) is Ok <==> macro_text::action_steps(
                body,
            ) is Ok && !other && at < g.macros.len()
            &&& lib::rewritten(l, play_key, id, name, body) matches Ok(h) ==> {
                &&& h.headers == g.headers
                &&& h.macros.len() == g.macros.len()
                &&& h.macros[at] == (RecordView { name, body, ..g.macros[at] })
                &&& 0 <= k < g.macros.len() && k != at ==> h.macros[k] == g.macros[k]
            }
        }),
{
    law_first_macro_with_the_id_is_found(l[play_key].macros, id);
}

/// An import goes to the Steam game of its number where that is in the catalog; else to the one
/// shortcut with its title. Two such shortcuts are told of and no game is chosen; with none, or
/// without a header, the open game takes it, and a warning says so.
pub proof fn law_import_finds_its_game(
    headers: Map<Seq<char>, Seq<char>>,
    open: Seq<char>,
    catalog: Seq<GameView>,
    appid: u32,
)
    ensures
        ({
            let r = lib::import_target(headers, open, catalog);
            let raw = headers["game"@];
            let title = macro_text::game_ref_right(raw);
            let number = text::parse_unsigned(macro_text::game_ref_left(raw), 0xFFFF_FFFF);
            &&& r matches BindView::Fallback { play_key, .. } ==> play_key == open
            &&& !headers.dom().contains("game"@) ==> r is Fallback
            &&& headers.dom().contains("game"@) && number == Some(appid as nat) && catalog.contains(
                GameView::Steam { appid },
            ) ==> r == BindView::Target("steam:"@ + text::dec(appid as nat))
            &&& r is Ambiguous ==> lib::all_titled(catalog, title).len() > 1
            &&& headers.dom().contains("game"@) && number is None && title.len() > 0
                && lib::all_titled(catalog, title).len() == 1 ==> r == BindView::Target(
                games::play_key_of(lib::all_titled(catalog, title)[0]),
            )
        }),
{
}

/// An export names its game: by the header that the macros carry, else by the one it is given;
/// every other header goes with it.
pub proof fn law_export_names_its_game(g: GameMacrosView, game: Seq<char>, key: Seq<char>)
    requires
        key != "game"@,
    ensures
        lib::export_headers(g, game).dom().contains("game"@),
        lib::export_headers(g, game)["game"@] == if g.headers.dom().contains("game"@) {
            g.headers["game"@]
        } else {
            game
        },
        lib::export_headers(g, game).dom().contains(key) == g.headers.dom().contains(key),
        g.headers.dom().contains(key) ==> lib::export_headers(g, game)[key] == g.headers[key],
{
}

} // verus!
