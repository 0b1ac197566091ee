//! Laws on the game catalog: which games are shown, in which order, and under which title.
use super::{
    browse_order, edited, is_manual, key_first, manual_at, play_key_of, played, played_or_zero,
    shown, sort_keys, target_title, GameView,
};
use crate::prefs::GamesSortMode;
use crate::text;
use crate::text::reading;
use crate::win_path::naming;
use vstd::prelude::*;

verus! {

/// Shown are the shortcuts that were added by hand, and the Steam games that are installed; all
/// of those where no scan was made. They keep their order.
pub proof fn law_installed_games_are_shown(
    s: Seq<GameView>,
    g: GameView,
    installed: Option<Seq<u32>>,
)
    ensures
        shown(Seq::empty(), installed).len() == 0,
        shown(s.push(g), installed) == shown(s, installed) + (match g {
            GameView::Manual { .. } => seq![g],
            GameView::Steam { appid } => if installed matches Some(ids) && !ids.contains(appid) {
                Seq::empty()
            } else {
                seq![g]
            },
        }),
{
    reveal(Seq::filter);
    assert(s.push(g).drop_last() == s);
    assert(shown(s, installed) + Seq::<GameView>::empty() == shown(s, installed));
    assert(shown(s, installed).push(g) == shown(s, installed) + seq![g]);
}

/// Two games share a play key only where they are the same game: the same Steam number, or
/// shortcuts with one id.
pub proof fn law_play_keys_tell_games_apart(a: GameView, b: GameView)
    requires
        play_key_of(a) == play_key_of(b),
    ensures
        a matches GameView::Steam { appid } ==> b == (GameView::Steam { appid }),
        a matches GameView::Manual { id, .. } ==> is_manual(b, id),
{
    reveal_strlit("steam:");
    reveal_strlit("manual:");
    let k = play_key_of(a);
    let l = play_key_of(b);
    assert(k[0] == l[0]);
    match a {
        GameView::Steam { appid } => {
            assert(k[0] == 's');
            match b {
                GameView::Steam { appid: other } => {
                    assert(k.skip(6) == text::dec(appid as nat));
                    assert(l.skip(6) == text::dec(other as nat));
                    reading::law_decimal_spells_the_number(appid as nat);
                    reading::law_decimal_spells_the_number(other as nat);
                },
                GameView::Manual { id, .. } => {
                    assert(l[0] == 'm');
                },
            }
        },
        GameView::Manual { id, .. } => {
            assert(k[0] == 'm');
            match b {
                GameView::Steam { appid: other } => {
                    assert(l[0] == 's');
                },
                GameView::Manual { id: other, .. } => {
                    assert(k.skip(7) == id);
                    assert(l.skip(7) == other);
                },
            }
        },
    }
}

/// The time of a launch is found again under the game that was launched, and under no other.
pub proof fn law_launch_time_is_found_again(
    m: Map<Seq<char>, u64>,
    g: GameView,
    other: GameView,
    now: u64,
)
    requires
        play_key_of(other) != play_key_of(g),
    ensures
        played(m.insert(play_key_of(g), now), g) == Some(now),
        played(m.insert(play_key_of(g), now), other) == played(m, other),
        played(Map::empty(), g) is None,
{
}

/// In a browse order by last play no game stands before one that was played later, and games
/// that were played at one time, or never, go by their titles; by title, times do not matter.
/// Every game that is shown has one place.
pub proof fn law_browse_order_goes_by_play_then_title(
    order: Seq<int>,
    s: Seq<GameView>,
    m: Map<Seq<char>, u64>,
    titles: Seq<Seq<char>>,
    installed: Option<Seq<u32>>,
    mode: GamesSortMode,
    i: int,
    j: int,
)
    requires
        titles.len() == s.len(),
        browse_order(order, s, installed, sort_keys(s, m, titles, mode), s.len() as int),
        0 <= i < j < order.len(),
    ensures
        ({
            let a = order[i];
            let b = order[j];
            let (ta, tb) = (text::lowercased(titles[a]), text::lowercased(titles[b]));
            let (pa, pb) = (played_or_zero(m, s[a]), played_or_zero(m, s[b]));
            &&& a != b
            &&& mode == GamesSortMode::LastPlayed ==> pa >= pb && (pa == pb ==> !text::text_lt(
                tb,
                ta,
            ))
            &&& mode == GamesSortMode::Alphabetical ==> !text::text_lt(tb, ta)
        }),
{
    let keys = sort_keys(s, m, titles, mode);
    let a = order[i];
    let b = order[j];
    assert(super::entry_first(keys, a, b));
    assert(0 <= a < s.len() && 0 <= b < s.len());
    let (ta, tb) = (text::lowercased(titles[a]), text::lowercased(titles[b]));
    if key_first(keys[a], keys[b]) {
        if text::text_lt(ta, tb) && text::text_lt(tb, ta) {
            text::lemma_text_lt_transitive(ta, tb, ta);
            text::lemma_text_lt_irreflexive(ta);
        }
        if a == b {
            text::lemma_text_lt_irreflexive(ta);
        }
    }
}

/// An edit reaches the first shortcut with the id: it keeps id and target and takes the new
/// title, arguments and icon. No Steam game is edited.
pub proof fn law_edit_reaches_one_shortcut(
    s: Seq<GameView>,
    id: Seq<char>,
    title: Seq<char>,
    args: Seq<char>,
    icon: Option<Seq<char>>,
)
    ensures
        0 <= manual_at(s, id) <= s.len(),
        forall|i: int| 0 <= i < manual_at(s, id) ==> !is_manual(#[trigger] s[i], id),
        manual_at(s, id) < s.len() ==> (s[manual_at(s, id)] matches GameView::Manual {
            id: found,
            target,
            ..
        } && found == id && edited(s[manual_at(s, id)], title, args, icon) == (GameView::Manual {
            id,
            title,
            target,
            args,
            icon,
        })),
    decreases s.len(),
{
    if s.len() > 0 && !is_manual(s[0], id) {
        let t = s.drop_first();
        law_edit_reaches_one_shortcut(t, id, title, args, icon);
        assert forall|i: int| 0 <= i < manual_at(s, id) implies !is_manual(#[trigger] s[i], id) by {
            if i > 0 {
                assert(t[i - 1] == s[i]);
            }
        }
    }
}

/// A program on a drive is titled by its file name without the extension; a blank target is
/// untitled, and a Steam URL is titled by what follows its scheme.
pub proof fn law_target_gives_the_title(
    drive: char,
    dir: Seq<char>,
    name: Seq<char>,
    ext: Seq<char>,
    rest: Seq<char>,
)
    requires
        'a' <= drive <= 'z' || 'A' <= drive <= 'Z',
        name.len() > 0,
        !ext.contains('.'),
        naming::plain_name(name + seq!['.'] + ext),
        ({
            let t = seq![drive, ':'] + dir + seq!['\\'] + (name + seq!['.'] + ext);
            text::trim(t) == t
        }),
    ensures
        target_title(seq![drive, ':'] + dir + seq!['\\'] + (name + seq!['.'] + ext)) == name,
        text::trim(rest).len() == 0 ==> target_title(rest) == "Untitled"@,
        text::trim("steam://"@ + rest) == "steam://"@ + rest ==> target_title("steam://"@ + rest)
            == "Steam: "@ + rest,
{
    let file = name + seq!['.'] + ext;
    let t = seq![drive, ':'] + dir + seq!['\\'] + file;
    naming::law_file_name_is_behind_the_last_separator(drive, dir, '\\', file);
    naming::law_last_dot_parts_a_name(name, ext);
    reveal_strlit("steam://");
    assert(t[1] == ':');
    assert("steam://"@[1] == 't');
    if text::begins(t, "steam://"@) {
        assert(t.take("steam://"@.len() as int)[1] == t[1]);
    }
    let u = "steam://"@ + rest;
    assert(u.take("steam://"@.len() as int) == "steam://"@);
    assert(u.skip("steam://"@.len() as int) == rest);
}

} // verus!
