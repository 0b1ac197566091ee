//! Laws on running games: how long a session lasts, and which processes are its game.
use crate::app::running::{LaunchStep, MatchCache, Running, RunningView, SessionView};
use crate::process_match;
use crate::text;
use crate::text::reading;
use crate::win_path;
use vstd::prelude::*;

verus! {

// ---------------------------------------------------------------------------
// How long a session lasts
// ---------------------------------------------------------------------------

/// What is left of a session once the processes were looked at: whether the game was among them,
/// and when. Nothing is left once the session has ended.
pub open spec fn after_looks(looks: Seq<(bool, u64)>) -> Option<Option<u64>>
    decreases looks.len(),
{
    if looks.len() == 0 {
        Some(None)
    } else {
        match after_looks(looks.drop_last()) {
            Some(miss) => process_match::miss_after(miss, looks.last().0, looks.last().1),
            None => None,
        }
    }
}

/// Whether the game was missed from the `i`-th look to the last.
pub open spec fn missed_since(looks: Seq<(bool, u64)>, i: int) -> bool {
    0 <= i < looks.len() && forall|k: int| i <= k < looks.len() ==> !(#[trigger] looks[k]).0
}

/// Looks are in the order of their times.
pub open spec fn in_turn(looks: Seq<(bool, u64)>) -> bool {
    forall|i: int, k: int| 0 <= i <= k < looks.len() ==> (#[trigger] looks[i]).1 <= (#[trigger]
    looks[k]).1
}

proof fn lemma_first_miss(looks: Seq<(bool, u64)>)
    requires
        in_turn(looks),
        after_looks(looks) is Some,
    ensures
        match after_looks(looks)->0 {
            None => forall|i: int| !missed_since(looks, i),
            Some(t) => exists|i: int|
                #![trigger looks[i]]
                missed_since(looks, i) && looks[i].1 == t && (i == 0 || looks[i - 1].0),
        },
    decreases looks.len(),
{
    if looks.len() > 0 {
        let init = looks.drop_last();
        assert(in_turn(init)) by {
            assert forall|i: int, k: int| 0 <= i <= k < init.len() implies (#[trigger] init[i]).1
                <= (#[trigger] init[k]).1 by {
                assert(looks[i].1 <= looks[k].1);
            }
        }
        lemma_first_miss(init);
        let n = looks.len() - 1;
        if looks.last().0 {
            assert forall|i: int| !missed_since(looks, i) by {
                assert(looks[n].0);
            }
        } else {
            match after_looks(init)->0 {
                None => {
                    assert(missed_since(looks, n));
                    if n > 0 && !looks[n - 1].0 {
                        assert(missed_since(init, n - 1)) by {
                            assert forall|k: int| n - 1 <= k < init.len() implies !(#[trigger]
                            init[k]).0 by {
                                assert(init[k] == looks[k]);
                            }
                        }
                    }
                },
                Some(t) => {
                    let i = choose|i: int|
                        #![trigger init[i]]
                        missed_since(init, i) && init[i].1 == t && (i == 0 || init[i - 1].0);
                    assert(missed_since(looks, i)) by {
                        assert forall|k: int| i <= k < looks.len() implies !(#[trigger]
                        looks[k]).0 by {
                            if k < n {
                                assert(init[k] == looks[k]);
                            }
                        }
                    }
                    assert(looks[i] == init[i]);
                    assert(i > 0 ==> looks[i - 1] == init[i - 1]);
                },
            }
        }
    }
}

/// A session ends on the look at which its game has been missed for four seconds without a
/// break, and on no other.
pub proof fn law_session_ends_after_four_seconds_missed(looks: Seq<(bool, u64)>)
    requires
        looks.len() > 0,
        in_turn(looks),
        after_looks(looks.drop_last()) is Some,
    ensures
        after_looks(looks) is None <==> exists|i: int|
            #![trigger looks[i]]
            missed_since(looks, i) && looks.last().1 - looks[i].1 >= 4000,
{
    let init = looks.drop_last();
    let n = looks.len() - 1;
    assert(in_turn(init)) by {
        assert forall|i: int, k: int| 0 <= i <= k < init.len() implies (#[trigger] init[i]).1 <= (
        #[trigger] init[k]).1 by {
            assert(looks[i].1 <= looks[k].1);
        }
    }
    lemma_first_miss(init);
    match after_looks(init)->0 {
        None => {
            assert forall|i: int| missed_since(looks, i) implies i == n by {
                if i < n {
                    assert(missed_since(init, i)) by {
                        assert forall|k: int| i <= k < init.len() implies !(#[trigger] init[k]).0 by {
                            assert(init[k] == looks[k]);
                        }
                    }
                }
            }
        },
        Some(t) => {
            let i = choose|i: int|
                #![trigger init[i]]
                missed_since(init, i) && init[i].1 == t && (i == 0 || init[i - 1].0);
            assert(looks[i] == init[i]);
            if !looks.last().0 {
                assert(missed_since(looks, i)) by {
                    assert forall|k: int| i <= k < looks.len() implies !(#[trigger] looks[k]).0 by {
                        if k < n {
                            assert(init[k] == looks[k]);
                        }
                    }
                }
                assert forall|j: int| #[trigger] missed_since(looks, j) implies looks[i].1
                    <= looks[j].1 by {
                    if j < i {
                        assert(looks[i - 1] == init[i - 1]);
                        assert(looks[i - 1].0);
                        assert(false);
                    }
                }
            } else {
                assert forall|j: int| !missed_since(looks, j) by {
                    assert(looks[n].0);
                }
            }
        },
    }
}

/// A launch is trusted for 45 seconds. A session found at start-up is not: it counts as
/// launched 46 seconds ago, where the clock goes back that far.
pub proof fn law_launch_is_trusted_for_45_seconds(launched: u64, now: u64)
    ensures
        process_match::in_grace(launched, now) <==> now - launched < 45000,
        now >= 46000 ==> now - process_match::restored_launch(now) == 46000,
        now < 46000 ==> process_match::restored_launch(now) == now,
{
}

/// The badge is on the game of the session for as long as there is one, and goes with it; a look
/// changes nothing else of the session.
pub proof fn law_badge_goes_with_the_session(r: RunningView, images: Seq<(u32, String)>, now: u64)
    ensures
        ({
            let seen = r.looked(images, now);
            &&& seen.badge == match seen.session {
                Some(s) => Some(s.target),
                None => None,
            }
            &&& seen.session matches Some(s) ==> r.session matches Some(before) && s.target
                == before.target && s.title == before.title && s.match_paths == before.match_paths
                && s.launched_at_ms == before.launched_at_ms
            &&& r.session is None ==> seen.session is None
            &&& seen.listing == r.listing && seen.last_check_ms == r.last_check_ms
        }),
{
}

/// A look at which the game is running starts its misses anew; a session whose game is seen does
/// not end.
pub proof fn law_seen_game_stays(r: RunningView, images: Seq<(u32, String)>, now: u64, k: int)
    requires
        r.session matches Some(s) && 0 <= k < images.len() && process_match::image_in(
            images[k].1@,
            s.match_paths,
        ),
    ensures
        r.looked(images, now).session == Some(
            SessionView { miss_since_ms: None, ..r.session->0 },
        ),
{
    assert(process_match::image_in(images[k].1@, r.session->0.match_paths));
}

/// Processes are listed at most once a second, never while a listing runs and never in the
/// 45 seconds behind a launch; otherwise they are.
pub proof fn law_processes_are_listed_once_a_second(r: RunningView, now: u64)
    ensures
        r.lists(now) <==> !r.listing && !(r.session matches Some(s) && now - s.launched_at_ms
            < 45000) && !(r.last_check_ms matches Some(t) && now - t < 1000),
        r.lists(now) ==> r.refreshed(now).last_check_ms == Some(now) && r.refreshed(now).listing,
        r.refreshed(now).session == r.session,
{
}

/// A game starts at once where none is running, or the one that was is over; the running game is
/// not started twice, and another one only when the user says so.
pub proof fn law_launch_asks_before_replacing(
    r: RunningView,
    target: Seq<char>,
    still_running: bool,
)
    ensures
        r.launches(target, still_running) == LaunchStep::AlreadyRunning <==> (r.session matches Some(
            s,
        ) && s.target == target),
        r.launches(target, still_running) == LaunchStep::AskReplace <==> still_running && (r.session
            matches Some(s) && s.target != target),
        r.launches(target, still_running) == LaunchStep::Launch <==> r.session is None || (
        !still_running && r.session->0.target != target),
{
}

// ---------------------------------------------------------------------------
// Which processes are the game
// ---------------------------------------------------------------------------

/// A folder stands for every program below it and for nothing beside it: what follows the folder
/// in the program's path begins with a backslash.
pub proof fn law_folder_holds_what_is_below(image: Seq<char>, folder: Seq<char>, rest: Seq<char>)
    requires
        win_path::component_count(folder) != 1,
        !(process_match::path_extension(folder) matches Some(e) && text::same_ignoring_case(
            e,
            "exe"@,
        )),
        process_match::path_key(image) == process_match::path_key(folder) + rest,
    ensures
        process_match::image_matches(image, folder) <==> rest.len() == 0 || rest[0] == '\\',
{
    let key = process_match::path_key(folder);
    let at = process_match::path_key(image);
    reveal_strlit("\\");
    if rest.len() == 0 {
        assert(at == key);
    } else {
        assert(at.len() > key.len());
        let head = key + "\\"@;
        if rest[0] == '\\' {
            assert(at.take(head.len() as int) =~= head);
        } else {
            assert(at[key.len() as int] == rest[0]);
            assert(head[key.len() as int] == '\\');
            if text::begins(at, head) {
                assert(at.take(head.len() as int)[key.len() as int] == at[key.len() as int]);
            }
        }
    }
}

/// A program outside a folder is not of it.
pub proof fn law_folder_holds_nothing_else(image: Seq<char>, folder: Seq<char>)
    requires
        win_path::component_count(folder) != 1,
        !text::begins(process_match::path_key(image), process_match::path_key(folder)),
    ensures
        !process_match::image_matches(image, folder),
{
    let key = process_match::path_key(folder);
    let at = process_match::path_key(image);
    assert(at == key ==> at.take(key.len() as int) == key);
    if text::begins(at, key + "\\"@) {
        assert(at.take(key.len() as int) =~= at.take((key + "\\"@).len() as int).take(
            key.len() as int,
        ));
        assert((key + "\\"@).take(key.len() as int) =~= key);
    }
}

/// The path of an executable stands for that program alone.
pub proof fn law_executable_stands_for_itself(image: Seq<char>, exe: Seq<char>)
    requires
        win_path::component_count(exe) != 1,
        process_match::path_extension(exe) matches Some(e) && text::same_ignoring_case(e, "exe"@),
    ensures
        process_match::image_matches(image, exe) <==> process_match::path_key(image)
            == process_match::path_key(exe),
{
}

/// Slashes of either kind name one path.
pub proof fn law_slashes_do_not_matter(path: Seq<char>, i: int)
    requires
        0 <= i < process_match::path_key(path).len(),
    ensures
        process_match::path_key(path)[i] != '/',
        text::lowercased(path)[i] != '/' ==> process_match::path_key(path)[i] == text::lowercased(
            path,
        )[i],
        text::lowercased(path)[i] == '/' ==> process_match::path_key(path)[i] == '\\',
{
}

/// A bare name stands for every program with that file name, in any folder.
pub proof fn law_bare_name_stands_for_its_programs(
    image: Seq<char>,
    other: Seq<char>,
    name: Seq<char>,
)
    requires
        win_path::component_count(name) == 1,
        win_path::file_name(image) == win_path::file_name(other),
    ensures
        process_match::image_matches(image, name) == process_match::image_matches(other, name),
        win_path::file_name(image) is None ==> !process_match::image_matches(image, name),
        win_path::file_name(image) matches Some(n) ==> (process_match::image_matches(image, name)
            <==> text::lowercased(n) == process_match::path_key(name)),
{
}

/// The processes of a game are those whose image matches one of its paths, each listed as often
/// as it occurs, in the order of the listing.
pub proof fn law_every_process_of_the_game_is_found(
    images: Seq<(u32, String)>,
    paths: Seq<Seq<char>>,
    last: (u32, String),
)
    ensures
        process_match::running_pids(Seq::empty(), paths).len() == 0,
        process_match::running_pids(images.push(last), paths) == process_match::running_pids(
            images,
            paths,
        ) + (if exists|i: int|
            0 <= i < paths.len() && process_match::image_matches(last.1@, #[trigger] paths[i]) {
            seq![last.0]
        } else {
            seq![]
        }),
        process_match::any_running(images, paths) <==> process_match::running_pids(
            images,
            paths,
        ).len() > 0,
    decreases images.len(),
{
    assert(images.push(last).drop_last() == images);
    if images.len() > 0 {
        let init = images.drop_last();
        law_every_process_of_the_game_is_found(init, paths, images.last());
        assert(init.push(images.last()) == images);
        if process_match::any_running(init, paths) {
            let k = choose|k: int|
                0 <= k < init.len() && process_match::image_in((#[trigger] init[k]).1@, paths);
            assert(process_match::image_in(images[k].1@, paths));
        }
        if process_match::any_running(images, paths) {
            let k = choose|k: int|
                0 <= k < images.len() && process_match::image_in((#[trigger] images[k]).1@, paths);
            if k < init.len() {
                assert(process_match::image_in(init[k].1@, paths));
            }
        }
        if process_match::image_in(images.last().1@, paths) {
            assert(process_match::image_in(images[images.len() - 1].1@, paths));
        }
    }
}

/// A Steam launch URL names its game by the number behind its prefix; what follows the digits
/// does not matter, and other texts name none.
pub proof fn law_steam_url_names_its_game(n: u32, rest: Seq<char>, other: Seq<char>)
    requires
        rest.len() > 0 ==> !(0 <= reading::digit_place(rest[0]) < 10),
    ensures
        process_match::url_appid("steam://rungameid/"@ + text::dec(n as nat) + rest) == Some(
            n as nat,
        ),
        !text::begins(other, "steam://rungameid/"@) ==> process_match::url_appid(other) is None,
{
    let prefix = "steam://rungameid/"@;
    let d = text::dec(n as nat);
    let url = prefix + d + rest;
    assert(url.take(prefix.len() as int) == prefix);
    assert(url.skip(prefix.len() as int) == d + rest);
    reading::law_decimal_spells_the_number(n as nat);
    text::lemma_dec_parses(n as nat, u32::MAX as nat);
    assert forall|i: int| 0 <= i < d.len() implies text::is_digit(#[trigger] (d + rest)[i]) by {
        assert(0 <= reading::digit_place(d[i]) < 10);
    }
    lemma_digit_run(d, rest);
    assert((d + rest).take(d.len() as int) == d);
}

proof fn lemma_digit_run(d: Seq<char>, rest: Seq<char>)
    requires
        forall|i: int| 0 <= i < d.len() ==> text::is_digit(#[trigger] (d + rest)[i]),
        rest.len() > 0 ==> !(0 <= reading::digit_place(rest[0]) < 10),
    ensures
        process_match::digit_run(d + rest) == d.len(),
    decreases d.len(),
{
    if d.len() == 0 {
        assert(d + rest == rest);
        if rest.len() > 0 {
            assert(!text::is_digit(rest[0]));
        }
    } else {
        let e = d.drop_first();
        assert((d + rest).drop_first() == e + rest);
        assert(text::is_digit((d + rest)[0]));
        assert forall|i: int| 0 <= i < e.len() implies text::is_digit(#[trigger] (e + rest)[i]) by {
            assert((e + rest)[i] == (d + rest)[i + 1]);
        }
        lemma_digit_run(e, rest);
    }
}

/// A game is found by its install folder when Steam starts it, by its path when it is a file,
/// and by its file name otherwise; by nothing when its target is blank.
pub proof fn law_targets_are_found(target: Seq<char>, dir: Option<Seq<char>>, is_file: bool)
    ensures
        ({
            let t = text::trim(target);
            let steam = process_match::url_appid(t) is Some;
            let paths = process_match::target_paths(target, dir, is_file);
            &&& paths.len() <= 1
            &&& paths.len() == 1 ==> t.len() > 0 && paths[0] == (if steam {
                dir->0
            } else if is_file {
                t
            } else {
                win_path::file_name(t)->0
            })
            &&& paths.len() == 0 ==> t.len() == 0 || (steam && dir is None) || (!steam && !is_file
                && win_path::file_name(t) is None)
        }),
{
}

/// A target is a URL where `://` stands somewhere in it.
pub proof fn law_url_has_a_scheme(a: Seq<char>, b: Seq<char>, t: Seq<char>)
    ensures
        crate::launch::is_url(a + "://"@ + b),
        crate::launch::is_url(t) ==> exists|x: Seq<char>, y: Seq<char>|
            t == #[trigger] (x + "://"@ + y),
{
    reading::law_parts_are_found(a + "://"@ + b, "://"@);
    reading::law_parts_are_found(t, "://"@);
}

/// The set of paths that is found running is the first that has a process.
pub proof fn law_first_running_game_is_found(
    images: Seq<(u32, String)>,
    sets: Seq<Seq<Seq<char>>>,
    k: int,
    j: int,
)
    requires
        process_match::first_running(images, sets, k),
        process_match::first_running(images, sets, j),
    ensures
        j == k,
        process_match::running_pids(images, sets[k]).len() > 0,
{
    if j < k {
        assert(!process_match::any_running(images, sets[j]));
    } else if k < j {
        assert(!process_match::any_running(images, sets[k]));
    }
    if images.len() > 0 {
        law_every_process_of_the_game_is_found(images, sets[k], images[0]);
    }
}

/// Processes are asked for before a launch only where another game runs; a forced check changes
/// the session in nothing.
pub proof fn law_processes_matter_beside_another_game(
    running: &Running,
    target: &str,
    asks: bool,
    forced: &mut Running,
)
    requires
        call_ensures(Running::asks_for_processes, (running, target), asks),
        call_ensures(Running::force_check, (forced,), ()),
    ensures
        asks <==> (running@.session matches Some(s) && s.target != target@),
        final(forced)@.session == old(forced)@.session,
        final(forced)@.last_check_ms is None,
{
}

/// Paths that were kept of a target are found again; those of other targets stay.
pub proof fn law_kept_paths_are_found(
    cache: &mut MatchCache,
    target: &str,
    other: &str,
    paths: Vec<String>,
    after: &MatchCache,
    before: &MatchCache,
    a: Option<&Vec<String>>,
    b: Option<&Vec<String>>,
    c: Option<&Vec<String>>,
)
    requires
        other@ != target@,
        *before == *old(cache),
        call_ensures(MatchCache::store, (cache, target, paths), ()),
        *after == *final(cache),
        call_ensures(MatchCache::lookup, (after, target), a),
        call_ensures(MatchCache::lookup, (after, other), b),
        call_ensures(MatchCache::lookup, (before, other), c),
    ensures
        a matches Some(v) && *v == paths,
        b == c,
{
}

} // verus!
