//! Laws on what is handed to the host: quoted texts, pixels, file places, start-up tasks.
use crate::platform::app_log;
use crate::platform::autostart;
use crate::platform::icons;
use crate::platform::paths;
use crate::platform::paths::{Os, Places};
use vstd::prelude::*;
use vstd::utf8;

verus! {

/// The text that a quoted one stands for: two quotes stand for one.
pub open spec fn unquoted(s: Seq<char>) -> Seq<char>
    decreases s.len(),
{
    if s.len() == 0 {
        seq![]
    } else if s.last() == '\'' && s.len() >= 2 {
        unquoted(s.drop_last().drop_last()).push('\'')
    } else {
        unquoted(s.drop_last()).push(s.last())
    }
}

/// A quoted text stands for the text itself.
pub proof fn law_quoted_text_reads_back(s: Seq<char>)
    ensures
        unquoted(autostart::doubled_quotes(s)) == s,
    decreases s.len(),
{
    if s.len() > 0 {
        let init = s.drop_last();
        law_quoted_text_reads_back(init);
        let q = autostart::doubled_quotes(s);
        let d = autostart::doubled_quotes(init);
        if s.last() == '\'' {
            assert(q.drop_last().drop_last() == d);
            assert(q.last() == '\'');
        } else {
            assert(q.drop_last() == d);
        }
        assert(init.push(s.last()) == s);
    }
}

/// A start-up task runs in states 2 and 4, enabled by the user or by policy, and in no other.
pub proof fn law_enabled_task_runs(state: i32)
    ensures
        autostart::task_runs(state) <==> state == 2 || state == 4,
{
}

/// Red and blue change places within their pixel; green and alpha stay. Done twice, nothing has
/// changed.
pub proof fn law_red_and_blue_change_places(pixel: int)
    requires
        pixel >= 0,
    ensures
        icons::swapped_index(4 * pixel) == 4 * pixel + 2,
        icons::swapped_index(4 * pixel + 1) == 4 * pixel + 1,
        icons::swapped_index(4 * pixel + 2) == 4 * pixel,
        icons::swapped_index(4 * pixel + 3) == 4 * pixel + 3,
{
    assert((4 * pixel) % 4 == 0 && (4 * pixel + 1) % 4 == 1);
    assert((4 * pixel + 2) % 4 == 2 && (4 * pixel + 3) % 4 == 3);
}

/// A square picture stands in the middle of a wide one: each of its pixels is half the spare width
/// further right, and what is left and right of it is transparent.
pub proof fn law_picture_stands_in_the_middle(
    rgba: Seq<u8>,
    icon: int,
    width: int,
    x: int,
    y: int,
    channel: int,
)
    requires
        0 < icon <= width,
        0 <= x < width,
        0 <= y < icon,
        0 <= channel < 4,
    ensures
        ({
            let b = icons::wide_byte(rgba, icon, width, 4 * (y * width + x) + channel);
            let left = (width - icon) / 2;
            if x < left || x >= left + icon {
                b == 0
            } else {
                b == rgba[4 * (y * icon + (x - left)) + channel]
            }
        }),
{
    let i = 4 * (y * width + x) + channel;
    let row = 4 * width;
    let rest = 4 * x + channel;
    assert(i == y * row + rest) by (nonlinear_arith)
        requires
            i == 4 * (y * width + x) + channel,
            row == 4 * width,
            rest == 4 * x + channel,
    ;
    assert(0 <= rest < row);
    vstd::arithmetic::div_mod::lemma_fundamental_div_mod_converse(i, row, y, rest);
    assert(rest / 4 == x);
    assert(i % 4 == channel);
}

/// Files of the app lie in a folder of its own below the folder that the host keeps for such
/// files; a log file lies in its folder under its own name.
pub proof fn law_files_lie_in_their_folder(os: Os, p: Places, file: Seq<char>)
    ensures
        ({
            let d = paths::data_parts(os, p);
            let l = paths::log_parts(os, p, file);
            &&& d.len() > 0 && d.last() == "sdsc-utils"@
            &&& os == Os::Windows && p.appdata is Some ==> d == seq![
                p.appdata->0@,
                "sdsc-utils"@,
            ] && l == seq![p.appdata->0@, "sdsc-utils"@, file]
            &&& os == Os::Mac && p.home is Some ==> d[0] == p.home->0@
            &&& os == Os::Unix && p.xdg_config_home is Some ==> d[0] == p.xdg_config_home->0@
            &&& os == Os::Unix && p.xdg_config_home is None && p.home is Some ==> d == seq![
                p.home->0@,
                ".config"@,
                "sdsc-utils"@,
            ]
            &&& os != Os::Windows && p.xdg_state_home is Some ==> l == seq![
                p.xdg_state_home->0@,
                "sdsc-utils"@,
                file,
            ]
            &&& l.len() > 1 ==> l.last() == file
        }),
{
}

/// A backtrace is cut at the last character that ends within 4000 bytes.
pub proof fn law_backtrace_fits(s: Seq<char>, n: int)
    requires
        app_log::longest_fit(s, n),
    ensures
        utf8::encode_utf8(s.take(n)).len() <= 4000,
        n < s.len() ==> utf8::encode_utf8(s.take(n + 1)).len() > 4000,
{
}

/// An icon is drawn at the size that is wanted, and never smaller than 16; the shell is asked for
/// that size in both halves of its request.
pub proof fn law_icon_sizes(size: u32, edge: u32, request: u32)
    requires
        size < 0x10000,
        call_ensures(icons::icon_edge, (size,), edge),
        call_ensures(icons::shell_icon_size, (size,), request),
    ensures
        edge >= 16,
        edge >= size,
        size >= 16 ==> edge == size,
        edge == 16 || edge == size,
        request / 0x10000 == size,
        request % 0x10000 == size,
{
}

/// What is kept of a path is what was stored last for it; storing one path leaves the others.
pub proof fn law_kept_icons_are_found(
    cache: &mut icons::IconCache,
    path: &str,
    other: &str,
    outcome: Option<icons::Icon>,
    after: &icons::IconCache,
    before: &icons::IconCache,
    a: Option<&Option<icons::Icon>>,
    b: Option<&Option<icons::Icon>>,
    c: Option<&Option<icons::Icon>>,
)
    requires
        other@ != path@,
        *before == *old(cache),
        call_ensures(icons::IconCache::store, (cache, path, outcome), ()),
        *after == *final(cache),
        call_ensures(icons::IconCache::lookup, (after, path), a),
        call_ensures(icons::IconCache::lookup, (after, other), b),
        call_ensures(icons::IconCache::lookup, (before, other), c),
    ensures
        a matches Some(e) && *e == outcome,
        b == c,
{
}

/// Opening a folder failed exactly if the opener said so, which on Windows it cannot; a shortcut
/// was made exactly if its script worked and it is there.
pub proof fn law_outcomes_follow_the_host(
    os: Os,
    succeeded: bool,
    exists: bool,
    status: &str,
    opened: Result<(), String>,
    made: Result<(), String>,
)
    requires
        call_ensures(paths::opener_outcome, (os, succeeded, status), opened),
        call_ensures(autostart::shortcut_outcome, (succeeded, status, exists), made),
    ensures
        opened is Err <==> os != Os::Windows && !succeeded,
        made is Ok <==> succeeded && exists,
        opened matches Err(e) ==> exists|lead: Seq<char>| e@ == #[trigger] (lead + status@),
        made matches Err(e) ==> (!succeeded ==> exists|lead: Seq<char>|
            e@ == #[trigger] (lead + status@) + ")"@),
{
    if let Err(e) = opened {
        let lead = (if os == Os::Mac {
            "open"@
        } else {
            "xdg-open"@
        }) + " exited with "@;
        assert(e@ == lead + status@);
    }
    if let Err(e) = made {
        if !succeeded {
            let lead = "powershell failed creating shortcut (exit "@;
            assert(e@ == (lead + status@) + ")"@);
        }
    }
}

} // verus!
