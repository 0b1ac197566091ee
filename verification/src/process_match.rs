//! Matching game processes by image path.
use crate::games;
use crate::text;
use crate::win_path;
use vstd::prelude::*;
use vstd::string::StringExecFns;

verus! {

/// A session stays this long after launch even if no process matches.
pub const LAUNCH_GRACE_MS: u64 = 45000;

/// After the grace, a session is cleared only after it missed for this long.
pub const MISS_CLEAR_MS: u64 = 4000;

/// Session remembered after a catalog launch for running detection / close.
#[derive(Debug, Clone, PartialEq, Eq)]
pub struct RunningSession {
    pub title: String,
    pub target: String,
    /// Absolute exe paths and/or directory roots to match against process images.
    pub match_paths: Vec<String>,
    pub launched_at_ms: u64,
    /// First consecutive miss after grace; cleared when a match is seen again.
    pub miss_since_ms: Option<u64>,
}

/// Launch time of a session found running at `now_ms`: far enough back for its grace to be over,
/// or `now_ms` itself where the clock has not run that long.
pub open spec fn restored_launch(now_ms: u64) -> u64 {
    if now_ms >= LAUNCH_GRACE_MS + 1000 {
        (now_ms - (LAUNCH_GRACE_MS + 1000)) as u64
    } else {
        now_ms
    }
}

/// Whether a session launched at `launched_at_ms` stays whatever is running.
pub open spec fn in_grace(launched_at_ms: u64, now_ms: u64) -> bool {
    now_ms < launched_at_ms + LAUNCH_GRACE_MS
}

/// Miss state of a session after a look at the running processes: a match clears it, a first
/// miss starts it, and a miss that lasts ends the session (`None`).
pub open spec fn miss_after(miss_since_ms: Option<u64>, matched: bool, now_ms: u64) -> Option<
    Option<u64>,
> {
    if matched {
        Some(None)
    } else {
        match miss_since_ms {
            None => Some(Some(now_ms)),
            Some(since) => if now_ms < since + MISS_CLEAR_MS {
                Some(Some(since))
            } else {
                None
            },
        }
    }
}

impl RunningSession {
    /// Whether the session was launched from `target`.
    pub fn matches_target(&self, target: &str) -> (r: bool)
        ensures
            r == (self.target@ == target@),
    {
        text::str_eq(self.target.as_str(), target)
    }

    /// A session launched at `now_ms`.
    pub fn new(title: String, target: String, match_paths: Vec<String>, now_ms: u64) -> (r: Self)
        ensures
            r == (RunningSession {
                title,
                target,
                match_paths,
                launched_at_ms: now_ms,
                miss_since_ms: None,
            }),
    {
        RunningSession { title, target, match_paths, launched_at_ms: now_ms, miss_since_ms: None }
    }

    /// A session restored from a live process: its grace is over, so that a lasting miss
    /// applies immediately. On a clock that has run for less than the grace no such launch time
    /// exists, and the grace starts at `now_ms`.
    pub fn restored(title: String, target: String, match_paths: Vec<String>, now_ms: u64) -> (r:
        Self)
        ensures
            r == (RunningSession {
                title,
                target,
                match_paths,
                launched_at_ms: restored_launch(now_ms),
                miss_since_ms: None,
            }),
    {
        let launched_at_ms: u64 = if now_ms >= LAUNCH_GRACE_MS + 1000 {
            now_ms - (LAUNCH_GRACE_MS + 1000)
        } else {
            now_ms
        };
        RunningSession { title, target, match_paths, launched_at_ms, miss_since_ms: None }
    }
}

impl RunningSession {
    /// Whether the session stays whatever is running.
    pub fn in_launch_grace(&self, now_ms: u64) -> (r: bool)
        ensures
            r == in_grace(self.launched_at_ms, now_ms),
    {
        now_ms < self.launched_at_ms || now_ms - self.launched_at_ms < LAUNCH_GRACE_MS
    }

    /// Takes note of a look at the running processes; whether the session goes on.
    pub fn note_look(&mut self, matched: bool, now_ms: u64) -> (r: bool)
        ensures
            ({
                let after = miss_after(old(self).miss_since_ms, matched, now_ms);
                &&& r == (after is Some)
                &&& *final(self) == (match after {
                    Some(m) => RunningSession { miss_since_ms: m, ..*old(self) },
                    None => *old(self),
                })
            }),
    {
        if matched {
            self.miss_since_ms = None;
            return true;
        }
        match self.miss_since_ms {
            None => {
                self.miss_since_ms = Some(now_ms);
                true
            },
            Some(since) => now_ms < since || now_ms - since < MISS_CLEAR_MS,
        }
    }
}

// ---------------------------------------------------------------------------
// Match paths
// ---------------------------------------------------------------------------

/// Number of leading digits.
pub open spec fn digit_run(s: Seq<char>) -> int
    decreases s.len(),
{
    if s.len() == 0 || !text::is_digit(s[0]) {
        0
    } else {
        1 + digit_run(s.drop_first())
    }
}

proof fn lemma_digit_run(s: Seq<char>, k: int)
    requires
        0 <= k <= s.len(),
        k < s.len() ==> !text::is_digit(s[k]),
        forall|i: int| 0 <= i < k ==> text::is_digit(#[trigger] s[i]),
    ensures
        digit_run(s) == k,
    decreases k,
{
    if k > 0 {
        assert(text::is_digit(s[0]));
        let t = s.drop_first();
        assert forall|i: int| 0 <= i < k - 1 implies text::is_digit(#[trigger] t[i]) by {
            assert(t[i] == s[i + 1]);
        }
        lemma_digit_run(t, k - 1);
    }
}

/// Prefix of a Steam launch URL.
pub open spec fn steam_prefix() -> Seq<char> {
    "steam://rungameid/"@
}

/// The appid of a Steam launch URL.
pub open spec fn url_appid(target: Seq<char>) -> Option<nat> {
    if text::begins(target, steam_prefix()) {
        let rest = target.skip(steam_prefix().len() as int);
        text::parse_unsigned(rest.take(digit_run(rest)), u32::MAX as nat)
    } else {
        None
    }
}

/// The appid of a Steam launch URL.
pub fn steam_appid(target: &str) -> (r: Option<u32>)
    ensures
        match r {
            Some(n) => url_appid(target@) == Some(n as nat),
            None => url_appid(target@) is None,
        },
{
    if !text::str_begins(target, "steam://rungameid/") {
        return None;
    }
    proof {
        reveal_strlit("steam://rungameid/");
    }
    let cs = text::chars_of(target);
    let mut n: usize = 18;
    let ghost rest = target@.skip(18);
    while n < cs.len() && '0' <= cs[n] && cs[n] <= '9'
        invariant
            18 <= n <= cs@.len(),
            cs@ == target@,
            rest == target@.skip(18),
            forall|i: int| 0 <= i < n - 18 ==> text::is_digit(#[trigger] rest[i]),
        decreases cs@.len() - n,
    {
        assert(rest[n - 18] == cs@[n as int]);
        n = n + 1;
    }
    proof {
        if n < cs@.len() {
            assert(rest[n - 18] == cs@[n as int]);
        }
        lemma_digit_run(rest, n - 18);
    }
    let digits = text::slice_to_vec_range(cs.as_slice(), 18, n);
    assert(digits@ == rest.take(n - 18));
    text::chars_parse_unsigned(digits.as_slice(), u32::MAX)
}

/// Match paths of a launch target. `install_dir` is the install folder of the Steam game the
/// target names, `is_file` tells whether the trimmed target is a file.
pub open spec fn target_paths(
    target: Seq<char>,
    install_dir: Option<Seq<char>>,
    is_file: bool,
) -> Seq<Seq<char>> {
    let t = text::trim(target);
    if t.len() == 0 {
        seq![]
    } else if url_appid(t) is Some {
        match install_dir {
            Some(dir) => seq![dir],
            None => seq![],
        }
    } else if is_file {
        seq![t]
    } else {
        match win_path::file_name(t) {
            Some(name) => seq![name],
            None => seq![],
        }
    }
}

/// Match paths of a catalog launch target (best-effort). `install_dir` is the install folder
/// of the Steam game the target names, `is_file` whether the trimmed target is a file.
pub fn match_paths_for_target(target: &str, install_dir: Option<String>, is_file: bool) -> (r: Vec<
    String,
>)
    ensures
        text::views(r@) == target_paths(
            target@,
            games::text_option(install_dir),
            is_file,
        ),
{
    let trimmed = text::str_trim(target);
    let mut paths: Vec<String> = Vec::new();
    let ghost want = target_paths(
        target@,
        games::text_option(install_dir),
        is_file,
    );
    if !trimmed.as_str().is_empty() {
        if steam_appid(trimmed.as_str()).is_some() {
            if let Some(dir) = install_dir {
                paths.push(dir);
            }
        } else if is_file {
            paths.push(trimmed);
        } else if let Some(name) = win_path::file_name_of(trimmed.as_str()) {
            paths.push(text::to_text(name.as_slice()));
        }
    }
    assert(text::views(paths@) =~= want);
    paths
}

/// Warning for a Steam game without an install folder, the first time it is missed.
pub fn missing_installdir_warning(seen: &mut Vec<u32>, appid: u32) -> (r: Option<String>)
    ensures
        final(seen)@ == (if old(seen)@.contains(appid) {
            old(seen)@
        } else {
            old(seen)@.push(appid)
        }),
        match r {
            Some(m) => !old(seen)@.contains(appid) && m@ == "steam installdir missing for appid "@
                + text::dec(appid as nat) + "; running match paths empty"@,
            None => old(seen)@.contains(appid),
        },
{
    if has_pid(seen.as_slice(), appid) {
        return None;
    }
    seen.push(appid);
    let mut m = text::own("steam installdir missing for appid ");
    text::push_dec(&mut m, appid as u64);
    m.append("; running match paths empty");
    Some(m)
}

/// Whether a number is in a list.
pub fn has_pid(pids: &[u32], pid: u32) -> (r: bool)
    ensures
        r == pids@.contains(pid),
{
    let mut i: usize = 0;
    while i < pids.len()
        invariant
            i <= pids@.len(),
            forall|k: int| 0 <= k < i ==> pids@[k] != pid,
        decreases pids@.len() - i,
    {
        if pids[i] == pid {
            return true;
        }
        i = i + 1;
    }
    false
}

// ---------------------------------------------------------------------------
// Matching
// ---------------------------------------------------------------------------

/// A character with `/` turned into `\`.
pub open spec fn backslashed(c: char) -> char {
    if c == '/' {
        '\\'
    } else {
        c
    }
}

/// A path in lower case with `\` as its separator.
pub open spec fn path_key(path: Seq<char>) -> Seq<char> {
    let low = text::lowercased(path);
    Seq::new(low.len(), |i: int| backslashed(low[i]))
}

/// Extension of the file a path names.
pub open spec fn path_extension(path: Seq<char>) -> Option<Seq<char>> {
    match win_path::file_name(path) {
        Some(n) => win_path::extension(n),
        None => None,
    }
}

/// Whether an image is the program that `m` names: by file name when `m` is only a name, by
/// path when it is an executable, else by lying under the folder `m`.
pub open spec fn image_matches(image: Seq<char>, m: Seq<char>) -> bool {
    let key = path_key(m);
    if win_path::component_count(m) == 1 {
        match win_path::file_name(image) {
            Some(n) => text::lowercased(n) == key,
            None => false,
        }
    } else if path_extension(m) matches Some(e) && text::same_ignoring_case(e, "exe"@) {
        path_key(image) == key
    } else {
        path_key(image) == key || text::begins(path_key(image), key + "\\"@)
    }
}

/// Whether an image matches one of the paths.
pub open spec fn image_in(image: Seq<char>, paths: Seq<Seq<char>>) -> bool {
    exists|i: int| 0 <= i < paths.len() && image_matches(image, #[trigger] paths[i])
}

/// Executable form of [`path_key`].
pub fn normalize_path_key(path: &str) -> (r: String)
    ensures
        r@ == path_key(path@),
{
    let low = text::str_lowercase(path);
    let cs = text::chars_of(low.as_str());
    let mut out: Vec<char> = Vec::new();
    let mut i: usize = 0;
    while i < cs.len()
        invariant
            i <= cs@.len(),
            out@.len() == i,
            forall|k: int| 0 <= k < i ==> #[trigger] out@[k] == backslashed(cs@[k]),
        decreases cs@.len() - i,
    {
        out.push(
            if cs[i] == '/' {
                '\\'
            } else {
                cs[i]
            },
        );
        i = i + 1;
    }
    assert(out@ =~= path_key(path@));
    text::to_text(out.as_slice())
}

fn one_matches(image: &str, image_key: &str, m: &str) -> (r: bool)
    requires
        image_key@ == path_key(image@),
    ensures
        r == image_matches(image@, m@),
{
    let key = normalize_path_key(m);
    if win_path::is_single_component(m) {
        return match win_path::file_name_of(image) {
            Some(n) => {
                let name = text::to_text(n.as_slice());
                let low = text::str_lowercase(name.as_str());
                text::str_eq(low.as_str(), key.as_str())
            },
            None => false,
        };
    }
    let exe = match win_path::file_name_of(m) {
        Some(n) => match win_path::extension_of(n.as_slice()) {
            Some(e) => {
                let e = text::to_text(e.as_slice());
                text::str_eq_ignore_case(e.as_str(), "exe")
            },
            None => false,
        },
        None => false,
    };
    let same = text::str_eq(image_key, key.as_str());
    if exe {
        return same;
    }
    let root = text::cat2(key.as_str(), "\\");
    same || text::str_begins(image_key, root.as_str())
}

/// Whether a process image matches one of the paths (exact file or under a root).
pub fn path_matches(image: &str, match_paths: &[String]) -> (r: bool)
    ensures
        r == image_in(image@, text::views(match_paths@)),
{
    let ghost ps = text::views(match_paths@);
    let key = normalize_path_key(image);
    let mut i: usize = 0;
    while i < match_paths.len()
        invariant
            i <= match_paths@.len(),
            ps == text::views(match_paths@),
            key@ == path_key(image@),
            forall|k: int| 0 <= k < i ==> !image_matches(image@, #[trigger] ps[k]),
        decreases match_paths@.len() - i,
    {
        assert(ps[i as int] == match_paths@[i as int]@);
        if one_matches(image, key.as_str(), match_paths[i].as_str()) {
            return true;
        }
        i = i + 1;
    }
    false
}

/// Whether any running image matches.
pub open spec fn any_running(images: Seq<(u32, String)>, paths: Seq<Seq<char>>) -> bool {
    exists|i: int| 0 <= i < images.len() && image_in((#[trigger] images[i]).1@, paths)
}

/// Whether any of the running `images` (process id and path) matches `match_paths`.
pub fn any_matching_running(match_paths: &[String], images: &[(u32, String)]) -> (r: bool)
    ensures
        r == any_running(images@, text::views(match_paths@)),
{
    let mut i: usize = 0;
    while i < images.len()
        invariant
            i <= images@.len(),
            forall|k: int|
                0 <= k < i ==> !image_in((#[trigger] images@[k]).1@, text::views(match_paths@)),
        decreases images@.len() - i,
    {
        if path_matches(images[i].1.as_str(), match_paths) {
            return true;
        }
        i = i + 1;
    }
    false
}

/// Processes whose image matches, in order.
pub open spec fn running_pids(images: Seq<(u32, String)>, paths: Seq<Seq<char>>) -> Seq<u32>
    decreases images.len(),
{
    if images.len() == 0 {
        seq![]
    } else {
        let rest = running_pids(images.drop_last(), paths);
        if image_in(images.last().1@, paths) {
            rest.push(images.last().0)
        } else {
            rest
        }
    }
}

/// Processes among the running `images` that match.
pub fn matching_pids(match_paths: &[String], images: &[(u32, String)]) -> (r: Vec<u32>)
    ensures
        r@ == running_pids(images@, text::views(match_paths@)),
{
    let ghost ps = text::views(match_paths@);
    let mut out: Vec<u32> = Vec::new();
    let mut i: usize = 0;
    assert(images@.take(0) == Seq::<(u32, String)>::empty());
    while i < images.len()
        invariant
            i <= images@.len(),
            ps == text::views(match_paths@),
            out@ == running_pids(images@.take(i as int), ps),
        decreases images@.len() - i,
    {
        assert(images@.take(i + 1).drop_last() == images@.take(i as int));
        assert(images@.take(i + 1).last() == images@[i as int]);
        if path_matches(images[i].1.as_str(), match_paths) {
            out.push(images[i].0);
        }
        i = i + 1;
    }
    assert(images@.take(i as int) == images@);
    out
}

/// Models of the path sets.
pub open spec fn set_views(v: Seq<Vec<String>>) -> Seq<Seq<Seq<char>>> {
    Seq::new(v.len(), |i: int| text::views(v[i]@))
}

/// Whether `k` is the first set that some running image matches.
pub open spec fn first_running(
    images: Seq<(u32, String)>,
    sets: Seq<Seq<Seq<char>>>,
    k: int,
) -> bool {
    &&& 0 <= k < sets.len()
    &&& any_running(images, sets[k])
    &&& forall|j: int| 0 <= j < k ==> !any_running(images, #[trigger] sets[j])
}

/// Index of the first path set that matches one of the running `images`, in whatever order
/// these are listed.
pub fn first_matching_index(path_sets: &[Vec<String>], images: &[(u32, String)]) -> (r: Option<
    usize,
>)
    ensures
        match r {
            Some(k) => first_running(images@, set_views(path_sets@), k as int),
            None => forall|j: int|
                0 <= j < path_sets@.len() ==> !any_running(
                    images@,
                    #[trigger] set_views(path_sets@)[j],
                ),
        },
{
    let ghost sets = set_views(path_sets@);
    let mut k: usize = 0;
    while k < path_sets.len()
        invariant
            k <= path_sets@.len(),
            sets == set_views(path_sets@),
            forall|j: int| 0 <= j < k ==> !any_running(images@, #[trigger] sets[j]),
        decreases path_sets@.len() - k,
    {
        assert(sets[k as int] == text::views(path_sets@[k as int]@));
        if any_matching_running(path_sets[k].as_slice(), images) {
            return Some(k);
        }
        k = k + 1;
    }
    None
}

// ---------------------------------------------------------------------------
// Laws
// ---------------------------------------------------------------------------

/// The order in which processes are listed does not matter to which set is found first.
pub proof fn law_listing_order_does_not_matter(
    images: Seq<(u32, String)>,
    others: Seq<(u32, String)>,
    sets: Seq<Seq<Seq<char>>>,
    k: int,
)
    requires
        forall|p: (u32, String)| images.contains(p) <==> others.contains(p),
        first_running(images, sets, k),
    ensures
        first_running(others, sets, k),
{
    lemma_same_running(images, others, sets[k]);
    assert forall|j: int| 0 <= j < k implies !any_running(others, #[trigger] sets[j]) by {
        lemma_same_running(images, others, sets[j]);
    }
}

proof fn lemma_same_running(
    images: Seq<(u32, String)>,
    others: Seq<(u32, String)>,
    paths: Seq<Seq<char>>,
)
    requires
        forall|p: (u32, String)| images.contains(p) <==> others.contains(p),
    ensures
        any_running(images, paths) == any_running(others, paths),
{
    if any_running(images, paths) {
        let i = choose|i: int| 0 <= i < images.len() && image_in((#[trigger] images[i]).1@, paths);
        assert(others.contains(images[i]));
        let j = choose|j: int| 0 <= j < others.len() && others[j] == images[i];
        assert(image_in(others[j].1@, paths));
    }
    if any_running(others, paths) {
        let i = choose|i: int| 0 <= i < others.len() && image_in((#[trigger] others[i]).1@, paths);
        assert(images.contains(others[i]));
        let j = choose|j: int| 0 <= j < images.len() && images[j] == others[i];
        assert(image_in(images[j].1@, paths));
    }
}

/// Nothing matches an empty list of paths.
pub proof fn law_no_paths_no_match(images: Seq<(u32, String)>)
    ensures
        !any_running(images, seq![]),
        running_pids(images, seq![]).len() == 0,
    decreases images.len(),
{
    if images.len() > 0 {
        law_no_paths_no_match(images.drop_last());
    }
}

/// A program matches itself by its path, and a folder matches what lies under it.
pub proof fn law_images_match(image: Seq<char>, root: Seq<char>)
    ensures
        win_path::component_count(image) != 1 ==> image_matches(image, image),
        (win_path::component_count(root) != 1 && !(path_extension(root) matches Some(e)
            && text::same_ignoring_case(e, "exe"@)) && text::begins(
            path_key(image),
            path_key(root) + "\\"@,
        )) ==> image_matches(image, root),
{
}

/// A session survives misses for the clearing time after the first one, and any match in
/// between starts the count anew; a restored session is past its launch grace, once the clock
/// has run for longer than that.
pub proof fn law_misses_must_last(first_ms: u64, later_ms: u64, now_ms: u64)
    requires
        first_ms <= later_ms,
    ensures
        miss_after(Some(first_ms), false, later_ms) is None <==> later_ms - first_ms
            >= MISS_CLEAR_MS,
        miss_after(miss_after(Some(first_ms), true, later_ms)->0, false, later_ms) == Some(
            Some(later_ms),
        ),
        now_ms >= LAUNCH_GRACE_MS + 1000 ==> !in_grace(restored_launch(now_ms), now_ms),
{
}

} // verus!
