//! The game that runs: its badge, its session, and launching another.
use crate::app::polling;
use crate::games;
use crate::process_match;
use crate::process_match::RunningSession;
use crate::text;
use crate::text_map::TextMap;
use vstd::prelude::*;

verus! {

/// Processes are listed at most this often.
pub const RUNNING_CHECK_INTERVAL_MS: u64 = 1000;

/// The running game and when processes were last listed.
#[derive(Debug)]
pub struct Running {
    pub session: Option<RunningSession>,
    /// Target whose row carries the running badge.
    pub badge: Option<String>,
    pub last_check_ms: Option<u64>,
    /// Processes are being listed.
    pub listing: bool,
}

/// Model of a session.
#[verifier::ext_equal]
pub struct SessionView {
    pub title: Seq<char>,
    pub target: Seq<char>,
    pub match_paths: Seq<Seq<char>>,
    pub launched_at_ms: u64,
    pub miss_since_ms: Option<u64>,
}

/// Model of a session.
pub open spec fn session_view(s: RunningSession) -> SessionView {
    SessionView {
        title: s.title@,
        target: s.target@,
        match_paths: text::views(s.match_paths@),
        launched_at_ms: s.launched_at_ms,
        miss_since_ms: s.miss_since_ms,
    }
}

/// Model of [`Running`].
#[verifier::ext_equal]
pub struct RunningView {
    pub session: Option<SessionView>,
    pub badge: Option<Seq<char>>,
    pub last_check_ms: Option<u64>,
    pub listing: bool,
}

impl View for Running {
    type V = RunningView;

    open spec fn view(&self) -> RunningView {
        RunningView {
            session: match self.session {
                Some(s) => Some(session_view(s)),
                None => None,
            },
            badge: games::text_option(self.badge),
            last_check_ms: self.last_check_ms,
            listing: self.listing,
        }
    }
}

/// A row that may be running: title, target and the paths that match it.
#[derive(Debug, Clone, PartialEq, Eq)]
pub struct Candidate {
    pub title: String,
    pub target: String,
}

impl RunningView {
    /// Whether the badge is shown without looking: the game was just launched.
    pub open spec fn optimistic(self, now: u64) -> bool {
        self.session matches Some(s) && process_match::in_grace(s.launched_at_ms, now)
    }

    /// Whether processes are to be listed.
    pub open spec fn lists(self, now: u64) -> bool {
        !self.optimistic(now) && !self.listing && !(self.last_check_ms matches Some(t)
            && polling::elapsed(t, now) < RUNNING_CHECK_INTERVAL_MS)
    }

    /// The badge asked for at `now`.
    pub open spec fn refreshed(self, now: u64) -> RunningView {
        if self.optimistic(now) {
            RunningView { badge: Some(self.session->0.target), ..self }
        } else if self.lists(now) {
            RunningView { last_check_ms: Some(now), listing: true, ..self }
        } else {
            self
        }
    }

    /// What a listing of the processes leaves of the session.
    pub open spec fn looked(self, images: Seq<(u32, String)>, now: u64) -> RunningView {
        match self.session {
            Some(s) => {
                let matched = process_match::any_running(images, s.match_paths);
                match process_match::miss_after(s.miss_since_ms, matched, now) {
                    Some(m) => RunningView {
                        session: Some(SessionView { miss_since_ms: m, ..s }),
                        badge: Some(s.target),
                        ..self
                    },
                    None => RunningView { session: None, badge: None, ..self },
                }
            },
            None => RunningView { badge: None, ..self },
        }
    }
}

impl Running {
    /// Nothing is known to run.
    pub fn new() -> (r: Self)
        ensures
            r@ == (RunningView { session: None, badge: None, last_check_ms: None, listing: false }),
    {
        Running { session: None, badge: None, last_check_ms: None, listing: false }
    }

    /// Asks for the running badge; whether processes are to be listed for it.
    pub fn refresh_running_badge(&mut self, now_ms: u64) -> (r: bool)
        ensures
            final(self)@ == old(self)@.refreshed(now_ms),
            r == old(self)@.lists(now_ms),
    {
        if let Some(s) = &self.session {
            if s.in_launch_grace(now_ms) {
                let target = s.target.clone();
                self.badge = Some(target);
                return false;
            }
        }
        if self.listing {
            return false;
        }
        if let Some(t) = self.last_check_ms {
            if now_ms.saturating_sub(t) < RUNNING_CHECK_INTERVAL_MS {
                return false;
            }
        }
        self.last_check_ms = Some(now_ms);
        self.listing = true;
        true
    }

    /// The next request lists processes, however short ago the last one was.
    pub fn force_check(&mut self)
        ensures
            final(self)@ == (RunningView { last_check_ms: None, ..old(self)@ }),
    {
        self.last_check_ms = None;
    }

    fn look(&mut self, images: &[(u32, String)], now_ms: u64)
        ensures
            final(self)@ == old(self)@.looked(images@, now_ms),
    {
        let mut over = true;
        let mut badge: Option<String> = None;
        if let Some(s) = &mut self.session {
            let matched = process_match::any_matching_running(s.match_paths.as_slice(), images);
            if s.note_look(matched, now_ms) {
                over = false;
                badge = Some(s.target.clone());
            }
        }
        if over {
            self.session = None;
        }
        self.badge = badge;
    }

    /// Processes were listed, or could not be (`None`). A session that is over gives way to
    /// the first catalog row that runs; `path_sets` holds the match paths of each row.
    pub fn on_process_enum_result(
        &mut self,
        images: Option<&[(u32, String)]>,
        candidates: &[Candidate],
        path_sets: &[Vec<String>],
        now_ms: u64,
    )
        requires
            candidates@.len() == path_sets@.len(),
        ensures
            final(self).listing == false,
            final(self).last_check_ms == old(self).last_check_ms,
            match images {
                None => {
                    &&& final(self)@.session == old(self)@.session
                    &&& final(self)@.badge == old(self)@.badge
                },
                Some(list) => {
                    let seen = old(self)@.looked(list@, now_ms);
                    let sets = process_match::set_views(path_sets@);
                    if seen.session is Some {
                        final(self)@.session == seen.session && final(self)@.badge == seen.badge
                    } else {
                        ||| {
                            &&& forall|j: int|
                                0 <= j < sets.len() ==> !process_match::any_running(
                                    list@,
                                    #[trigger] sets[j],
                                )
                            &&& final(self)@.session is None
                            &&& final(self)@.badge is None
                        }
                        ||| exists|k: int|
                            {
                                &&& #[trigger] process_match::first_running(list@, sets, k)
                                &&& final(self)@.session == Some(
                                    SessionView {
                                        title: candidates@[k].title@,
                                        target: candidates@[k].target@,
                                        match_paths: sets[k],
                                        launched_at_ms: process_match::restored_launch(now_ms),
                                        miss_since_ms: None,
                                    },
                                )
                                &&& final(self)@.badge == Some(candidates@[k].target@)
                            }
                    }
                },
            },
    {
        self.listing = false;
        let list = match images {
            Some(l) => l,
            None => {
                return;
            },
        };
        self.look(list, now_ms);
        if self.session.is_some() {
            return;
        }
        let ghost sets = process_match::set_views(path_sets@);
        if let Some(k) = process_match::first_matching_index(path_sets, list) {
            let title = candidates[k].title.clone();
            let target = candidates[k].target.clone();
            let paths = copy_texts(path_sets[k].as_slice());
            assert(sets[k as int] == text::views(path_sets@[k as int]@));
            self.badge = Some(target.clone());
            self.session = Some(RunningSession::restored(title, target, paths, now_ms));
        }
    }

    /// A game was launched.
    pub fn begin_running_session(
        &mut self,
        title: String,
        target: String,
        match_paths: Vec<String>,
        now_ms: u64,
    )
        ensures
            final(self)@ == (RunningView {
                session: Some(
                    SessionView {
                        title: title@,
                        target: target@,
                        match_paths: text::views(match_paths@),
                        launched_at_ms: now_ms,
                        miss_since_ms: None,
                    },
                ),
                badge: Some(target@),
                ..old(self)@
            }),
    {
        self.badge = Some(target.clone());
        self.session = Some(RunningSession::new(title, target, match_paths, now_ms));
    }

    /// Ends the session; the paths of the processes to close.
    pub fn close_running_game(&mut self) -> (r: Option<Vec<String>>)
        ensures
            match old(self)@.session {
                Some(s) => {
                    &&& r matches Some(paths) && text::views(paths@) == s.match_paths
                    &&& final(self)@ == (RunningView { session: None, badge: None, ..old(self)@ })
                },
                None => r is None && final(self)@ == old(self)@,
            },
    {
        let paths = match &self.session {
            Some(s) => copy_texts(s.match_paths.as_slice()),
            None => {
                return None;
            },
        };
        self.session = None;
        self.badge = None;
        Some(paths)
    }

    /// Ends the session only when the selected row is the running game.
    pub fn close_running_game_if_selected(&mut self, selected: Option<&str>) -> (r: Option<
        Vec<String>,
    >)
        ensures
            match (old(self)@.session, selected) {
                (Some(s), Some(t)) => if s.target == t@ {
                    &&& r matches Some(paths) && text::views(paths@) == s.match_paths
                    &&& final(self)@ == (RunningView { session: None, badge: None, ..old(self)@ })
                } else {
                    r is None && final(self)@ == old(self)@
                },
                _ => r is None && final(self)@ == old(self)@,
            },
    {
        let same = match (&self.session, selected) {
            (Some(s), Some(t)) => s.matches_target(t),
            _ => false,
        };
        if same {
            self.close_running_game()
        } else {
            None
        }
    }

    /// Whether launching a row needs to know if the running game still runs.
    pub fn asks_for_processes(&self, target: &str) -> (r: bool)
        ensures
            r == (self@.session matches Some(s) && s.target != target@),
    {
        match &self.session {
            Some(s) => !s.matches_target(target),
            None => false,
        }
    }

    /// What launching a row comes to; `still_running` tells whether the session's game runs.
    pub fn launch_step(&mut self, target: &str, still_running: bool) -> (r: LaunchStep)
        ensures
            r == old(self)@.launches(target@, still_running),
            final(self)@ == (if r == LaunchStep::Launch {
                RunningView {
                    session: None,
                    badge: if old(self)@.session is Some {
                        None
                    } else {
                        old(self)@.badge
                    },
                    ..old(self)@
                }
            } else {
                old(self)@
            }),
    {
        if let Some(s) = &self.session {
            if s.matches_target(target) {
                return LaunchStep::AlreadyRunning;
            }
            if still_running {
                return LaunchStep::AskReplace;
            }
            self.session = None;
            self.badge = None;
        }
        LaunchStep::Launch
    }
}

/// What launching a row comes to.
#[derive(Debug, Clone, Copy, PartialEq, Eq, Structural)]
pub enum LaunchStep {
    /// It is the running game: nothing happens.
    AlreadyRunning,
    /// Another game runs: the user is asked first.
    AskReplace,
    Launch,
}

impl RunningView {
    /// What launching a row comes to.
    pub open spec fn launches(self, target: Seq<char>, still_running: bool) -> LaunchStep {
        match self.session {
            Some(s) => if s.target == target {
                LaunchStep::AlreadyRunning
            } else if still_running {
                LaunchStep::AskReplace
            } else {
                LaunchStep::Launch
            },
            None => LaunchStep::Launch,
        }
    }
}

/// Copies of a list of texts.
pub fn copy_texts(v: &[String]) -> (r: Vec<String>)
    ensures
        text::views(r@) == text::views(v@),
{
    let ghost want = text::views(v@);
    let mut out: Vec<String> = Vec::new();
    let mut i: usize = 0;
    assert(text::views(out@) =~= want.take(0));
    while i < v.len()
        invariant
            i <= v@.len(),
            want == text::views(v@),
            text::views(out@) == want.take(i as int),
        decreases v@.len() - i,
    {
        let ghost before = text::views(out@);
        out.push(v[i].clone());
        assert(text::views(out@) =~= before.push(v@[i as int]@));
        assert(want.take(i + 1) =~= want.take(i as int).push(v@[i as int]@));
        i = i + 1;
    }
    assert(want.take(i as int) =~= want);
    out
}

/// Match paths by target, so that they are worked out once.
#[derive(Debug)]
pub struct MatchCache {
    pub entries: TextMap<Vec<String>>,
}

impl MatchCache {
    /// An empty cache.
    pub fn new() -> (r: Self)
        ensures
            r.entries@ == Map::<Seq<char>, Vec<String>>::empty(),
    {
        MatchCache { entries: TextMap::new() }
    }

    /// Paths of a target that were worked out before.
    pub fn lookup(&self, target: &str) -> (r: Option<&Vec<String>>)
        ensures
            match r {
                Some(v) => self.entries@.dom().contains(target@) && *v == self.entries@[target@],
                None => !self.entries@.dom().contains(target@),
            },
    {
        self.entries.get(target)
    }

    /// Keeps the paths of a target.
    pub fn store(&mut self, target: &str, paths: Vec<String>)
        ensures
            final(self).entries@ == old(self).entries@.insert(target@, paths),
    {
        self.entries.insert(text::own(target), paths);
    }

    /// Forgets everything: the Steam library changed.
    pub fn clear(&mut self)
        ensures
            final(self).entries@ == Map::<Seq<char>, Vec<String>>::empty(),
    {
        self.entries = TextMap::new();
    }
}

// ---------------------------------------------------------------------------
// Laws
// ---------------------------------------------------------------------------

/// No game is launched over another one that runs: the user is asked first.
pub proof fn law_running_game_is_not_replaced_unasked(r: RunningView, target: Seq<char>)
    requires
        r.session is Some,
    ensures
        r.launches(target, true) != LaunchStep::Launch,
{
}

/// A game that was just launched keeps its badge, and no processes are listed, until its
/// grace is over.
pub proof fn law_fresh_launch_is_trusted(r: RunningView, now: u64)
    requires
        r.session matches Some(s) && process_match::in_grace(s.launched_at_ms, now),
    ensures
        !r.lists(now),
        r.refreshed(now).badge == Some(r.session->0.target),
        r.refreshed(now).session == r.session,
{
}

/// Processes are listed at most once an interval, and never twice at a time.
pub proof fn law_listing_is_throttled(r: RunningView, now: u64, later: u64)
    requires
        r.lists(now),
        now <= later,
    ensures
        !r.refreshed(now).lists(later),
        now <= later < now + RUNNING_CHECK_INTERVAL_MS ==> !(RunningView {
            listing: false,
            ..r.refreshed(now)
        }).lists(later),
{
}

} // verus!
