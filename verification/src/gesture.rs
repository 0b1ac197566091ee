//! Configurable controller chord used to reopen the start screen.
use crate::text;
use vstd::prelude::*;
use vstd::string::StringExecFns;

pub mod chords;

verus! {

/// Digital controls that can appear in a reopen gesture, in display order.
#[derive(Debug, Clone, Copy, PartialEq, Eq, PartialOrd, Ord, Hash, Structural)]
pub enum GestureControl {
    Cross,
    Circle,
    Square,
    Triangle,
    L1,
    R1,
    L2,
    R2,
    L3,
    R3,
    Create,
    Options,
    Ps,
    Mute,
    Touchpad,
    DpadUp,
    DpadDown,
    DpadLeft,
    DpadRight,
}

/// Number of controls.
pub const CONTROL_COUNT: u32 = 19;

impl GestureControl {
    /// Name shown to the reader.
    pub open spec fn label(self) -> Seq<char> {
        match self {
            GestureControl::Cross => "Cross"@,
            GestureControl::Circle => "Circle"@,
            GestureControl::Square => "Square"@,
            GestureControl::Triangle => "Triangle"@,
            GestureControl::L1 => "L1"@,
            GestureControl::R1 => "R1"@,
            GestureControl::L2 => "L2"@,
            GestureControl::R2 => "R2"@,
            GestureControl::L3 => "L3"@,
            GestureControl::R3 => "R3"@,
            GestureControl::Create => "Create"@,
            GestureControl::Options => "Options"@,
            GestureControl::Ps => "PS"@,
            GestureControl::Mute => "Mute"@,
            GestureControl::Touchpad => "Touchpad"@,
            GestureControl::DpadUp => "D-pad Up"@,
            GestureControl::DpadDown => "D-pad Down"@,
            GestureControl::DpadLeft => "D-pad Left"@,
            GestureControl::DpadRight => "D-pad Right"@,
        }
    }

    /// Name shown to the reader.
    pub fn as_str(self) -> (r: &'static str)
        ensures
            r@ == self.label(),
    {
        match self {
            GestureControl::Cross => "Cross",
            GestureControl::Circle => "Circle",
            GestureControl::Square => "Square",
            GestureControl::Triangle => "Triangle",
            GestureControl::L1 => "L1",
            GestureControl::R1 => "R1",
            GestureControl::L2 => "L2",
            GestureControl::R2 => "R2",
            GestureControl::L3 => "L3",
            GestureControl::R3 => "R3",
            GestureControl::Create => "Create",
            GestureControl::Options => "Options",
            GestureControl::Ps => "PS",
            GestureControl::Mute => "Mute",
            GestureControl::Touchpad => "Touchpad",
            GestureControl::DpadUp => "D-pad Up",
            GestureControl::DpadDown => "D-pad Down",
            GestureControl::DpadLeft => "D-pad Left",
            GestureControl::DpadRight => "D-pad Right",
        }
    }

    /// Place of the control in display order.
    pub open spec fn rank(self) -> u32 {
        match self {
            GestureControl::Cross => 0,
            GestureControl::Circle => 1,
            GestureControl::Square => 2,
            GestureControl::Triangle => 3,
            GestureControl::L1 => 4,
            GestureControl::R1 => 5,
            GestureControl::L2 => 6,
            GestureControl::R2 => 7,
            GestureControl::L3 => 8,
            GestureControl::R3 => 9,
            GestureControl::Create => 10,
            GestureControl::Options => 11,
            GestureControl::Ps => 12,
            GestureControl::Mute => 13,
            GestureControl::Touchpad => 14,
            GestureControl::DpadUp => 15,
            GestureControl::DpadDown => 16,
            GestureControl::DpadLeft => 17,
            GestureControl::DpadRight => 18,
        }
    }

    fn rank_of(self) -> (r: u32)
        ensures
            r == self.rank(),
            r < CONTROL_COUNT,
    {
        match self {
            GestureControl::Cross => 0,
            GestureControl::Circle => 1,
            GestureControl::Square => 2,
            GestureControl::Triangle => 3,
            GestureControl::L1 => 4,
            GestureControl::R1 => 5,
            GestureControl::L2 => 6,
            GestureControl::R2 => 7,
            GestureControl::L3 => 8,
            GestureControl::R3 => 9,
            GestureControl::Create => 10,
            GestureControl::Options => 11,
            GestureControl::Ps => 12,
            GestureControl::Mute => 13,
            GestureControl::Touchpad => 14,
            GestureControl::DpadUp => 15,
            GestureControl::DpadDown => 16,
            GestureControl::DpadLeft => 17,
            GestureControl::DpadRight => 18,
        }
    }

    /// The control of a rank.
    pub open spec fn of_rank(r: u32) -> GestureControl {
        if r == 0 {
            GestureControl::Cross
        } else if r == 1 {
            GestureControl::Circle
        } else if r == 2 {
            GestureControl::Square
        } else if r == 3 {
            GestureControl::Triangle
        } else if r == 4 {
            GestureControl::L1
        } else if r == 5 {
            GestureControl::R1
        } else if r == 6 {
            GestureControl::L2
        } else if r == 7 {
            GestureControl::R2
        } else if r == 8 {
            GestureControl::L3
        } else if r == 9 {
            GestureControl::R3
        } else if r == 10 {
            GestureControl::Create
        } else if r == 11 {
            GestureControl::Options
        } else if r == 12 {
            GestureControl::Ps
        } else if r == 13 {
            GestureControl::Mute
        } else if r == 14 {
            GestureControl::Touchpad
        } else if r == 15 {
            GestureControl::DpadUp
        } else if r == 16 {
            GestureControl::DpadDown
        } else if r == 17 {
            GestureControl::DpadLeft
        } else {
            GestureControl::DpadRight
        }
    }

    /// The control of a rank.
    pub fn at_rank(r: u32) -> (c: GestureControl)
        requires
            r < CONTROL_COUNT,
        ensures
            c == Self::of_rank(r),
            c.rank() == r,
    {
        if r == 0 {
            GestureControl::Cross
        } else if r == 1 {
            GestureControl::Circle
        } else if r == 2 {
            GestureControl::Square
        } else if r == 3 {
            GestureControl::Triangle
        } else if r == 4 {
            GestureControl::L1
        } else if r == 5 {
            GestureControl::R1
        } else if r == 6 {
            GestureControl::L2
        } else if r == 7 {
            GestureControl::R2
        } else if r == 8 {
            GestureControl::L3
        } else if r == 9 {
            GestureControl::R3
        } else if r == 10 {
            GestureControl::Create
        } else if r == 11 {
            GestureControl::Options
        } else if r == 12 {
            GestureControl::Ps
        } else if r == 13 {
            GestureControl::Mute
        } else if r == 14 {
            GestureControl::Touchpad
        } else if r == 15 {
            GestureControl::DpadUp
        } else if r == 16 {
            GestureControl::DpadDown
        } else if r == 17 {
            GestureControl::DpadLeft
        } else {
            GestureControl::DpadRight
        }
    }
}

/// A control is the one of its rank.
pub proof fn lemma_rank_names(c: GestureControl)
    ensures
        c.rank() < CONTROL_COUNT,
        GestureControl::of_rank(c.rank()) == c,
{
}

// ---------------------------------------------------------------------------
// Sets of controls
// ---------------------------------------------------------------------------

/// A set of controls, one bit per control.
#[derive(Debug, Clone, Copy, PartialEq, Eq, Structural)]
pub struct ControlSet {
    bits: u32,
}

spec fn bit(bits: u32, r: u32) -> bool {
    bits & (1u32 << r) != 0
}

proof fn lemma_bits(bits: u32, r: u32, s: u32)
    requires
        r < 32,
        s < 32,
    ensures
        bit(bits | (1u32 << r), s) == (bit(bits, s) || r == s),
        bit(bits & !(1u32 << r), s) == (bit(bits, s) && r != s),
        !bit(0, s),
{
    assert((bits | (1u32 << r)) & (1u32 << s) != 0 <==> (bits & (1u32 << s) != 0 || r == s))
        by (bit_vector)
        requires
            r < 32,
            s < 32,
    ;
    assert((bits & !(1u32 << r)) & (1u32 << s) != 0 <==> (bits & (1u32 << s) != 0 && r != s))
        by (bit_vector)
        requires
            r < 32,
            s < 32,
    ;
    assert(0u32 & (1u32 << s) == 0) by (bit_vector);
}

impl View for ControlSet {
    type V = Set<GestureControl>;

    closed spec fn view(&self) -> Set<GestureControl> {
        Set::new(|c: GestureControl| bit(self.bits, c.rank()))
    }
}

/// Members of `s` with a rank below `n`, in display order.
pub open spec fn members_below(s: Set<GestureControl>, n: u32) -> Seq<GestureControl>
    decreases n,
{
    if n == 0 {
        seq![]
    } else {
        let rest = members_below(s, (n - 1) as u32);
        let c = GestureControl::of_rank((n - 1) as u32);
        if s.contains(c) {
            rest.push(c)
        } else {
            rest
        }
    }
}

/// Members of a set of controls in display order.
pub open spec fn members(s: Set<GestureControl>) -> Seq<GestureControl> {
    members_below(s, CONTROL_COUNT)
}

/// The members in order are the members of the set.
pub proof fn lemma_members(s: Set<GestureControl>, n: u32)
    requires
        n <= CONTROL_COUNT,
    ensures
        forall|c: GestureControl|
            #[trigger] members_below(s, n).contains(c) <==> s.contains(c) && c.rank() < n,
        forall|i: int, j: int|
            0 <= i < j < members_below(s, n).len() ==> (#[trigger] members_below(s, n)[i]).rank() < (
            #[trigger] members_below(s, n)[j]).rank(),
    decreases n,
{
    if n > 0 {
        let m = (n - 1) as u32;
        lemma_members(s, m);
        let rest = members_below(s, m);
        let c = GestureControl::of_rank(m);
        let all = members_below(s, n);
        lemma_rank_names(c);
        assert(c.rank() == m);
        assert forall|d: GestureControl| #[trigger] all.contains(d) <==> s.contains(d) && d.rank()
            < n by {
            lemma_rank_names(d);
            if all.contains(d) {
                let i = choose|i: int| 0 <= i < all.len() && all[i] == d;
                if i < rest.len() {
                    assert(rest[i] == d);
                    assert(rest.contains(d));
                }
            }
            if s.contains(d) && d.rank() < n {
                if d.rank() < m {
                    assert(rest.contains(d));
                    let i = choose|i: int| 0 <= i < rest.len() && rest[i] == d;
                    assert(all[i] == d);
                } else {
                    assert(d == c);
                    assert(all[all.len() - 1] == c);
                }
            }
        }
        assert forall|i: int, j: int| 0 <= i < j < all.len() implies (#[trigger] all[i]).rank() < (
        #[trigger] all[j]).rank() by {
            assert(all[i] == rest[i]);
            if j < rest.len() {
                assert(all[j] == rest[j]);
            } else {
                assert(rest.contains(rest[i]));
            }
        }
    }
}

/// Every set of controls is finite, with as many members as are listed in order.
proof fn lemma_members_count(s: Set<GestureControl>)
    ensures
        s.finite(),
        s.len() == members(s).len(),
{
    let m = members(s);
    lemma_members(s, CONTROL_COUNT);
    assert(m.no_duplicates());
    assert forall|c: GestureControl| m.to_set().contains(c) == s.contains(c) by {
        lemma_rank_names(c);
        assert(members_below(s, CONTROL_COUNT).contains(c) == s.contains(c));
    }
    assert(m.to_set() =~= s);
    m.unique_seq_to_set();
}

impl ControlSet {
    /// The empty set.
    pub fn new() -> (r: Self)
        ensures
            r@ == Set::<GestureControl>::empty(),
    {
        let r = ControlSet { bits: 0 };
        proof {
            assert forall|c: GestureControl| !r@.contains(c) by {
                lemma_bits(0, 0, c.rank());
            }
            assert(r@ =~= Set::<GestureControl>::empty());
        }
        r
    }

    /// Whether `c` is a member.
    pub fn contains(&self, c: GestureControl) -> (r: bool)
        ensures
            r == self@.contains(c),
    {
        self.bits & (1u32 << c.rank_of()) != 0
    }

    /// Adds `c`.
    pub fn insert(&mut self, c: GestureControl)
        ensures
            final(self)@ == old(self)@.insert(c),
    {
        self.bits = self.bits | (1u32 << c.rank_of());
        proof {
            assert forall|d: GestureControl| self@.contains(d) == old(self)@.insert(c).contains(d)
                by {
                lemma_bits(old(self).bits, c.rank(), d.rank());
                lemma_rank_names(c);
                lemma_rank_names(d);
            }
            assert(self@ =~= old(self)@.insert(c));
        }
    }

    /// Takes `c` out.
    pub fn remove(&mut self, c: GestureControl)
        ensures
            final(self)@ == old(self)@.remove(c),
    {
        self.bits = self.bits & !(1u32 << c.rank_of());
        proof {
            assert forall|d: GestureControl| self@.contains(d) == old(self)@.remove(c).contains(d)
                by {
                lemma_bits(old(self).bits, c.rank(), d.rank());
                lemma_rank_names(c);
                lemma_rank_names(d);
            }
            assert(self@ =~= old(self)@.remove(c));
        }
    }

    /// Takes every member out.
    pub fn clear(&mut self)
        ensures
            final(self)@ == Set::<GestureControl>::empty(),
    {
        *self = ControlSet::new();
    }

    /// The members in display order.
    pub fn to_vec(&self) -> (r: Vec<GestureControl>)
        ensures
            r@ == members(self@),
    {
        let mut r: Vec<GestureControl> = Vec::new();
        let mut n: u32 = 0;
        while n < CONTROL_COUNT
            invariant
                n <= CONTROL_COUNT,
                r@ == members_below(self@, n),
            decreases CONTROL_COUNT - n,
        {
            let c = GestureControl::at_rank(n);
            if self.contains(c) {
                r.push(c);
            }
            n = n + 1;
        }
        r
    }

    /// Number of members.
    pub fn len(&self) -> (r: usize)
        ensures
            r == self@.len(),
    {
        proof {
            lemma_members_count(self@);
        }
        self.to_vec().len()
    }

    /// Whether there is no member.
    pub fn is_empty(&self) -> (r: bool)
        ensures
            r == (self@ == Set::<GestureControl>::empty()),
    {
        let v = self.to_vec();
        proof {
            lemma_members(self@, CONTROL_COUNT);
            if v@.len() == 0 {
                assert forall|c: GestureControl| !self@.contains(c) by {
                    lemma_rank_names(c);
                    assert(!members_below(self@, CONTROL_COUNT).contains(c));
                }
                assert(self@ =~= Set::<GestureControl>::empty());
            } else {
                assert(members_below(self@, CONTROL_COUNT).contains(v@[0]));
            }
        }
        v.len() == 0
    }
}

impl Default for ControlSet {
    fn default() -> (r: Self)
        ensures
            r@ == Set::<GestureControl>::empty(),
    {
        ControlSet::new()
    }
}

// ---------------------------------------------------------------------------
// Labels
// ---------------------------------------------------------------------------

/// Default reopen chord: L2 + R2 + L3 + R3.
pub fn default_gesture() -> (r: Vec<GestureControl>)
    ensures
        r@ == seq![
            GestureControl::L2,
            GestureControl::R2,
            GestureControl::L3,
            GestureControl::R3,
        ],
{
    let mut r: Vec<GestureControl> = Vec::new();
    r.push(GestureControl::L2);
    r.push(GestureControl::R2);
    r.push(GestureControl::L3);
    r.push(GestureControl::R3);
    r
}

/// The controls of rank `r` among `s`.
pub open spec fn with_rank(s: Seq<GestureControl>, r: u32) -> Seq<GestureControl>
    decreases s.len(),
{
    if s.len() == 0 {
        seq![]
    } else if s.last().rank() == r {
        with_rank(s.drop_last(), r).push(s.last())
    } else {
        with_rank(s.drop_last(), r)
    }
}

/// The controls of `s` with a rank below `n`, in display order, repeats kept.
pub open spec fn in_display_order(s: Seq<GestureControl>, n: u32) -> Seq<GestureControl>
    decreases n,
{
    if n == 0 {
        seq![]
    } else {
        in_display_order(s, (n - 1) as u32) + with_rank(s, (n - 1) as u32)
    }
}

/// Labels joined by ` + `.
pub open spec fn joined(s: Seq<GestureControl>) -> Seq<char>
    decreases s.len(),
{
    if s.len() == 0 {
        seq![]
    } else if s.len() == 1 {
        s[0].label()
    } else {
        joined(s.drop_last()) + " + "@ + s.last().label()
    }
}

fn sort_controls(controls: &[GestureControl]) -> (r: Vec<GestureControl>)
    ensures
        r@ == in_display_order(controls@, CONTROL_COUNT),
{
    let mut r: Vec<GestureControl> = Vec::new();
    let mut n: u32 = 0;
    while n < CONTROL_COUNT
        invariant
            n <= CONTROL_COUNT,
            r@ == in_display_order(controls@, n),
        decreases CONTROL_COUNT - n,
    {
        let ghost before = r@;
        let mut i: usize = 0;
        assert(before + with_rank(controls@.take(0), n) == before);
        while i < controls.len()
            invariant
                i <= controls@.len(),
                r@ == before + with_rank(controls@.take(i as int), n),
            decreases controls@.len() - i,
        {
            let c = controls[i];
            assert(controls@.take(i + 1).drop_last() == controls@.take(i as int));
            assert(controls@.take(i + 1).last() == c);
            if c.rank_of() == n {
                let ghost w = with_rank(controls@.take(i as int), n);
                r.push(c);
                assert((before + w).push(c) == before + w.push(c));
            }
            i = i + 1;
        }
        assert(controls@.take(i as int) == controls@);
        n = n + 1;
    }
    r
}

/// Human-readable chord label.
pub open spec fn gesture_label(controls: Seq<GestureControl>) -> Seq<char> {
    if controls.len() == 0 {
        "None"@
    } else {
        joined(in_display_order(controls, CONTROL_COUNT))
    }
}

/// Human-readable chord label (`L2 + R2 + L3 + R3`).
pub fn format_gesture(controls: &[GestureControl]) -> (r: String)
    ensures
        r@ == gesture_label(controls@),
{
    if controls.len() == 0 {
        return text::own("None");
    }
    let sorted = sort_controls(controls);
    let mut out: String = String::new();
    let mut i: usize = 0;
    while i < sorted.len()
        invariant
            i <= sorted@.len(),
            out@ == joined(sorted@.take(i as int)),
        decreases sorted@.len() - i,
    {
        assert(sorted@.take(i + 1).drop_last() == sorted@.take(i as int));
        assert(sorted@.take(i + 1).last() == sorted@[i as int]);
        if i > 0 {
            out.append(" + ");
        }
        out.append(sorted[i].as_str());
        assert(i == 0 ==> Seq::<char>::empty() + sorted@[0].label() == sorted@[0].label());
        i = i + 1;
    }
    assert(sorted@.take(i as int) == sorted@);
    out
}

// ---------------------------------------------------------------------------
// Detector
// ---------------------------------------------------------------------------

/// Whether every required control is held.
pub open spec fn all_held(required: Seq<GestureControl>, held: Set<GestureControl>) -> bool {
    forall|i: int| 0 <= i < required.len() ==> held.contains(#[trigger] required[i])
}

/// Rising-edge detector for a held chord (superset OK).
#[derive(Debug, Clone, Copy, PartialEq, Eq, Structural)]
pub struct GestureDetector {
    pub armed: bool,
}

impl Default for GestureDetector {
    fn default() -> (r: Self)
        ensures
            !r.armed,
    {
        GestureDetector { armed: false }
    }
}

impl GestureDetector {
    /// A detector that has seen nothing.
    pub fn new() -> (r: Self)
        ensures
            !r.armed,
    {
        GestureDetector { armed: false }
    }

    /// State behind an update.
    pub open spec fn armed_by(required: Seq<GestureControl>, held: Set<GestureControl>) -> bool {
        required.len() > 0 && all_held(required, held)
    }

    /// Whether an update fires.
    pub open spec fn fires(
        armed: bool,
        required: Seq<GestureControl>,
        held: Set<GestureControl>,
    ) -> bool {
        Self::armed_by(required, held) && !armed
    }

    /// Returns true once when every required control is held, then stays silent
    /// until at least one required control is released.
    pub fn update(&mut self, required: &[GestureControl], held: &ControlSet) -> (r: bool)
        ensures
            r == Self::fires(old(self).armed, required@, held@),
            final(self).armed == Self::armed_by(required@, held@),
    {
        if required.len() == 0 {
            self.armed = false;
            return false;
        }
        let mut i: usize = 0;
        while i < required.len()
            invariant
                i <= required@.len(),
                *self == *old(self),
                forall|k: int| 0 <= k < i ==> held@.contains(#[trigger] required@[k]),
            decreases required@.len() - i,
        {
            if !held.contains(required[i]) {
                self.armed = false;
                assert(!held@.contains(required@[i as int]));
                return false;
            }
            i = i + 1;
        }
        let fired = !self.armed;
        self.armed = true;
        fired
    }

    /// Forgets what is held.
    pub fn reset(&mut self)
        ensures
            !final(self).armed,
    {
        self.armed = false;
    }
}

/// Detector state behind a run of updates with one chord.
pub open spec fn armed_after(
    armed: bool,
    required: Seq<GestureControl>,
    holds: Seq<Set<GestureControl>>,
) -> bool
    decreases holds.len(),
{
    if holds.len() == 0 {
        armed
    } else {
        GestureDetector::armed_by(required, holds.last())
    }
}

/// Once fired, a chord stays silent for as long as every required control is held,
/// whatever else is pressed meanwhile.
pub proof fn law_silent_until_released(
    armed: bool,
    required: Seq<GestureControl>,
    first: Set<GestureControl>,
    later: Seq<Set<GestureControl>>,
    last: Set<GestureControl>,
)
    requires
        GestureDetector::fires(armed, required, first),
        forall|i: int| 0 <= i < later.len() ==> all_held(required, #[trigger] later[i]),
    ensures
        !GestureDetector::fires(
            armed_after(GestureDetector::armed_by(required, first), required, later),
            required,
            last,
        ),
{
    if later.len() > 0 {
        assert(all_held(required, later[later.len() - 1]));
    }
}

/// Releasing a required control lets the chord fire again.
pub proof fn law_fires_again_after_release(
    required: Seq<GestureControl>,
    released: Set<GestureControl>,
    held: Set<GestureControl>,
)
    requires
        required.len() > 0,
        !all_held(required, released),
        all_held(required, held),
    ensures
        GestureDetector::fires(GestureDetector::armed_by(required, released), required, held),
{
}

// ---------------------------------------------------------------------------
// Recorder
// ---------------------------------------------------------------------------

/// The larger of two held sets, the earlier one where they are as large.
pub open spec fn larger_hold(
    peak: Set<GestureControl>,
    held: Set<GestureControl>,
) -> Set<GestureControl> {
    if held.len() > peak.len() {
        held
    } else {
        peak
    }
}

/// Peak-set recorder for a new gesture.
#[derive(Debug, Clone, Copy, PartialEq, Eq, Structural)]
pub struct GestureRecorder {
    pub active: bool,
    pub saw_input: bool,
    pub peak: ControlSet,
}

impl Default for GestureRecorder {
    fn default() -> (r: Self)
        ensures
            !r.active,
            !r.saw_input,
            r.peak@ == Set::<GestureControl>::empty(),
    {
        GestureRecorder { active: false, saw_input: false, peak: ControlSet::new() }
    }
}

impl GestureRecorder {
    /// Starts a recording.
    pub fn start(&mut self)
        ensures
            final(self).active,
            !final(self).saw_input,
            final(self).peak@ == Set::<GestureControl>::empty(),
    {
        self.active = true;
        self.saw_input = false;
        self.peak.clear();
    }

    /// Drops the recording.
    pub fn cancel(&mut self)
        ensures
            !final(self).active,
            !final(self).saw_input,
            final(self).peak@ == Set::<GestureControl>::empty(),
    {
        self.active = false;
        self.saw_input = false;
        self.peak.clear();
    }

    /// Whether a recording runs.
    pub fn is_active(&self) -> (r: bool)
        ensures
            r == self.active,
    {
        self.active
    }

    /// The largest set held at one time so far.
    pub fn peak(&self) -> (r: &ControlSet)
        ensures
            *r == self.peak,
    {
        &self.peak
    }

    /// Feed the current held set. When the user releases after holding something,
    /// returns the peak simultaneous set (at least one control): of the sets held at one
    /// time the largest, and of several such the first.
    pub fn update(&mut self, held: &ControlSet) -> (r: Option<Vec<GestureControl>>)
        ensures
            old(self).active && held@ != Set::<GestureControl>::empty() ==> {
                &&& r is None
                &&& final(self).active
                &&& final(self).saw_input
                &&& final(self).peak@ == larger_hold(old(self).peak@, held@)
            },
            old(self).active && held@ == Set::<GestureControl>::empty() && old(self).saw_input
                && old(self).peak@ != Set::<GestureControl>::empty() ==> {
                &&& r matches Some(v) && v@ == members(old(self).peak@)
                &&& !final(self).active
                &&& !final(self).saw_input
                &&& final(self).peak@ == Set::<GestureControl>::empty()
            },
            !old(self).active || (held@ == Set::<GestureControl>::empty() && !(old(self).saw_input
                && old(self).peak@ != Set::<GestureControl>::empty())) ==> r is None
                && *final(self) == *old(self),
    {
        if !self.active {
            return None;
        }
        if !held.is_empty() {
            self.saw_input = true;
            if held.len() > self.peak.len() {
                self.peak = *held;
            }
            return None;
        }
        if self.saw_input && !self.peak.is_empty() {
            let result = self.peak.to_vec();
            self.cancel();
            Some(result)
        } else {
            None
        }
    }
}

/// Peak behind a run of held sets, each of which [`GestureRecorder::update`] takes in.
pub open spec fn peak_after(
    peak: Set<GestureControl>,
    holds: Seq<Set<GestureControl>>,
) -> Set<GestureControl>
    decreases holds.len(),
{
    if holds.len() == 0 {
        peak
    } else {
        larger_hold(peak_after(peak, holds.drop_last()), holds.last())
    }
}

/// What is recorded was held at one time, and never were more controls held together.
pub proof fn law_recording_is_a_largest_hold(holds: Seq<Set<GestureControl>>)
    requires
        holds.len() > 0,
    ensures
        holds.contains(peak_after(Set::empty(), holds)),
        forall|i: int|
            0 <= i < holds.len() ==> (#[trigger] holds[i]).len() <= peak_after(
                Set::empty(),
                holds,
            ).len(),
    decreases holds.len(),
{
    let init = holds.drop_last();
    let last = holds.last();
    let p = peak_after(Set::empty(), holds);
    lemma_members_count(last);
    assert(holds[holds.len() - 1] == last);
    if init.len() > 0 {
        law_recording_is_a_largest_hold(init);
        let q = peak_after(Set::empty(), init);
        let i = choose|i: int| 0 <= i < init.len() && init[i] == q;
        assert(holds[i] == q);
        assert forall|i: int| 0 <= i < holds.len() implies (#[trigger] holds[i]).len()
            <= p.len() by {
            if i < init.len() {
                assert(init[i] == holds[i]);
            }
        }
    } else {
        assert(peak_after(Set::empty(), init) == Set::<GestureControl>::empty());
        if last.len() == 0 {
            assert(last =~= Set::<GestureControl>::empty());
        }
    }
}

} // verus!
