//! Step samples and the durations estimated from them.
use crate::text;
use vstd::prelude::*;
use vstd::string::StringExecFns;

verus! {

/// How many durations to keep per step edge.
pub const STEP_RING_CAP: usize = 3;

/// Full pack.
pub const FULL_PERCENT: u8 = 100;

pub const MIN_STEP_SECS: u64 = 60;

pub const MAX_STEP_SECS: u64 = 21600;

/// Which way a battery moves.
#[derive(Debug, Clone, Copy, PartialEq, Eq, Structural)]
pub enum BucketDirection {
    Drain,
    Charge,
}

/// In-progress time in the current bucket (not a session).
#[derive(Debug, Clone, Copy, PartialEq, Eq, Structural)]
pub struct InProgressBucket {
    pub direction: BucketDirection,
    pub percent: u8,
    pub active_ms: u64,
}

/// Last duration samples for one directed percent edge.
#[derive(Debug, Clone, PartialEq, Eq)]
pub struct StepSample {
    pub from_percent: u8,
    pub to_percent: u8,
    pub samples_ms: Vec<u64>,
}

/// Model of [`StepSample`].
#[verifier::ext_equal]
pub struct StepView {
    pub from: u8,
    pub to: u8,
    pub samples: Seq<u64>,
}

impl View for StepSample {
    type V = StepView;

    open spec fn view(&self) -> StepView {
        StepView { from: self.from_percent, to: self.to_percent, samples: self.samples_ms@ }
    }
}

/// Models of a list of steps.
pub open spec fn step_views(v: Seq<StepSample>) -> Seq<StepView> {
    Seq::new(v.len(), |i: int| v[i]@)
}

// ---------------------------------------------------------------------------
// Levels and edges
// ---------------------------------------------------------------------------

/// Last index of the reported levels.
pub const LAST_LEVEL: usize = 10;

/// Reported percentages, high to low: 100, then 95, 85, .., 5.
pub open spec fn level(i: int) -> u8 {
    if i == 0 {
        100
    } else {
        (105 - 10 * i) as u8
    }
}

/// Reported percentages in the order in which a battery passes them.
pub open spec fn level_along(direction: BucketDirection, i: int) -> u8 {
    match direction {
        BucketDirection::Drain => level(i),
        BucketDirection::Charge => level(LAST_LEVEL - i),
    }
}

fn level_at(direction: BucketDirection, i: usize) -> (r: u8)
    requires
        i <= LAST_LEVEL,
    ensures
        r == level_along(direction, i as int),
{
    let k: usize = match direction {
        BucketDirection::Drain => i,
        BucketDirection::Charge => LAST_LEVEL - i,
    };
    if k == 0 {
        100
    } else {
        105 - 10 * k as u8
    }
}

/// Edges between the levels from index `a` to index `b`.
pub open spec fn edges(direction: BucketDirection, a: int, b: int) -> Seq<(u8, u8)> {
    Seq::new(
        (b - a) as nat,
        |k: int| (level_along(direction, a + k), level_along(direction, a + k + 1)),
    )
}

/// Every edge of a direction.
pub open spec fn all_edges(direction: BucketDirection) -> Seq<(u8, u8)> {
    edges(direction, 0, LAST_LEVEL as int)
}

fn make_edges(direction: BucketDirection, a: usize, b: usize) -> (r: Vec<(u8, u8)>)
    requires
        a <= b <= LAST_LEVEL,
    ensures
        r@ == edges(direction, a as int, b as int),
{
    let ghost want = edges(direction, a as int, b as int);
    let mut r: Vec<(u8, u8)> = Vec::new();
    let mut k: usize = a;
    while k < b
        invariant
            a <= k <= b <= LAST_LEVEL,
            want == edges(direction, a as int, b as int),
            r@ == want.take(k - a),
        decreases b - k,
    {
        let e = (level_at(direction, k), level_at(direction, k + 1));
        assert(want[k - a] == e);
        r.push(e);
        assert(want.take(k + 1 - a) == want.take(k - a).push(e));
        k = k + 1;
    }
    assert(want.take(k - a) == want);
    r
}

/// Drain edges from full to empty.
pub fn drain_edges() -> (r: Vec<(u8, u8)>)
    ensures
        r@ == all_edges(BucketDirection::Drain),
{
    make_edges(BucketDirection::Drain, 0, LAST_LEVEL)
}

/// Charge edges from empty to full.
pub fn charge_edges() -> (r: Vec<(u8, u8)>)
    ensures
        r@ == all_edges(BucketDirection::Charge),
{
    make_edges(BucketDirection::Charge, 0, LAST_LEVEL)
}

/// Whether a battery at `current` has still to reach `level`, or is just there.
pub open spec fn ahead(direction: BucketDirection, level: u8, current: u8) -> bool {
    match direction {
        BucketDirection::Drain => level <= current,
        BucketDirection::Charge => level >= current,
    }
}

/// First level index from `i` on that is ahead of `current`; 11 when there is none.
pub open spec fn first_ahead(direction: BucketDirection, current: u8, i: int) -> int
    decreases LAST_LEVEL + 1 - i,
{
    if i > LAST_LEVEL {
        LAST_LEVEL + 1
    } else if ahead(direction, level_along(direction, i), current) {
        i
    } else {
        first_ahead(direction, current, i + 1)
    }
}

/// Edges left from `current` to the end of the direction; none when there is no edge.
pub open spec fn edges_from(direction: BucketDirection, current: u8) -> Option<Seq<(u8, u8)>> {
    let start = first_ahead(direction, current, 0);
    if start >= LAST_LEVEL {
        None
    } else {
        Some(edges(direction, start, LAST_LEVEL as int))
    }
}

fn find_edges_from(direction: BucketDirection, current: u8) -> (r: Option<Vec<(u8, u8)>>)
    ensures
        match r {
            Some(v) => edges_from(direction, current) == Some(v@),
            None => edges_from(direction, current) is None,
        },
{
    let mut i: usize = 0;
    while i <= LAST_LEVEL
        invariant
            i <= LAST_LEVEL + 1,
            first_ahead(direction, current, 0) == first_ahead(direction, current, i as int),
        decreases LAST_LEVEL + 1 - i,
    {
        let l: u8 = level_at(direction, i);
        let is_ahead = match direction {
            BucketDirection::Drain => l <= current,
            BucketDirection::Charge => l >= current,
        };
        if is_ahead {
            if i >= LAST_LEVEL {
                return None;
            }
            return Some(make_edges(direction, i, LAST_LEVEL));
        }
        i = i + 1;
    }
    None
}

/// Drain edges left from `current`.
pub fn drain_edges_from(current: u8) -> (r: Option<Vec<(u8, u8)>>)
    ensures
        match r {
            Some(v) => edges_from(BucketDirection::Drain, current) == Some(v@),
            None => edges_from(BucketDirection::Drain, current) is None,
        },
{
    find_edges_from(BucketDirection::Drain, current)
}

/// Charge edges left from `current`.
pub fn charge_edges_from(current: u8) -> (r: Option<Vec<(u8, u8)>>)
    ensures
        match r {
            Some(v) => edges_from(BucketDirection::Charge, current) == Some(v@),
            None => edges_from(BucketDirection::Charge, current) is None,
        },
{
    find_edges_from(BucketDirection::Charge, current)
}

/// Index from `i` on of the level `percent`; 11 when it is no level.
pub open spec fn level_index(direction: BucketDirection, percent: u8, i: int) -> int
    decreases LAST_LEVEL + 1 - i,
{
    if i > LAST_LEVEL {
        LAST_LEVEL + 1
    } else if level_along(direction, i) == percent {
        i
    } else {
        level_index(direction, percent, i + 1)
    }
}

fn find_level(direction: BucketDirection, percent: u8) -> (r: usize)
    ensures
        r == level_index(direction, percent, 0),
        r <= LAST_LEVEL + 1,
{
    let mut i: usize = 0;
    while i <= LAST_LEVEL
        invariant
            i <= LAST_LEVEL + 1,
            level_index(direction, percent, 0) == level_index(direction, percent, i as int),
        decreases LAST_LEVEL + 1 - i,
    {
        if level_at(direction, i) == percent {
            return i;
        }
        i = i + 1;
    }
    i
}

/// Edges that a move from one level to another passes; none when either is no level or
/// the move goes the other way.
pub open spec fn passed_edges(direction: BucketDirection, from: u8, to: u8) -> Seq<(u8, u8)> {
    let a = level_index(direction, from, 0);
    let b = level_index(direction, to, 0);
    if a <= LAST_LEVEL && b <= LAST_LEVEL && a < b {
        edges(direction, a, b)
    } else {
        seq![]
    }
}

/// Edges that a move from one level to another passes.
pub fn expand(direction: BucketDirection, from: u8, to: u8) -> (r: Vec<(u8, u8)>)
    ensures
        r@ == passed_edges(direction, from, to),
        r@.len() <= LAST_LEVEL,
{
    let a: usize = find_level(direction, from);
    let b: usize = find_level(direction, to);
    if a <= LAST_LEVEL && b <= LAST_LEVEL && a < b {
        make_edges(direction, a, b)
    } else {
        Vec::new()
    }
}

// ---------------------------------------------------------------------------
// Samples
// ---------------------------------------------------------------------------

/// Index of the step with an edge, or the number of steps.
pub open spec fn step_index(steps: Seq<StepView>, from: u8, to: u8) -> int
    decreases steps.len(),
{
    if steps.len() == 0 {
        0
    } else if steps[0].from == from && steps[0].to == to {
        0
    } else {
        1 + step_index(steps.drop_first(), from, to)
    }
}

/// A step is found at the first place with its edge.
pub proof fn lemma_step_index(steps: Seq<StepView>, from: u8, to: u8)
    ensures
        0 <= step_index(steps, from, to) <= steps.len(),
        step_index(steps, from, to) < steps.len() ==> steps[step_index(steps, from, to)].from
            == from && steps[step_index(steps, from, to)].to == to,
    decreases steps.len(),
{
    if steps.len() > 0 {
        lemma_step_index(steps.drop_first(), from, to);
    }
}

/// The last samples that are kept.
pub open spec fn last_samples(s: Seq<u64>) -> Seq<u64> {
    if s.len() > STEP_RING_CAP {
        s.skip(s.len() - STEP_RING_CAP)
    } else {
        s
    }
}

/// Steps with one more sample for an edge.
pub open spec fn with_sample(
    steps: Seq<StepView>,
    from: u8,
    to: u8,
    duration: u64,
) -> Seq<StepView> {
    let i = step_index(steps, from, to);
    if i < steps.len() {
        steps.update(
            i,
            StepView { from, to, samples: last_samples(steps[i].samples.push(duration)) },
        )
    } else {
        steps.push(StepView { from, to, samples: seq![duration] })
    }
}

fn find_step(steps: &Vec<StepSample>, from: u8, to: u8) -> (r: usize)
    ensures
        r == step_index(step_views(steps@), from, to),
        r <= steps@.len(),
        r < steps@.len() ==> steps@[r as int].from_percent == from && steps@[r as int].to_percent
            == to,
{
    let ghost sv = step_views(steps@);
    let mut i: usize = 0;
    assert(sv.skip(0) == sv);
    while i < steps.len()
        invariant
            i <= steps@.len(),
            sv == step_views(steps@),
            step_index(sv, from, to) == i + step_index(sv.skip(i as int), from, to),
        decreases steps@.len() - i,
    {
        assert(sv.skip(i as int)[0] == steps@[i as int]@);
        assert(sv.skip(i as int).drop_first() == sv.skip(i + 1));
        if steps[i].from_percent == from && steps[i].to_percent == to {
            return i;
        }
        i = i + 1;
    }
    i
}

/// Adds a sample for an edge; only the last three are kept.
pub fn push_step_sample(steps: &mut Vec<StepSample>, from: u8, to: u8, duration_ms: u64)
    ensures
        step_views(final(steps)@) == with_sample(step_views(old(steps)@), from, to, duration_ms),
{
    let ghost sv = step_views(steps@);
    let i: usize = find_step(steps, from, to);
    if i < steps.len() {
        let mut samples: Vec<u64> = Vec::new();
        let n: usize = steps[i].samples_ms.len();
        let ghost old_samples = steps@[i as int].samples_ms@;
        let ghost all = old_samples.push(duration_ms);
        let mut k: usize = if n >= STEP_RING_CAP {
            n - (STEP_RING_CAP - 1)
        } else {
            0
        };
        let ghost k0 = k as int;
        while k < n
            invariant
                0 <= k0 <= k <= n,
                i < steps@.len(),
                n == old_samples.len(),
                old_samples == steps@[i as int].samples_ms@,
                all == old_samples.push(duration_ms),
                samples@ == all.subrange(k0, k as int),
            decreases n - k,
        {
            samples.push(steps[i].samples_ms[k]);
            assert(samples@ =~= all.subrange(k0, k + 1));
            k = k + 1;
        }
        samples.push(duration_ms);
        assert(samples@ =~= last_samples(all));
        let step = StepSample { from_percent: from, to_percent: to, samples_ms: samples };
        steps.set(i, step);
        assert(step_views(steps@) =~= sv.update(i as int, step@));
    } else {
        let mut samples: Vec<u64> = Vec::new();
        samples.push(duration_ms);
        let step = StepSample { from_percent: from, to_percent: to, samples_ms: samples };
        assert(step@.samples =~= seq![duration_ms]);
        steps.push(step);
        assert(step_views(steps@) =~= sv.push(step@));
    }
}

/// At most three samples are kept per edge, the newest among them.
pub proof fn law_ring_keeps_three(samples: Seq<u64>, duration: u64)
    ensures
        last_samples(samples.push(duration)).len() <= STEP_RING_CAP,
        last_samples(samples.push(duration)).last() == duration,
        samples.len() < STEP_RING_CAP ==> last_samples(samples.push(duration)) == samples.push(
            duration,
        ),
{
}

/// Adding a sample keeps every edge that has samples, in its place, with samples.
pub proof fn law_samples_keep_edges(steps: Seq<StepView>, from: u8, to: u8, duration: u64, i: int)
    requires
        0 <= i < steps.len(),
        steps[i].samples.len() > 0,
    ensures
        ({
            let next = with_sample(steps, from, to, duration);
            &&& next.len() >= steps.len()
            &&& next[i].from == steps[i].from
            &&& next[i].to == steps[i].to
            &&& next[i].samples.len() > 0
        }),
{
    lemma_step_index(steps, from, to);
}

// ---------------------------------------------------------------------------
// Medians
// ---------------------------------------------------------------------------

/// `q` with `x` put behind every number that is not above it.
pub open spec fn insert_number(q: Seq<u64>, x: u64) -> Seq<u64>
    decreases q.len(),
{
    if q.len() == 0 || q.last() <= x {
        q.push(x)
    } else {
        insert_number(q.drop_last(), x).push(q.last())
    }
}

/// Numbers in ascending order.
pub open spec fn in_ascending_order(s: Seq<u64>) -> Seq<u64>
    decreases s.len(),
{
    if s.len() == 0 {
        seq![]
    } else {
        insert_number(in_ascending_order(s.drop_last()), s.last())
    }
}

proof fn lemma_insert_number(q: Seq<u64>, x: u64)
    requires
        forall|i: int, j: int| 0 <= i <= j < q.len() ==> q[i] <= q[j],
    ensures
        insert_number(q, x).len() == q.len() + 1,
        insert_number(q, x).to_multiset() == q.to_multiset().insert(x),
        forall|i: int, j: int|
            0 <= i <= j < insert_number(q, x).len() ==> insert_number(q, x)[i] <= insert_number(
                q,
                x,
            )[j],
        q.len() > 0 ==> insert_number(q, x).last() == if q.last() <= x {
            x
        } else {
            q.last()
        },
        q.len() == 0 ==> insert_number(q, x).last() == x,
    decreases q.len(),
{
    if q.len() == 0 || q.last() <= x {
        vstd::seq_lib::to_multiset_build(q, x);
    } else {
        let init = q.drop_last();
        lemma_insert_number(init, x);
        assert(q == init.push(q.last()));
        vstd::seq_lib::to_multiset_build(init, q.last());
        vstd::seq_lib::to_multiset_build(insert_number(init, x), q.last());
        assert(insert_number(q, x).to_multiset() =~= q.to_multiset().insert(x));
    }
}

/// Ordering keeps every number and ascends.
pub proof fn lemma_in_ascending_order(s: Seq<u64>)
    ensures
        in_ascending_order(s).len() == s.len(),
        in_ascending_order(s).to_multiset() == s.to_multiset(),
        forall|i: int, j: int|
            0 <= i <= j < s.len() ==> in_ascending_order(s)[i] <= in_ascending_order(s)[j],
    decreases s.len(),
{
    if s.len() > 0 {
        lemma_in_ascending_order(s.drop_last());
        lemma_insert_number(in_ascending_order(s.drop_last()), s.last());
        assert(s == s.drop_last().push(s.last()));
        vstd::seq_lib::to_multiset_build(s.drop_last(), s.last());
    } else {
        assert(s == Seq::<u64>::empty());
    }
}

/// Middle of the ordered samples; for an even number the mean of the two middle ones.
pub open spec fn median(samples: Seq<u64>) -> Option<u64> {
    let q = in_ascending_order(samples);
    let mid = q.len() as int / 2;
    if samples.len() == 0 {
        None
    } else if q.len() % 2 == 0 {
        Some(((q[mid - 1] + q[mid]) / 2) as u64)
    } else {
        Some(q[mid])
    }
}

fn insert_sorted(q: &mut Vec<u64>, x: u64)
    ensures
        final(q)@ == insert_number(old(q)@, x),
    decreases old(q)@.len(),
{
    let n: usize = q.len();
    if n > 0 {
        let last: u64 = q[n - 1];
        if last > x {
            q.pop();
            assert(q@ == old(q)@.drop_last());
            insert_sorted(q, x);
            q.push(last);
            return;
        }
    }
    q.push(x);
}

/// Median of the samples.
pub fn median_ms(samples: &[u64]) -> (r: Option<u64>)
    ensures
        r == median(samples@),
{
    if samples.len() == 0 {
        return None;
    }
    let mut sorted: Vec<u64> = Vec::new();
    let mut i: usize = 0;
    while i < samples.len()
        invariant
            i <= samples@.len(),
            sorted@ == in_ascending_order(samples@.take(i as int)),
        decreases samples@.len() - i,
    {
        assert(samples@.take(i + 1).drop_last() == samples@.take(i as int));
        assert(samples@.take(i + 1).last() == samples@[i as int]);
        insert_sorted(&mut sorted, samples[i]);
        i = i + 1;
    }
    assert(samples@.take(i as int) == samples@);
    proof {
        lemma_in_ascending_order(samples@);
    }
    let mid: usize = sorted.len() / 2;
    if sorted.len() % 2 == 0 {
        let sum: u128 = sorted[mid - 1] as u128 + sorted[mid] as u128;
        Some((sum / 2) as u64)
    } else {
        Some(sorted[mid])
    }
}

/// Median of the samples of an edge.
pub open spec fn edge_median(steps: Seq<StepView>, from: u8, to: u8) -> Option<u64> {
    let i = step_index(steps, from, to);
    if i < steps.len() {
        median(steps[i].samples)
    } else {
        None
    }
}

/// Median of the samples of an edge.
pub fn step_median(steps: &Vec<StepSample>, from: u8, to: u8) -> (r: Option<u64>)
    ensures
        r == edge_median(step_views(steps@), from, to),
{
    let i: usize = find_step(steps, from, to);
    if i < steps.len() {
        assert(step_views(steps@)[i as int] == steps@[i as int]@);
        median_ms(steps[i].samples_ms.as_slice())
    } else {
        None
    }
}

// ---------------------------------------------------------------------------
// Estimates
// ---------------------------------------------------------------------------

/// The half bucket at the top: recorded, but never a rate source.
pub open spec fn half_bucket(from: u8, to: u8) -> bool {
    (from == FULL_PERCENT && to == 95) || (from == 95 && to == FULL_PERCENT)
}

fn is_half_bucket_edge(from: u8, to: u8) -> (r: bool)
    ensures
        r == half_bucket(from, to),
{
    (from == FULL_PERCENT && to == 95) || (from == 95 && to == FULL_PERCENT)
}

/// Distance of two percentages.
pub open spec fn distance(from: u8, to: u8) -> int {
    if from >= to {
        from - to
    } else {
        to - from
    }
}

fn percent_delta(from: u8, to: u8) -> (r: u64)
    ensures
        r == distance(from, to),
        r <= 255,
{
    if from >= to {
        (from - to) as u64
    } else {
        (to - from) as u64
    }
}

/// Rate of a step: its median per percent, when it qualifies.
pub open spec fn step_rate(step: StepView) -> Option<u64> {
    if half_bucket(step.from, step.to) || step.from == step.to {
        None
    } else {
        match median(step.samples) {
            Some(med) => Some((med as int / distance(step.from, step.to)) as u64),
            None => None,
        }
    }
}

/// Rates of the qualifying steps.
pub open spec fn rates(steps: Seq<StepView>) -> Seq<u64>
    decreases steps.len(),
{
    if steps.len() == 0 {
        seq![]
    } else {
        match step_rate(steps.last()) {
            Some(rate) => rates(steps.drop_last()).push(rate),
            None => rates(steps.drop_last()),
        }
    }
}

/// Median rate of the qualifying steps, in ms per percent.
pub open spec fn default_rate(steps: Seq<StepView>) -> Option<u64> {
    median(rates(steps))
}

fn default_rate_ms_per_percent(steps: &Vec<StepSample>) -> (r: Option<u64>)
    ensures
        r == default_rate(step_views(steps@)),
{
    let ghost sv = step_views(steps@);
    let mut found: Vec<u64> = Vec::new();
    let mut i: usize = 0;
    while i < steps.len()
        invariant
            i <= steps@.len(),
            sv == step_views(steps@),
            found@ == rates(sv.take(i as int)),
        decreases steps@.len() - i,
    {
        let step = &steps[i];
        assert(sv.take(i + 1).drop_last() == sv.take(i as int));
        assert(sv.take(i + 1).last() == step@);
        if !is_half_bucket_edge(step.from_percent, step.to_percent) && step.from_percent
            != step.to_percent {
            if let Some(med) = median_ms(step.samples_ms.as_slice()) {
                let delta: u64 = percent_delta(step.from_percent, step.to_percent);
                found.push(med / delta);
            }
        }
        i = i + 1;
    }
    assert(sv.take(i as int) == sv);
    median_ms(found.as_slice())
}

/// `n`, or the largest number when `n` is above it.
pub open spec fn capped(n: int) -> u64 {
    if n > u64::MAX {
        u64::MAX
    } else {
        n as u64
    }
}

/// Expected duration of an edge: measured, else the rate times its percentages.
pub open spec fn edge_ms(steps: Seq<StepView>, rate: u64, e: (u8, u8)) -> u64 {
    match edge_median(steps, e.0, e.1) {
        Some(med) => med,
        None => capped(rate * distance(e.0, e.1)),
    }
}

fn times(rate: u64, delta: u64) -> (r: u64)
    requires
        delta <= 255,
    ensures
        r == capped(rate * delta),
{
    assert(0 <= rate * delta <= 0xffff_ffff_ffff_ffff * 255) by (nonlinear_arith)
        requires
            0 <= rate <= 0xffff_ffff_ffff_ffff,
            0 <= delta <= 255,
    ;
    let wide: u128 = rate as u128 * delta as u128;
    if wide > u64::MAX as u128 {
        u64::MAX
    } else {
        wide as u64
    }
}

/// Sum of the expected durations of `path`.
pub open spec fn path_ms(steps: Seq<StepView>, rate: u64, path: Seq<(u8, u8)>) -> u64
    decreases path.len(),
{
    if path.len() == 0 {
        0
    } else {
        capped(path_ms(steps, rate, path.drop_last()) + edge_ms(steps, rate, path.last()))
    }
}

/// Expected duration of a path; nothing without a qualifying step.
pub open spec fn chain_ms(steps: Seq<StepView>, path: Seq<(u8, u8)>) -> Option<u64> {
    if path.len() == 0 {
        None
    } else {
        match default_rate(steps) {
            Some(rate) => Some(path_ms(steps, rate, path)),
            None => None,
        }
    }
}

/// Expected duration of a path: measured medians where present, else rate times percentages.
pub fn speculative_chain_ms(steps: &Vec<StepSample>, path: &Vec<(u8, u8)>) -> (r: Option<u64>)
    ensures
        r == chain_ms(step_views(steps@), path@),
{
    if path.len() == 0 {
        return None;
    }
    let rate = match default_rate_ms_per_percent(steps) {
        Some(rate) => rate,
        None => return None,
    };
    let ghost sv = step_views(steps@);
    let mut total: u64 = 0;
    let mut i: usize = 0;
    while i < path.len()
        invariant
            i <= path@.len(),
            sv == step_views(steps@),
            total == path_ms(sv, rate, path@.take(i as int)),
        decreases path@.len() - i,
    {
        let (from, to) = path[i];
        assert(path@.take(i + 1).drop_last() == path@.take(i as int));
        assert(path@.take(i + 1).last() == path@[i as int]);
        let ms: u64 = match step_median(steps, from, to) {
            Some(med) => med,
            None => times(rate, percent_delta(from, to)),
        };
        total = total.saturating_add(ms);
        i = i + 1;
    }
    assert(path@.take(i as int) == path@);
    Some(total)
}

/// Expected duration of one edge; nothing for an edge without percentages or without any
/// qualifying step.
pub open spec fn edge_duration(steps: Seq<StepView>, from: u8, to: u8) -> Option<u64> {
    if from == to {
        None
    } else {
        match edge_median(steps, from, to) {
            Some(med) => Some(med),
            None => match default_rate(steps) {
                Some(rate) => Some(capped(rate * distance(from, to))),
                None => None,
            },
        }
    }
}

fn edge_duration_ms(steps: &Vec<StepSample>, from: u8, to: u8) -> (r: Option<u64>)
    ensures
        r == edge_duration(step_views(steps@), from, to),
{
    if from == to {
        return None;
    }
    if let Some(med) = step_median(steps, from, to) {
        return Some(med);
    }
    match default_rate_ms_per_percent(steps) {
        Some(rate) => Some(times(rate, percent_delta(from, to))),
        None => None,
    }
}

/// `a - b`, at least zero.
pub open spec fn less(a: u64, b: u64) -> u64 {
    if a >= b {
        (a - b) as u64
    } else {
        0
    }
}

/// Remaining time on a path with the time already spent in its first bucket taken off, at
/// most the whole of that bucket.
pub open spec fn remaining_ms(
    chain: u64,
    path: Seq<(u8, u8)>,
    steps: Seq<StepView>,
    in_progress: Option<InProgressBucket>,
    direction: BucketDirection,
    percent: u8,
) -> u64 {
    match in_progress {
        Some(p) => if p.direction == direction && p.percent == percent && path.len() > 0
            && path[0].0 == percent {
            match edge_duration(steps, path[0].0, path[0].1) {
                Some(edge) => less(
                    chain,
                    if p.active_ms <= edge {
                        p.active_ms
                    } else {
                        edge
                    },
                ),
                None => chain,
            }
        } else {
            chain
        },
        None => chain,
    }
}

/// Subtracts elapsed time in the current bucket from a full remaining-path sum. Clamps so
/// that the remaining time never drops below the path from the next breakpoint.
pub fn interpolate_remaining_ms(
    chain: u64,
    path: &Vec<(u8, u8)>,
    steps: &Vec<StepSample>,
    in_progress: Option<InProgressBucket>,
    direction: BucketDirection,
    percent: u8,
) -> (r: u64)
    ensures
        r == remaining_ms(chain, path@, step_views(steps@), in_progress, direction, percent),
{
    let progress = match in_progress {
        Some(p) => p,
        None => return chain,
    };
    if progress.direction != direction || progress.percent != percent {
        return chain;
    }
    if path.len() == 0 {
        return chain;
    }
    let (from, to) = path[0];
    if from != percent {
        return chain;
    }
    let edge: u64 = match edge_duration_ms(steps, from, to) {
        Some(e) => e,
        None => return chain,
    };
    let elapsed: u64 = if progress.active_ms <= edge {
        progress.active_ms
    } else {
        edge
    };
    chain.saturating_sub(elapsed)
}

/// However long a bucket has lasted, the remaining time never drops below the path from
/// the next breakpoint, and never exceeds the whole path.
pub proof fn law_remaining_is_clamped(
    path: Seq<(u8, u8)>,
    steps: Seq<StepView>,
    in_progress: Option<InProgressBucket>,
    direction: BucketDirection,
    percent: u8,
)
    requires
        path.len() > 0,
        path[0].0 != path[0].1,
        default_rate(steps) is Some,
        path_ms(steps, default_rate(steps)->0, path) < u64::MAX,
    ensures
        ({
            let rate = default_rate(steps)->0;
            let whole = path_ms(steps, rate, path);
            let rest = path_ms(steps, rate, path.drop_first());
            rest <= remaining_ms(whole, path, steps, in_progress, direction, percent) <= whole
        }),
{
    let rate = default_rate(steps)->0;
    lemma_path_first(steps, rate, path);
}

proof fn lemma_path_first(steps: Seq<StepView>, rate: u64, path: Seq<(u8, u8)>)
    requires
        path.len() > 0,
        path_ms(steps, rate, path) < u64::MAX,
    ensures
        path_ms(steps, rate, path) == edge_ms(steps, rate, path[0]) + path_ms(
            steps,
            rate,
            path.drop_first(),
        ),
    decreases path.len(),
{
    if path.len() == 1 {
        assert(path.drop_first() == Seq::<(u8, u8)>::empty());
        assert(path.drop_last() == Seq::<(u8, u8)>::empty());
        assert(path_ms(steps, rate, path.drop_last()) == 0);
    } else {
        let init = path.drop_last();
        lemma_path_first(steps, rate, init);
        assert(init.drop_first() == path.drop_first().drop_last());
        assert(path.drop_first().last() == path.last());
    }
}

/// The half bucket alone gives no estimate: without another measured step there is none.
pub proof fn law_half_bucket_alone_does_not_speculate(steps: Seq<StepView>, path: Seq<(u8, u8)>)
    requires
        forall|i: int|
            0 <= i < steps.len() ==> half_bucket((#[trigger] steps[i]).from, steps[i].to),
    ensures
        chain_ms(steps, path) is None,
{
    lemma_no_rates(steps);
}

proof fn lemma_no_rates(steps: Seq<StepView>)
    requires
        forall|i: int|
            0 <= i < steps.len() ==> half_bucket((#[trigger] steps[i]).from, steps[i].to),
    ensures
        rates(steps).len() == 0,
    decreases steps.len(),
{
    if steps.len() > 0 {
        assert(half_bucket(steps[steps.len() - 1].from, steps[steps.len() - 1].to));
        assert forall|i: int| 0 <= i < steps.drop_last().len() implies half_bucket(
            (#[trigger] steps.drop_last()[i]).from,
            steps.drop_last()[i].to,
        ) by {
            assert(steps.drop_last()[i] == steps[i]);
        }
        lemma_no_rates(steps.drop_last());
    }
}

// ---------------------------------------------------------------------------
// Coverage
// ---------------------------------------------------------------------------

/// One step on the coverage chart.
#[derive(Debug, Clone, Copy, PartialEq, Eq, Structural)]
pub struct StepCoverage {
    pub from_percent: u8,
    pub to_percent: u8,
    /// Measured median when this edge has samples.
    pub typical_ms: Option<u64>,
    /// True when unmeasured but a qualifying rate exists to fill this gap.
    pub speculative: bool,
}

/// Coverage of a path.
pub open spec fn coverage(steps: Seq<StepView>, path: Seq<(u8, u8)>) -> Seq<StepCoverage> {
    Seq::new(
        path.len(),
        |i: int|
            StepCoverage {
                from_percent: path[i].0,
                to_percent: path[i].1,
                typical_ms: edge_median(steps, path[i].0, path[i].1),
                speculative: edge_median(steps, path[i].0, path[i].1) is None && default_rate(
                    steps,
                ) is Some,
            },
    )
}

/// Coverage of a path.
pub fn coverage_list(steps: &Vec<StepSample>, path: &Vec<(u8, u8)>) -> (r: Vec<StepCoverage>)
    ensures
        r@ == coverage(step_views(steps@), path@),
{
    let ghost want = coverage(step_views(steps@), path@);
    let can_speculate = default_rate_ms_per_percent(steps).is_some();
    let mut r: Vec<StepCoverage> = Vec::new();
    let mut i: usize = 0;
    while i < path.len()
        invariant
            i <= path@.len(),
            want == coverage(step_views(steps@), path@),
            can_speculate == default_rate(step_views(steps@)) is Some,
            r@ == want.take(i as int),
        decreases path@.len() - i,
    {
        let (from, to) = path[i];
        let typical_ms = step_median(steps, from, to);
        let c = StepCoverage {
            from_percent: from,
            to_percent: to,
            typical_ms,
            speculative: typical_ms.is_none() && can_speculate,
        };
        assert(want[i as int] == c);
        r.push(c);
        assert(want.take(i + 1) =~= want.take(i as int).push(c));
        i = i + 1;
    }
    assert(want.take(i as int) == want);
    r
}

// ---------------------------------------------------------------------------
// Labels
// ---------------------------------------------------------------------------

/// Remaining-time hint (milliseconds).
#[derive(Debug, Clone, Copy, PartialEq, Eq, Structural)]
pub enum EtaHint {
    PlayLeft(u64),
    ChargeToFull(u64),
}

/// Display step for a duration: 30 minutes from 4 hours on, 15 from 2 hours on, else 5.
pub open spec fn display_step(total_mins: int) -> int {
    if total_mins >= 240 {
        30
    } else if total_mins >= 120 {
        15
    } else {
        5
    }
}

/// Minutes rounded down to the display step.
pub open spec fn floored(total_mins: int) -> int {
    (total_mins / display_step(total_mins)) * display_step(total_mins)
}

/// Floors minutes to the display tier of the unrounded duration.
pub fn floor_display_mins(total_mins: u64) -> (r: u64)
    ensures
        r == floored(total_mins as int),
        r <= total_mins,
{
    if total_mins >= 240 {
        (total_mins / 30) * 30
    } else if total_mins >= 120 {
        (total_mins / 15) * 15
    } else {
        (total_mins / 5) * 5
    }
}

/// Labels always round down, by less than one display step.
pub proof fn law_labels_round_down(total_mins: int)
    requires
        total_mins >= 0,
    ensures
        0 <= total_mins - floored(total_mins) < display_step(total_mins),
{
}

/// Label of floored minutes.
pub open spec fn minutes_label(mins: int) -> Seq<char> {
    let h = mins / 60;
    let m = mins % 60;
    if mins == 0 {
        "~<5m"@
    } else if h == 0 {
        "~"@ + text::dec(m as nat) + "m"@
    } else if m == 0 {
        "~"@ + text::dec(h as nat) + "h"@
    } else {
        "~"@ + text::dec(h as nat) + "h "@ + text::dec(m as nat) + "m"@
    }
}

fn format_floored_mins(floored_mins: u64) -> (r: String)
    ensures
        r@ == minutes_label(floored_mins as int),
{
    if floored_mins == 0 {
        return text::own("~<5m");
    }
    let hours: u64 = floored_mins / 60;
    let mins: u64 = floored_mins % 60;
    let mut m = text::own("~");
    if hours == 0 {
        text::push_dec(&mut m, mins);
        m.append("m");
    } else if mins == 0 {
        text::push_dec(&mut m, hours);
        m.append("h");
    } else {
        text::push_dec(&mut m, hours);
        m.append("h ");
        text::push_dec(&mut m, mins);
        m.append("m");
    }
    m
}

/// Label of a duration in milliseconds.
pub open spec fn duration_label(ms: u64) -> Seq<char> {
    minutes_label(floored(ms as int / 60000))
}

/// Formats a duration in milliseconds, floored to tier breakpoints: `~2h 15m`, `~40m`, `~1h`.
pub fn format_duration_short(duration_ms: u64) -> (r: String)
    ensures
        r@ == duration_label(duration_ms),
{
    let total_mins: u64 = duration_ms / 60000;
    format_floored_mins(floor_display_mins(total_mins))
}

/// Ring label using the same floored breakpoints.
pub fn format_eta_ring(hint: EtaHint) -> (r: String)
    ensures
        r@ == duration_label(
            match hint {
                EtaHint::PlayLeft(d) => d,
                EtaHint::ChargeToFull(d) => d,
            },
        ),
{
    let ms: u64 = match hint {
        EtaHint::PlayLeft(d) => d,
        EtaHint::ChargeToFull(d) => d,
    };
    format_duration_short(ms)
}

} // verus!
