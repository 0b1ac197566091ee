//! What medians, estimates and labels come to.
use crate::analytics::estimate as es;
use crate::analytics::estimate::{BucketDirection, InProgressBucket};
use crate::analytics::store;
use vstd::prelude::*;

verus! {

// ---------------------------------------------------------------------------
// Medians
// ---------------------------------------------------------------------------

/// How many of the numbers are not above `m`.
pub open spec fn not_above(s: Seq<u64>, m: u64) -> nat
    decreases s.len(),
{
    if s.len() == 0 {
        0
    } else if s.last() <= m {
        not_above(s.drop_last(), m) + 1
    } else {
        not_above(s.drop_last(), m)
    }
}

/// How many of the numbers are not below `m`.
pub open spec fn not_below(s: Seq<u64>, m: u64) -> nat
    decreases s.len(),
{
    if s.len() == 0 {
        0
    } else if s.last() >= m {
        not_below(s.drop_last(), m) + 1
    } else {
        not_below(s.drop_last(), m)
    }
}

proof fn lemma_push_counts(s: Seq<u64>, x: u64, m: u64)
    ensures
        not_above(s.push(x), m) == not_above(s, m) + (if x <= m {
            1nat
        } else {
            0nat
        }),
        not_below(s.push(x), m) == not_below(s, m) + (if x >= m {
            1nat
        } else {
            0nat
        }),
{
    assert(s.push(x).drop_last() =~= s);
}

proof fn lemma_insert_counts(q: Seq<u64>, x: u64, m: u64)
    ensures
        not_above(es::insert_number(q, x), m) == not_above(q.push(x), m),
        not_below(es::insert_number(q, x), m) == not_below(q.push(x), m),
    decreases q.len(),
{
    lemma_push_counts(q, x, m);
    if q.len() > 0 && q.last() > x {
        let init = q.drop_last();
        lemma_insert_counts(init, x, m);
        lemma_push_counts(init, x, m);
        lemma_push_counts(es::insert_number(init, x), q.last(), m);
    }
}

proof fn lemma_ordered_counts(s: Seq<u64>, m: u64)
    ensures
        not_above(es::in_ascending_order(s), m) == not_above(s, m),
        not_below(es::in_ascending_order(s), m) == not_below(s, m),
    decreases s.len(),
{
    if s.len() > 0 {
        let q = es::in_ascending_order(s.drop_last());
        lemma_ordered_counts(s.drop_last(), m);
        lemma_insert_counts(q, s.last(), m);
        lemma_push_counts(q, s.last(), m);
    }
}

proof fn lemma_count_head(q: Seq<u64>, m: u64, k: int)
    requires
        0 <= k <= q.len(),
        forall|i: int| 0 <= i < k ==> #[trigger] q[i] <= m,
    ensures
        not_above(q, m) >= k,
    decreases q.len(),
{
    if q.len() > 0 {
        let init = q.drop_last();
        if k == q.len() {
            assert(q[k - 1] <= m);
            assert forall|i: int| 0 <= i < k - 1 implies #[trigger] init[i] <= m by {
                assert(init[i] == q[i]);
            }
            lemma_count_head(init, m, k - 1);
        } else {
            assert forall|i: int| 0 <= i < k implies #[trigger] init[i] <= m by {
                assert(init[i] == q[i]);
            }
            lemma_count_head(init, m, k);
        }
    }
}

proof fn lemma_count_tail(q: Seq<u64>, m: u64, k: int)
    requires
        0 <= k <= q.len(),
        forall|i: int| k <= i < q.len() ==> #[trigger] q[i] >= m,
    ensures
        not_below(q, m) >= q.len() - k,
    decreases q.len(),
{
    if q.len() > k {
        let init = q.drop_last();
        assert(q[q.len() - 1] >= m);
        assert forall|i: int| k <= i < init.len() implies #[trigger] init[i] >= m by {
            assert(init[i] == q[i]);
        }
        lemma_count_tail(init, m, k);
    }
}

proof fn lemma_ordered_contains(s: Seq<u64>, i: int)
    requires
        0 <= i < s.len(),
    ensures
        s.contains(es::in_ascending_order(s)[i]),
{
    broadcast use vstd::seq_lib::group_to_multiset_ensures;

    es::lemma_in_ascending_order(s);
    let q = es::in_ascending_order(s);
    assert(q.contains(q[i]));
    assert(q.to_multiset().count(q[i]) > 0);
    assert(s.to_multiset().count(q[i]) > 0);
}

/// The median lies in the middle: at least half of the samples are not above it, and at least
/// half are not below it. Of an odd number of samples it is one; of an even number it is half
/// way between two, with half of the samples on either side.
pub proof fn law_median_lies_in_the_middle(s: Seq<u64>)
    requires
        s.len() > 0,
    ensures
        es::median(s) matches Some(m) && 2 * not_above(s, m) >= s.len() && 2 * not_below(s, m)
            >= s.len() && (s.len() % 2 == 1 ==> s.contains(m)) && (s.len() % 2 == 0 ==> exists|
            lo: u64,
            hi: u64,
        |
            halves(s, lo, hi) && m == (lo + hi) / 2),
{
    let q = es::in_ascending_order(s);
    es::lemma_in_ascending_order(s);
    let mid = q.len() as int / 2;
    let m = es::median(s)->0;
    lemma_ordered_counts(s, m);
    if s.len() % 2 == 1 {
        lemma_count_head(q, m, mid + 1);
        lemma_count_tail(q, m, mid);
        lemma_ordered_contains(s, mid);
    } else {
        let lo = q[mid - 1];
        let hi = q[mid];
        assert(lo <= hi);
        lemma_count_head(q, m, mid);
        lemma_count_tail(q, m, mid);
        lemma_ordered_counts(s, lo);
        lemma_ordered_counts(s, hi);
        lemma_count_head(q, lo, mid);
        lemma_count_tail(q, hi, mid);
        lemma_ordered_contains(s, mid - 1);
        lemma_ordered_contains(s, mid);
        assert(halves(s, lo, hi));
    }
}

/// Whether `lo` and `hi` are samples with half of the samples not above the one, and half not
/// below the other.
pub open spec fn halves(s: Seq<u64>, lo: u64, hi: u64) -> bool {
    &&& s.contains(lo)
    &&& s.contains(hi)
    &&& lo <= hi
    &&& 2 * not_above(s, lo) >= s.len()
    &&& 2 * not_below(s, hi) >= s.len()
}

/// One sample out of three does not move the median past the other two.
pub proof fn law_outlier_does_not_move_the_median(a: u64, b: u64, x: u64)
    requires
        a <= b,
    ensures
        es::median(seq![a, b, x]) matches Some(m) && a <= m <= b,
        es::median(seq![a, x, b]) matches Some(m) && a <= m <= b,
        es::median(seq![x, a, b]) matches Some(m) && a <= m <= b,
{
    law_median_lies_in_the_middle(seq![a, b, x]);
    law_median_lies_in_the_middle(seq![a, x, b]);
    law_median_lies_in_the_middle(seq![x, a, b]);
    lemma_three(a, b, x, es::median(seq![a, b, x])->0);
    lemma_three(a, x, b, es::median(seq![a, x, b])->0);
    lemma_three(x, a, b, es::median(seq![x, a, b])->0);
}

proof fn lemma_three(a: u64, b: u64, c: u64, m: u64)
    ensures
        not_above(seq![a, b, c], m) == (if a <= m {
            1nat
        } else {
            0nat
        }) + (if b <= m {
            1nat
        } else {
            0nat
        }) + (if c <= m {
            1nat
        } else {
            0nat
        }),
        not_below(seq![a, b, c], m) == (if a >= m {
            1nat
        } else {
            0nat
        }) + (if b >= m {
            1nat
        } else {
            0nat
        }) + (if c >= m {
            1nat
        } else {
            0nat
        }),
{
    let e = Seq::<u64>::empty();
    assert(e.push(a).push(b).push(c) =~= seq![a, b, c]);
    lemma_push_counts(e, a, m);
    lemma_push_counts(e.push(a), b, m);
    lemma_push_counts(e.push(a).push(b), c, m);
    assert(not_above(e, m) == 0 && not_below(e, m) == 0);
}

// ---------------------------------------------------------------------------
// Levels
// ---------------------------------------------------------------------------

/// The reported levels go from full to empty: 100, then 95 and down by tens to 5. Charging
/// passes the same levels the other way round.
pub proof fn law_levels_go_from_full_to_empty(i: int)
    requires
        0 <= i <= 10,
    ensures
        es::level_along(BucketDirection::Drain, 0) == 100,
        es::level_along(BucketDirection::Drain, 10) == 5,
        i == 1 ==> es::level_along(BucketDirection::Drain, i) == 95,
        i > 1 ==> es::level_along(BucketDirection::Drain, i) + 10 == es::level_along(
            BucketDirection::Drain,
            i - 1,
        ),
        es::level_along(BucketDirection::Charge, i) == es::level_along(
            BucketDirection::Drain,
            10 - i,
        ),
{
}

/// Whether the edges of a path hang together, from one percentage to another.
pub open spec fn hangs_together(path: Seq<(u8, u8)>, from: u8, to: u8) -> bool {
    &&& path.len() > 0
    &&& path[0].0 == from
    &&& path.last().1 == to
    &&& forall|i: int| 0 <= i < path.len() - 1 ==> (#[trigger] path[i]).1 == path[i + 1].0
}

proof fn lemma_level_index(direction: BucketDirection, i: int, k: int)
    requires
        0 <= k <= i <= 10,
    ensures
        es::level_index(direction, es::level_along(direction, i), k) == i,
    decreases i - k,
{
    if k < i {
        lemma_level_index(direction, i, k + 1);
    }
}

/// A move between two levels passes the levels between them, one by one.
pub proof fn law_moves_pass_the_levels_between(direction: BucketDirection, a: int, b: int)
    requires
        0 <= a < b <= 10,
    ensures
        ({
            let from = es::level_along(direction, a);
            let to = es::level_along(direction, b);
            let path = es::passed_edges(direction, from, to);
            &&& path.len() == b - a
            &&& hangs_together(path, from, to)
            &&& es::passed_edges(direction, to, from).len() == 0
        }),
{
    lemma_level_index(direction, a, 0);
    lemma_level_index(direction, b, 0);
}

/// The edges that a move passes.
pub proof fn lemma_edges_between(direction: BucketDirection, a: int, b: int)
    requires
        0 <= a < b <= 10,
    ensures
        es::passed_edges(direction, es::level_along(direction, a), es::level_along(direction, b))
            == es::edges(direction, a, b),
{
    lemma_level_index(direction, a, 0);
    lemma_level_index(direction, b, 0);
}

/// Levels move one way.
pub proof fn lemma_levels_move_on(direction: BucketDirection, a: int, b: int)
    requires
        0 <= a < b <= 10,
    ensures
        direction == BucketDirection::Drain ==> es::level_along(direction, a) > es::level_along(
            direction,
            b,
        ),
        direction == BucketDirection::Charge ==> es::level_along(direction, a) < es::level_along(
            direction,
            b,
        ),
{
}

// ---------------------------------------------------------------------------
// Samples
// ---------------------------------------------------------------------------

/// Samples of an edge.
pub open spec fn samples_of(steps: Seq<es::StepView>, from: u8, to: u8) -> Seq<u64> {
    let i = es::step_index(steps, from, to);
    if i < steps.len() {
        steps[i].samples
    } else {
        seq![]
    }
}

proof fn lemma_index_least(steps: Seq<es::StepView>, from: u8, to: u8, k: int)
    requires
        0 <= k < es::step_index(steps, from, to),
        k < steps.len(),
    ensures
        !(steps[k].from == from && steps[k].to == to),
    decreases steps.len(),
{
    if k > 0 {
        lemma_index_least(steps.drop_first(), from, to, k - 1);
    }
}

proof fn lemma_index_is(steps: Seq<es::StepView>, from: u8, to: u8, k: int)
    requires
        0 <= k <= steps.len(),
        k < steps.len() ==> steps[k].from == from && steps[k].to == to,
        forall|i: int| 0 <= i < k ==> !((#[trigger] steps[i]).from == from && steps[i].to == to),
    ensures
        es::step_index(steps, from, to) == k,
    decreases steps.len(),
{
    if steps.len() > 0 && k > 0 {
        assert(!(steps[0].from == from && steps[0].to == to));
        let d = steps.drop_first();
        assert forall|i: int| 0 <= i < k - 1 implies !((#[trigger] d[i]).from == from && d[i].to
            == to) by {
            assert(d[i] == steps[i + 1]);
        }
        lemma_index_is(d, from, to, k - 1);
    }
}

/// A sample joins the samples of its edge, of which the last three are kept, and leaves those of
/// every other edge alone.
pub proof fn law_sample_joins_its_edge(
    steps: Seq<es::StepView>,
    from: u8,
    to: u8,
    duration: u64,
    a: u8,
    b: u8,
)
    ensures
        ({
            let next = es::with_sample(steps, from, to, duration);
            let old = samples_of(steps, from, to);
            let new = samples_of(next, from, to);
            &&& new.len() == if old.len() >= 3 {
                3
            } else {
                old.len() + 1
            }
            &&& new.last() == duration
            &&& forall|i: int|
                0 <= i < new.len() - 1 ==> #[trigger] new[i] == old[old.len() - (new.len() - 1) + i]
            &&& (a, b) != (from, to) ==> samples_of(next, a, b) == samples_of(steps, a, b)
        }),
{
    let next = es::with_sample(steps, from, to, duration);
    es::lemma_step_index(steps, from, to);
    let i = es::step_index(steps, from, to);
    assert forall|k: int| 0 <= k < i implies !((#[trigger] next[k]).from == from && next[k].to
        == to) by {
        lemma_index_least(steps, from, to, k);
    }
    lemma_index_is(next, from, to, i);
    if (a, b) != (from, to) {
        es::lemma_step_index(steps, a, b);
        let j = es::step_index(steps, a, b);
        if j < steps.len() {
            assert forall|k: int| 0 <= k < j implies !((#[trigger] next[k]).from == a && next[k].to
                == b) by {
                lemma_index_least(steps, a, b, k);
            }
            lemma_index_is(next, a, b, j);
        } else {
            assert forall|k: int| 0 <= k < next.len() implies !((#[trigger] next[k]).from == a
                && next[k].to == b) by {
                if k < steps.len() {
                    lemma_index_least(steps, a, b, k);
                }
            }
            lemma_index_is(next, a, b, next.len() as int);
        }
    }
}

/// An edge is expected to take the median of its samples; one without samples takes the rate of
/// the measured steps for each of its percentages.
pub proof fn law_measured_edges_take_their_median(
    steps: Seq<es::StepView>,
    from: u8,
    to: u8,
)
    requires
        from != to,
        es::default_rate(steps) is Some,
    ensures
        ({
            let rate = es::default_rate(steps)->0;
            let gap = if from >= to {
                from - to
            } else {
                to - from
            };
            &&& samples_of(steps, from, to).len() > 0 ==> es::chain_ms(steps, seq![(from, to)])
                == es::median(samples_of(steps, from, to))
            &&& samples_of(steps, from, to).len() == 0 && rate * gap <= u64::MAX ==> es::chain_ms(
                steps,
                seq![(from, to)],
            ) == Some((rate * gap) as u64)
        }),
{
    let path = seq![(from, to)];
    let rate = es::default_rate(steps)->0;
    assert(path.drop_last() =~= Seq::<(u8, u8)>::empty());
    assert(es::path_ms(steps, rate, path.drop_last()) == 0);
    es::lemma_step_index(steps, from, to);
}

/// One measured step speaks for the others: its median shared out over its percentages is the
/// rate, unless it is the half bucket at the top, which gives none.
pub proof fn law_one_step_sets_the_rate(step: es::StepView)
    requires
        step.from != step.to,
        step.samples.len() > 0,
    ensures
        ({
            let gap = if step.from >= step.to {
                step.from - step.to
            } else {
                step.to - step.from
            };
            let top = (step.from == 100 && step.to == 95) || (step.from == 95 && step.to == 100);
            &&& top ==> es::default_rate(seq![step]) is None
            &&& !top ==> es::default_rate(seq![step]) == Some(
                (es::median(step.samples)->0 as int / gap) as u64,
            )
        }),
{
    let steps = seq![step];
    law_median_lies_in_the_middle(step.samples);
    assert(steps.drop_last() =~= Seq::<es::StepView>::empty());
    assert(es::rates(steps.drop_last()) =~= seq![]);
    if let Some(r) = es::step_rate(step) {
        assert(es::rates(steps) =~= seq![r]);
        law_median_lies_in_the_middle(seq![r]);
        let m = es::median(seq![r])->0;
        let i = choose|i: int| 0 <= i < seq![r].len() && seq![r][i] == m;
        assert(m == r);
    } else {
        assert(es::rates(steps) =~= seq![]);
    }
}

// ---------------------------------------------------------------------------
// Estimates
// ---------------------------------------------------------------------------

/// Estimates add up: a path takes what its two parts take.
pub proof fn law_estimates_add_up(
    steps: Seq<es::StepView>,
    a: Seq<(u8, u8)>,
    b: Seq<(u8, u8)>,
)
    requires
        a.len() > 0,
        b.len() > 0,
        es::chain_ms(steps, a + b) matches Some(t) && t < u64::MAX,
    ensures
        es::chain_ms(steps, a) is Some,
        es::chain_ms(steps, b) is Some,
        es::chain_ms(steps, a + b)->0 == es::chain_ms(steps, a)->0 + es::chain_ms(steps, b)->0,
{
    lemma_path_parts(steps, es::default_rate(steps)->0, a, b);
}

proof fn lemma_path_parts(
    steps: Seq<es::StepView>,
    rate: u64,
    a: Seq<(u8, u8)>,
    b: Seq<(u8, u8)>,
)
    requires
        es::path_ms(steps, rate, a + b) < u64::MAX,
    ensures
        es::path_ms(steps, rate, a + b) == es::path_ms(steps, rate, a) + es::path_ms(
            steps,
            rate,
            b,
        ),
    decreases b.len(),
{
    if b.len() == 0 {
        assert(a + b =~= a);
    } else {
        assert((a + b).drop_last() =~= a + b.drop_last());
        lemma_path_parts(steps, rate, a, b.drop_last());
    }
}

proof fn lemma_first_ahead(direction: BucketDirection, i: int, k: int)
    requires
        0 <= k <= i <= 10,
    ensures
        es::first_ahead(direction, es::level_along(direction, i), k) == i,
    decreases i - k,
{
    if k < i {
        lemma_first_ahead(direction, i, k + 1);
    }
}

/// Steps of a direction.
pub open spec fn steps_of(r: store::RecordView, direction: BucketDirection) -> Seq<es::StepView> {
    match direction {
        BucketDirection::Drain => r.drain,
        BucketDirection::Charge => r.charge,
    }
}

/// What is left at a level is what the next step takes and what is left behind it; at the last
/// level nothing is left.
pub proof fn law_time_left_shrinks_step_by_step(
    r: store::RecordView,
    direction: BucketDirection,
    i: int,
)
    requires
        0 <= i < 10,
        r.in_progress is None,
        store::eta(r, direction, es::level_along(direction, i)) matches Some(t) && t < u64::MAX,
    ensures
        ({
            let here = es::level_along(direction, i);
            let next = es::level_along(direction, i + 1);
            let step = es::chain_ms(steps_of(r, direction), seq![(here, next)]);
            let rest = match store::eta(r, direction, next) {
                Some(t) => t,
                None => 0,
            };
            &&& step is Some
            &&& store::eta(r, direction, here)->0 == step->0 + rest
        }),
        store::eta(r, direction, es::level_along(direction, 10)) is None,
{
    let here = es::level_along(direction, i);
    let next = es::level_along(direction, i + 1);
    lemma_first_ahead(direction, i, 0);
    lemma_first_ahead(direction, i + 1, 0);
    lemma_first_ahead(direction, 10, 0);
    let steps = steps_of(r, direction);
    let whole = es::edges(direction, i, 10);
    let first = seq![(here, next)];
    let rest = es::edges(direction, i + 1, 10);
    assert(whole =~= first + rest);
    lemma_path_parts(steps, es::default_rate(steps)->0, first, rest);
    if i == 9 {
        assert(rest =~= Seq::<(u8, u8)>::empty());
    }
}

/// Time already spent in a bucket is taken off what is left, as long as the bucket is expected
/// to last; a window of another percentage or direction takes nothing off.
pub proof fn law_time_spent_is_taken_off(
    r: store::RecordView,
    direction: BucketDirection,
    i: int,
    active: u64,
)
    requires
        0 <= i < 10,
        store::eta(
            store::RecordView { in_progress: None, ..r },
            direction,
            es::level_along(direction, i),
        ) matches Some(t) && t < u64::MAX,
    ensures
        ({
            let here = es::level_along(direction, i);
            let next = es::level_along(direction, i + 1);
            let idle = store::eta(store::RecordView { in_progress: None, ..r }, direction, here)->0;
            let step = es::chain_ms(steps_of(r, direction), seq![(here, next)])->0;
            let spent = if active <= step {
                active
            } else {
                step
            };
            let window = InProgressBucket { direction, percent: here, active_ms: active };
            let left = store::eta(
                store::RecordView { in_progress: Some(window), ..r },
                direction,
                here,
            );
            &&& spent <= idle
            &&& left == if idle == spent {
                None
            } else {
                Some((idle - spent) as u64)
            }
            &&& forall|other: InProgressBucket|
                other.percent != here || other.direction != direction ==> #[trigger] store::eta(
                    store::RecordView { in_progress: Some(other), ..r },
                    direction,
                    here,
                ) == Some(idle)
        }),
{
    let still = store::RecordView { in_progress: None, ..r };
    let here = es::level_along(direction, i);
    let next = es::level_along(direction, i + 1);
    law_time_left_shrinks_step_by_step(still, direction, i);
    lemma_first_ahead(direction, i, 0);
    let steps = steps_of(r, direction);
    let rate = es::default_rate(steps)->0;
    let first = seq![(here, next)];
    assert(first.drop_last() =~= Seq::<(u8, u8)>::empty());
    assert(es::path_ms(steps, rate, first.drop_last()) == 0);
    assert(es::edges(direction, i, 10)[0] == (here, next));
    assert(here != next);
    assert(es::edge_duration(steps, here, next) == Some(es::edge_ms(steps, rate, (here, next))));
}

/// A whole drain or charge is expected to take what is left at its first level.
pub proof fn law_typical_is_the_whole_way(r: store::RecordView, direction: BucketDirection)
    requires
        r.in_progress is None,
        store::typical(r, direction) matches Some(t) && t > 0,
    ensures
        store::eta(r, direction, es::level_along(direction, 0)) == store::typical(r, direction),
{
    lemma_first_ahead(direction, 0, 0);
}

/// Labels are rounded down to half hours from four hours on, to quarters from two hours on, and
/// to five minutes below.
pub proof fn law_labels_are_rounded_to_tiers(mins: int)
    requires
        0 <= mins,
    ensures
        mins >= 240 ==> es::floored(mins) % 30 == 0 && es::floored(mins) <= mins < es::floored(mins)
            + 30,
        120 <= mins < 240 ==> es::floored(mins) % 15 == 0 && es::floored(mins) <= mins
            < es::floored(mins) + 15,
        mins < 120 ==> es::floored(mins) % 5 == 0 && es::floored(mins) <= mins < es::floored(mins)
            + 5,
{
}

/// What any call gives back as the median has at least half of the samples on either side,
/// itself counted to both; for an odd number of samples it is one of them. Without samples there
/// is none.
pub proof fn law_calls_find_the_middle(s: &[u64], r: Option<u64>)
    requires
        call_ensures(es::median_ms, (s,), r),
    ensures
        r is None <==> s@.len() == 0,
        r matches Some(m) ==> 2 * not_above(s@, m) >= s@.len() && 2 * not_below(s@, m) >= s@.len()
            && (s@.len() % 2 == 1 ==> s@.contains(m)) && (s@.len() % 2 == 0 ==> exists|
            lo: u64,
            hi: u64,
        |
            halves(s@, lo, hi) && m == (lo + hi) / 2),
{
    if s@.len() > 0 {
        law_median_lies_in_the_middle(s@);
    }
}

} // verus!
