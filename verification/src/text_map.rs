//! Ordered map with text keys.
use crate::text;
use vstd::prelude::*;

verus! {

/// Whether the keys ascend strictly.
pub open spec fn ascending(q: Seq<Seq<char>>) -> bool {
    forall|i: int, j: int| 0 <= i < j < q.len() ==> text::text_lt(#[trigger] q[i], #[trigger] q[j])
}

/// The members of a finite set of keys in ascending order.
pub open spec fn in_order(s: Set<Seq<char>>) -> Seq<Seq<char>> {
    choose|q: Seq<Seq<char>>| ascending(q) && #[trigger] q.to_set() == s
}

/// Ascending sequences with the same members are equal.
pub proof fn lemma_ascending_unique(a: Seq<Seq<char>>, b: Seq<Seq<char>>)
    requires
        ascending(a),
        ascending(b),
        a.to_set() == b.to_set(),
    ensures
        a == b,
    decreases a.len(),
{
    if a.len() == 0 {
        if b.len() > 0 {
            assert(b.to_set().contains(b[0]));
            assert(a.to_set().contains(b[0]));
        }
        assert(a == b);
    } else {
        assert(a.to_set().contains(a[0]));
        assert(b.contains(a[0]));
        let i = choose|i: int| 0 <= i < b.len() && b[i] == a[0];
        assert(b.to_set().contains(b[0]));
        assert(a.contains(b[0]));
        let j = choose|j: int| 0 <= j < a.len() && a[j] == b[0];
        if i > 0 {
            assert(text::text_lt(b[0], b[i]));
            if j > 0 {
                assert(text::text_lt(a[0], a[j]));
                text::lemma_text_lt_transitive(a[0], b[0], a[0]);
            }
            text::lemma_text_lt_irreflexive(a[0]);
        }
        assert(a[0] == b[0]);
        let x = a.drop_first();
        let y = b.drop_first();
        assert(ascending(x)) by {
            assert forall|m: int, n: int| 0 <= m < n < x.len() implies text::text_lt(
                #[trigger] x[m],
                #[trigger] x[n],
            ) by {
                assert(text::text_lt(a[m + 1], a[n + 1]));
            }
        }
        assert(ascending(y)) by {
            assert forall|m: int, n: int| 0 <= m < n < y.len() implies text::text_lt(
                #[trigger] y[m],
                #[trigger] y[n],
            ) by {
                assert(text::text_lt(b[m + 1], b[n + 1]));
            }
        }
        lemma_rest_set(a);
        lemma_rest_set(b);
        lemma_ascending_unique(x, y);
        assert(a == seq![a[0]] + x);
        assert(b == seq![b[0]] + y);
    }
}

proof fn lemma_rest_set(a: Seq<Seq<char>>)
    requires
        ascending(a),
        a.len() > 0,
    ensures
        a.drop_first().to_set() == a.to_set().remove(a[0]),
{
    let x = a.drop_first();
    assert forall|k: Seq<char>| x.to_set().contains(k) == a.to_set().remove(a[0]).contains(k) by {
        if x.to_set().contains(k) {
            let i = choose|i: int| 0 <= i < x.len() && x[i] == k;
            assert(a[i + 1] == k);
            assert(text::text_lt(a[0], a[i + 1]));
            text::lemma_text_lt_irreflexive(k);
        }
        if a.to_set().remove(a[0]).contains(k) {
            let i = choose|i: int| 0 <= i < a.len() && a[i] == k;
            assert(x[i - 1] == k);
        }
    }
}

/// An ascending sequence is the order of its members.
pub proof fn lemma_in_order(q: Seq<Seq<char>>)
    requires
        ascending(q),
    ensures
        in_order(q.to_set()) == q,
{
    let r = in_order(q.to_set());
    assert(ascending(r) && r.to_set() == q.to_set());
    lemma_ascending_unique(r, q);
}

spec fn insert_in_order(q: Seq<Seq<char>>, a: Seq<char>) -> Seq<Seq<char>>
    decreases q.len(),
{
    if q.len() == 0 || text::text_lt(a, q[0]) {
        seq![a] + q
    } else {
        seq![q[0]] + insert_in_order(q.drop_first(), a)
    }
}

proof fn lemma_insert_in_order(q: Seq<Seq<char>>, a: Seq<char>)
    requires
        ascending(q),
        !q.to_set().contains(a),
    ensures
        ascending(insert_in_order(q, a)),
        insert_in_order(q, a).to_set() == q.to_set().insert(a),
    decreases q.len(),
{
    let r = insert_in_order(q, a);
    if q.len() == 0 || text::text_lt(a, q[0]) {
        assert forall|i: int, j: int| 0 <= i < j < r.len() implies text::text_lt(
            #[trigger] r[i],
            #[trigger] r[j],
        ) by {
            if i > 0 {
                assert(text::text_lt(q[i - 1], q[j - 1]));
            } else if j > 1 {
                assert(text::text_lt(q[0], q[j - 1]));
                text::lemma_text_lt_transitive(a, q[0], q[j - 1]);
            }
        }
        assert forall|k: Seq<char>| r.to_set().contains(k) == q.to_set().insert(a).contains(k) by {
            if r.contains(k) {
                let i = choose|i: int| 0 <= i < r.len() && r[i] == k;
                if i > 0 {
                    assert(q[i - 1] == k);
                }
            }
            if q.contains(k) {
                let i = choose|i: int| 0 <= i < q.len() && q[i] == k;
                assert(r[i + 1] == k);
            }
            assert(r[0] == a);
        }
        assert(r.to_set() =~= q.to_set().insert(a));
    } else {
        let t = q.drop_first();
        let u = insert_in_order(t, a);
        assert forall|m: int, n: int| 0 <= m < n < t.len() implies text::text_lt(
            #[trigger] t[m],
            #[trigger] t[n],
        ) by {
            assert(text::text_lt(q[m + 1], q[n + 1]));
        }
        assert(q.contains(q[0]));
        assert(!t.to_set().contains(a)) by {
            if t.contains(a) {
                let i = choose|i: int| 0 <= i < t.len() && t[i] == a;
                assert(q[i + 1] == a);
                assert(q.contains(a));
            }
        }
        lemma_insert_in_order(t, a);
        text::lemma_text_lt_total(a, q[0]);
        assert(text::text_lt(q[0], a));
        assert forall|i: int, j: int| 0 <= i < j < r.len() implies text::text_lt(
            #[trigger] r[i],
            #[trigger] r[j],
        ) by {
            assert(r[j] == u[j - 1]);
            if i > 0 {
                assert(text::text_lt(u[i - 1], u[j - 1]));
            } else {
                assert(u.to_set().contains(u[j - 1]));
                if u[j - 1] != a {
                    assert(t.to_set().contains(u[j - 1]));
                    let k = choose|k: int| 0 <= k < t.len() && t[k] == u[j - 1];
                    assert(text::text_lt(q[0], q[k + 1]));
                }
            }
        }
        assert forall|k: Seq<char>| r.to_set().contains(k) == q.to_set().insert(a).contains(k) by {
            if r.contains(k) {
                let i = choose|i: int| 0 <= i < r.len() && r[i] == k;
                if i > 0 {
                    assert(u[i - 1] == k);
                    assert(u.to_set().contains(k));
                    if k != a {
                        assert(t.to_set().contains(k));
                        let j = choose|j: int| 0 <= j < t.len() && t[j] == k;
                        assert(q[j + 1] == k);
                    }
                }
            }
            if q.contains(k) {
                let i = choose|i: int| 0 <= i < q.len() && q[i] == k;
                if i > 0 {
                    assert(t[i - 1] == k);
                    assert(u.to_set().contains(k));
                    let j = choose|j: int| 0 <= j < u.len() && u[j] == k;
                    assert(r[j + 1] == k);
                } else {
                    assert(r[0] == k);
                }
            }
            assert(u.to_set().contains(a));
            let j = choose|j: int| 0 <= j < u.len() && u[j] == a;
            assert(r[j + 1] == a);
        }
        assert(r.to_set() =~= q.to_set().insert(a));
    }
}

/// Every finite set of keys has an ascending order.
pub proof fn lemma_in_order_exists(s: Set<Seq<char>>)
    requires
        s.finite(),
    ensures
        ascending(in_order(s)),
        in_order(s).to_set() == s,
    decreases s.len(),
{
    if s.len() == 0 {
        let q = Seq::<Seq<char>>::empty();
        assert(q.to_set() =~= s);
        lemma_in_order(q);
    } else {
        let a = s.choose();
        let t = s.remove(a);
        lemma_in_order_exists(t);
        lemma_insert_in_order(in_order(t), a);
        let q = insert_in_order(in_order(t), a);
        assert(q.to_set() =~= s);
        lemma_in_order(q);
    }
}

/// A map of strings by the text they hold.
pub open spec fn texts(m: Map<Seq<char>, String>) -> Map<Seq<char>, Seq<char>> {
    m.map_values(|s: String| s@)
}

/// Insertion commutes with reading the text of the values.
pub proof fn lemma_texts_insert(m: Map<Seq<char>, String>, k: Seq<char>, v: String)
    ensures
        texts(m.insert(k, v)) == texts(m).insert(k, v@),
{
    assert(texts(m.insert(k, v)) =~= texts(m).insert(k, v@));
}

/// No text in an empty map.
pub proof fn lemma_texts_empty()
    ensures
        texts(Map::<Seq<char>, String>::empty()) == Map::<Seq<char>, Seq<char>>::empty(),
{
    assert(texts(Map::<Seq<char>, String>::empty()) =~= Map::<Seq<char>, Seq<char>>::empty());
}

/// A map from text to `V`, walked in ascending order of the keys.
#[derive(Debug, PartialEq, Eq)]
pub struct TextMap<V> {
    entries: Vec<(String, V)>,
}

spec fn key_seq<V>(es: Seq<(String, V)>) -> Seq<Seq<char>> {
    Seq::new(es.len(), |i: int| es[i].0@)
}

spec fn has_key<V>(es: Seq<(String, V)>, k: Seq<char>) -> bool {
    exists|i: int| 0 <= i < es.len() && (#[trigger] es[i]).0@ == k
}

spec fn index_of<V>(es: Seq<(String, V)>, k: Seq<char>) -> int {
    choose|i: int| 0 <= i < es.len() && (#[trigger] es[i]).0@ == k
}

spec fn as_map<V>(es: Seq<(String, V)>) -> Map<Seq<char>, V> {
    Map::new(|k: Seq<char>| has_key(es, k), |k: Seq<char>| es[index_of(es, k)].1)
}

impl<V> View for TextMap<V> {
    type V = Map<Seq<char>, V>;

    closed spec fn view(&self) -> Map<Seq<char>, V> {
        as_map(self.entries@)
    }
}

proof fn lemma_index<V>(es: Seq<(String, V)>, i: int)
    requires
        ascending(key_seq(es)),
        0 <= i < es.len(),
    ensures
        has_key(es, es[i].0@),
        index_of(es, es[i].0@) == i,
        as_map(es).dom().contains(es[i].0@),
        as_map(es)[es[i].0@] == es[i].1,
{
    let k = es[i].0@;
    assert(has_key(es, k));
    let j = index_of(es, k);
    assert(0 <= j < es.len() && es[j].0@ == k);
    let q = key_seq(es);
    assert(q[i] == k && q[j] == k);
    if i < j {
        assert(text::text_lt(q[i], q[j]));
        text::lemma_text_lt_irreflexive(k);
    } else if j < i {
        assert(text::text_lt(q[j], q[i]));
        text::lemma_text_lt_irreflexive(k);
    }
}

proof fn lemma_dom<V>(es: Seq<(String, V)>)
    requires
        ascending(key_seq(es)),
    ensures
        as_map(es).dom() == key_seq(es).to_set(),
        in_order(as_map(es).dom()) == key_seq(es),
        as_map(es).dom().finite(),
        as_map(es).dom().len() == es.len(),
{
    let q = key_seq(es);
    assert forall|k: Seq<char>| as_map(es).dom().contains(k) == q.to_set().contains(k) by {
        if has_key(es, k) {
            let i = index_of(es, k);
            assert(q[i] == k);
        }
        if q.to_set().contains(k) {
            let i = choose|i: int| 0 <= i < q.len() && q[i] == k;
            assert(es[i].0@ == k);
        }
    }
    assert(as_map(es).dom() =~= q.to_set());
    lemma_in_order(q);
    assert(q.no_duplicates()) by {
        assert forall|i: int, j: int| 0 <= i < q.len() && 0 <= j < q.len() && i != j implies q[i]
            != q[j] by {
            if i < j {
                assert(text::text_lt(q[i], q[j]));
            } else {
                assert(text::text_lt(q[j], q[i]));
            }
            text::lemma_text_lt_irreflexive(q[i]);
        }
    }
    q.unique_seq_to_set();
}

spec fn same_at<V>(a: Map<Seq<char>, V>, b: Map<Seq<char>, V>, k: Seq<char>) -> bool {
    a.dom().contains(k) == b.dom().contains(k) && (b.dom().contains(k) ==> a[k] == b[k])
}

proof fn lemma_same<V>(a: Map<Seq<char>, V>, b: Map<Seq<char>, V>)
    requires
        forall|k: Seq<char>| same_at(a, b, k),
    ensures
        a == b,
{
    assert forall|k: Seq<char>| a.dom().contains(k) == b.dom().contains(k) by {
        assert(same_at(a, b, k));
    }
    assert forall|k: Seq<char>| b.dom().contains(k) implies a[k] == b[k] by {
        assert(same_at(a, b, k));
    }
    assert(a =~= b);
}

proof fn lemma_value_update<V>(es: Seq<(String, V)>, at: int, v: V)
    requires
        ascending(key_seq(es)),
        0 <= at < es.len(),
    ensures
        key_seq(es.update(at, (es[at].0, v))) == key_seq(es),
        as_map(es.update(at, (es[at].0, v))) == as_map(es).insert(es[at].0@, v),
{
    let es2 = es.update(at, (es[at].0, v));
    assert(key_seq(es2) =~= key_seq(es));
    let m = as_map(es).insert(es[at].0@, v);
    assert forall|k: Seq<char>| same_at(as_map(es2), m, k) by {
        if has_key(es2, k) {
            let i = index_of(es2, k);
            lemma_index(es2, i);
            lemma_index(es, i);
        }
        if has_key(es, k) {
            let i = index_of(es, k);
            lemma_index(es2, i);
            lemma_index(es, i);
        }
        lemma_index(es2, at);
    }
    lemma_same(as_map(es2), m);
}

/// The value of an entry, to be changed.
fn value_mut<V>(es: &mut Vec<(String, V)>, at: usize) -> (r: &mut V)
    requires
        at < old(es)@.len(),
    ensures
        *r == old(es)@[at as int].1,
        final(es)@ == old(es)@.update(at as int, (old(es)@[at as int].0, *final(r))),
    no_unwind
{
    &mut es[at].1
}

impl<V> TextMap<V> {
    #[verifier::type_invariant]
    spec fn ordered(self) -> bool {
        ascending(key_seq(self.entries@))
    }

    /// An empty map.
    pub fn new() -> (r: Self)
        ensures
            r@ == Map::<Seq<char>, V>::empty(),
    {
        let r = TextMap { entries: Vec::new() };
        assert(r@ =~= Map::<Seq<char>, V>::empty());
        r
    }

    /// Number of keys.
    pub fn len(&self) -> (r: usize)
        ensures
            r == self@.dom().len(),
            r == in_order(self@.dom()).len(),
            self@.dom().finite(),
    {
        proof {
            use_type_invariant(self);
            lemma_dom(self.entries@);
        }
        self.entries.len()
    }

    /// Whether there is no key.
    pub fn is_empty(&self) -> (r: bool)
        ensures
            r == (self@ == Map::<Seq<char>, V>::empty()),
            r == (self@.dom().len() == 0),
    {
        proof {
            use_type_invariant(self);
            lemma_dom(self.entries@);
            if self.entries@.len() == 0 {
                assert(self@ =~= Map::<Seq<char>, V>::empty());
            } else {
                lemma_index(self.entries@, 0);
                assert(!Map::<Seq<char>, V>::empty().dom().contains(self.entries@[0].0@));
            }
        }
        self.entries.len() == 0
    }

    /// The `i`-th key in ascending order.
    pub fn key_at(&self, i: usize) -> (r: &String)
        requires
            i < self@.dom().len(),
        ensures
            r@ == in_order(self@.dom())[i as int],
            self@.dom().contains(r@),
    {
        proof {
            use_type_invariant(self);
            lemma_dom(self.entries@);
            lemma_index(self.entries@, i as int);
        }
        &self.entries[i].0
    }

    /// The value of the `i`-th key in ascending order.
    pub fn value_at(&self, i: usize) -> (r: &V)
        requires
            i < self@.dom().len(),
        ensures
            *r == self@[in_order(self@.dom())[i as int]],
            self@.dom().contains(in_order(self@.dom())[i as int]),
    {
        proof {
            use_type_invariant(self);
            lemma_dom(self.entries@);
            lemma_index(self.entries@, i as int);
        }
        &self.entries[i].1
    }

    /// First position whose key is not below `key`.
    fn lower_bound(&self, key: &str) -> (r: usize)
        ensures
            r <= self.entries@.len(),
            forall|i: int| 0 <= i < r ==> text::text_lt(#[trigger] self.entries@[i].0@, key@),
            r < self.entries@.len() ==> !text::text_lt(self.entries@[r as int].0@, key@),
    {
        let mut i: usize = 0;
        while i < self.entries.len() && text::str_lt(self.entries[i].0.as_str(), key)
            invariant
                i <= self.entries@.len(),
                forall|k: int| 0 <= k < i ==> text::text_lt(#[trigger] self.entries@[k].0@, key@),
            decreases self.entries@.len() - i,
        {
            i = i + 1;
        }
        i
    }

    /// Position of `key`, if it is there.
    fn position(&self, key: &str) -> (r: Option<usize>)
        ensures
            match r {
                Some(i) => i < self.entries@.len() && self.entries@[i as int].0@ == key@,
                None => !has_key(self.entries@, key@),
            },
    {
        proof {
            use_type_invariant(self);
        }
        let i: usize = self.lower_bound(key);
        if i < self.entries.len() && text::str_eq(self.entries[i].0.as_str(), key) {
            Some(i)
        } else {
            proof {
                let q = key_seq(self.entries@);
                assert forall|k: int| 0 <= k < self.entries@.len() implies (
                #[trigger] self.entries@[k]).0@ != key@ by {
                    if k < i {
                        text::lemma_text_lt_irreflexive(key@);
                    } else if k > i {
                        assert(text::text_lt(q[i as int], q[k]));
                        if q[k] == key@ {
                            assert(text::text_lt(self.entries@[i as int].0@, key@));
                        }
                    }
                }
            }
            None
        }
    }

    /// The value of `key`.
    pub fn get(&self, key: &str) -> (r: Option<&V>)
        ensures
            match r {
                Some(v) => self@.dom().contains(key@) && *v == self@[key@],
                None => !self@.dom().contains(key@),
            },
    {
        proof {
            use_type_invariant(self);
        }
        match self.position(key) {
            Some(i) => {
                proof {
                    lemma_index(self.entries@, i as int);
                }
                Some(&self.entries[i].1)
            },
            None => None,
        }
    }

    /// Whether `key` has a value.
    pub fn contains_key(&self, key: &str) -> (r: bool)
        ensures
            r == self@.dom().contains(key@),
    {
        self.get(key).is_some()
    }

    /// Gives `key` the value `value`.
    pub fn insert(&mut self, key: String, value: V)
        ensures
            final(self)@ == old(self)@.insert(key@, value),
    {
        proof {
            use_type_invariant(&*self);
        }
        let at: usize = self.lower_bound(key.as_str());
        let found = at < self.entries.len() && text::str_eq(
            self.entries[at].0.as_str(),
            key.as_str(),
        );
        let ghost es = self.entries@;
        let ghost q = key_seq(es);
        let ghost k0 = key@;
        let mut work: Vec<(String, V)> = Vec::new();
        core::mem::swap(&mut work, &mut self.entries);
        proof {
            assert forall|k: int| at <= k < es.len() && !found implies text::text_lt(
                k0,
                (#[trigger] es[k]).0@,
            ) by {
                text::lemma_text_lt_total(k0, es[at as int].0@);
                if k > at {
                    assert(text::text_lt(q[at as int], q[k]));
                    text::lemma_text_lt_transitive(k0, q[at as int], q[k]);
                }
            }
        }
        if found {
            work.set(at, (key, value));
        } else {
            work.insert(at, (key, value));
        }
        let ghost es2 = work@;
        proof {
            let q2 = key_seq(es2);
            assert(ascending(q2)) by {
                assert forall|i: int, j: int| 0 <= i < j < q2.len() implies text::text_lt(
                    #[trigger] q2[i],
                    #[trigger] q2[j],
                ) by {
                    if found {
                        assert(q2[i] == q[i] && q2[j] == q[j]);
                    } else {
                        if j < at {
                            assert(text::text_lt(q[i], q[j]));
                        } else if j == at {
                            assert(text::text_lt(es[i].0@, k0));
                        } else if i == at {
                            assert(text::text_lt(k0, es[j - 1].0@));
                        } else if i < at {
                            assert(text::text_lt(q[i], q[j - 1]));
                        } else {
                            assert(text::text_lt(q[i - 1], q[j - 1]));
                        }
                    }
                }
            }
            let m = as_map(es).insert(k0, value);
            lemma_index(es2, at as int);
            assert forall|k: Seq<char>| same_at(as_map(es2), m, k) by {
                if k != k0 {
                    if has_key(es2, k) {
                        let i = index_of(es2, k);
                        lemma_index(es2, i);
                        if found || i < at {
                            lemma_index(es, i);
                        } else {
                            lemma_index(es, i - 1);
                        }
                    }
                    if has_key(es, k) {
                        let i = index_of(es, k);
                        lemma_index(es, i);
                        if found || i < at {
                            assert(es2[i] == es[i]);
                            lemma_index(es2, i);
                        } else {
                            assert(es2[i + 1] == es[i]);
                            lemma_index(es2, i + 1);
                        }
                    }
                }
            }
            lemma_same(as_map(es2), m);
        }
        self.entries = work;
    }

    /// The value of `key`, to be changed.
    pub fn get_mut(&mut self, key: &str) -> (r: Option<&mut V>)
        ensures
            match r {
                Some(v) => {
                    &&& old(self)@.dom().contains(key@)
                    &&& *v == old(self)@[key@]
                    &&& final(self)@ == old(self)@.insert(key@, *final(v))
                },
                None => !old(self)@.dom().contains(key@) && *final(self) == *old(self),
            },
    {
        proof {
            use_type_invariant(&*self);
        }
        match self.position(key) {
            Some(at) => {
                let ghost es = self.entries@;
                proof {
                    lemma_index(es, at as int);
                    let k = es[at as int].0;
                    assert forall|v: V|
                        key_seq(#[trigger] es.update(at as int, (k, v))) == key_seq(es) && as_map(
                            es.update(at as int, (k, v)),
                        ) == as_map(es).insert(k@, v) by {
                        lemma_value_update(es, at as int, v);
                    }
                }
                Some(value_mut(&mut self.entries, at))
            },
            None => None,
        }
    }

    /// Takes `key` out and returns its value.
    pub fn remove(&mut self, key: &str) -> (r: Option<V>)
        ensures
            final(self)@ == old(self)@.remove(key@),
            match r {
                Some(v) => old(self)@.dom().contains(key@) && v == old(self)@[key@],
                None => !old(self)@.dom().contains(key@),
            },
    {
        proof {
            use_type_invariant(&*self);
        }
        match self.position(key) {
            Some(at) => {
                let ghost es = self.entries@;
                let ghost q = key_seq(es);
                let mut work: Vec<(String, V)> = Vec::new();
                core::mem::swap(&mut work, &mut self.entries);
                proof {
                    lemma_index(es, at as int);
                }
                let taken = work.remove(at);
                let ghost es2 = work@;
                proof {
                    let q2 = key_seq(es2);
                    assert(ascending(q2)) by {
                        assert forall|i: int, j: int| 0 <= i < j < q2.len() implies text::text_lt(
                            #[trigger] q2[i],
                            #[trigger] q2[j],
                        ) by {
                            let a = if i < at {
                                i
                            } else {
                                i + 1
                            };
                            let b = if j < at {
                                j
                            } else {
                                j + 1
                            };
                            assert(q2[i] == q[a] && q2[j] == q[b]);
                        }
                    }
                    let m = as_map(es).remove(key@);
                    assert forall|k: Seq<char>| same_at(as_map(es2), m, k) by {
                        if has_key(es2, k) {
                            let i = index_of(es2, k);
                            lemma_index(es2, i);
                            let a = if i < at {
                                i
                            } else {
                                i + 1
                            };
                            assert(es[a] == es2[i]);
                            lemma_index(es, a);
                        }
                        if has_key(es, k) && k != key@ {
                            let i = index_of(es, k);
                            lemma_index(es, i);
                            let b = if i < at {
                                i
                            } else {
                                i - 1
                            };
                            assert(es2[b] == es[i]);
                            lemma_index(es2, b);
                        }
                    }
                    lemma_same(as_map(es2), m);
                }
                self.entries = work;
                Some(taken.1)
            },
            None => {
                assert(old(self)@.remove(key@) =~= old(self)@);
                None
            },
        }
    }
}

impl<V: Clone> Clone for TextMap<V> {
    fn clone(&self) -> (r: Self)
        ensures
            r@.dom() == self@.dom(),
            forall|k: Seq<char>|
                self@.dom().contains(k) ==> cloned::<V>(self@[k], #[trigger] r@[k]),
    {
        proof {
            use_type_invariant(self);
        }
        let ghost es = self.entries@;
        let mut work: Vec<(String, V)> = Vec::new();
        let mut i: usize = 0;
        while i < self.entries.len()
            invariant
                i <= es.len(),
                es == self.entries@,
                work@.len() == i,
                forall|k: int|
                    0 <= k < i ==> (#[trigger] work@[k]).0 == es[k].0 && cloned::<V>(
                        es[k].1,
                        work@[k].1,
                    ),
            decreases es.len() - i,
        {
            let key = self.entries[i].0.clone();
            let value = self.entries[i].1.clone();
            work.push((key, value));
            i = i + 1;
        }
        proof {
            assert(key_seq(work@) =~= key_seq(es));
            lemma_dom(work@);
            lemma_dom(es);
        }
        let r = TextMap { entries: work };
        proof {
            assert forall|k: Seq<char>| self@.dom().contains(k) implies cloned::<V>(
                self@[k],
                #[trigger] r@[k],
            ) by {
                let j = index_of(es, k);
                assert(has_key(es, k));
                lemma_index(es, j);
                assert(work@[j].0 == es[j].0);
                lemma_index(work@, j);
            }
        }
        r
    }
}

impl<V> Default for TextMap<V> {
    fn default() -> (r: Self)
        ensures
            r@ == Map::<Seq<char>, V>::empty(),
    {
        TextMap::new()
    }
}

/// A set of texts.
#[derive(Debug, PartialEq, Eq)]
pub struct TextSet {
    map: TextMap<()>,
}

impl View for TextSet {
    type V = Set<Seq<char>>;

    closed spec fn view(&self) -> Set<Seq<char>> {
        self.map@.dom()
    }
}

impl TextSet {
    /// The empty set.
    pub fn new() -> (r: Self)
        ensures
            r@ == Set::<Seq<char>>::empty(),
    {
        let r = TextSet { map: TextMap::new() };
        assert(r@ =~= Set::<Seq<char>>::empty());
        r
    }

    /// Number of members.
    pub fn len(&self) -> (r: usize)
        ensures
            r == self@.len(),
            r == in_order(self@).len(),
            self@.finite(),
    {
        self.map.len()
    }

    /// Whether there is no member.
    pub fn is_empty(&self) -> (r: bool)
        ensures
            r == (self@ == Set::<Seq<char>>::empty()),
    {
        let n: usize = self.map.len();
        proof {
            if n == 0 {
                assert(self@ =~= Set::<Seq<char>>::empty());
            }
        }
        n == 0
    }

    /// The `i`-th member in ascending order.
    pub fn at(&self, i: usize) -> (r: &String)
        requires
            i < self@.len(),
        ensures
            r@ == in_order(self@)[i as int],
            self@.contains(r@),
    {
        self.map.key_at(i)
    }

    /// Whether `t` is a member.
    pub fn contains(&self, t: &str) -> (r: bool)
        ensures
            r == self@.contains(t@),
    {
        self.map.contains_key(t)
    }

    /// Adds `t`; true when it was not a member before.
    pub fn insert(&mut self, t: String) -> (r: bool)
        ensures
            final(self)@ == old(self)@.insert(t@),
            r == !old(self)@.contains(t@),
    {
        let fresh = !self.map.contains_key(t.as_str());
        self.map.insert(t, ());
        fresh
    }

    /// Takes `t` out; true when it was a member.
    pub fn remove(&mut self, t: &str) -> (r: bool)
        ensures
            final(self)@ == old(self)@.remove(t@),
            r == old(self)@.contains(t@),
    {
        self.map.remove(t).is_some()
    }

    /// Takes every member out.
    pub fn clear(&mut self)
        ensures
            final(self)@ == Set::<Seq<char>>::empty(),
    {
        *self = TextSet::new();
    }

    /// Keeps the members that are in `other`.
    pub fn retain_in(&mut self, other: &TextSet)
        ensures
            final(self)@ == old(self)@.intersect(other@),
    {
        let n: usize = self.len();
        let ghost q = in_order(self@);
        let mut kept = TextSet::new();
        let mut i: usize = 0;
        while i < n
            invariant
                i <= n,
                n == self@.len(),
                n == q.len(),
                q == in_order(self@),
                *self == *old(self),
                kept@ == q.take(i as int).to_set().intersect(other@),
            decreases n - i,
        {
            let t = self.at(i);
            let ghost before = kept@;
            if other.contains(t.as_str()) {
                kept.insert(t.clone());
            }
            proof {
                let a = q.take(i as int);
                let b = q.take(i + 1);
                assert(b == a.push(t@));
                lemma_push_set(a, t@);
                assert(kept@ =~= b.to_set().intersect(other@));
            }
            i = i + 1;
        }
        proof {
            assert(q.take(i as int) == q);
            lemma_in_order_exists(old(self)@);
        }
        *self = kept;
    }
}

/// A pushed member is the only new one.
pub proof fn lemma_push_set(a: Seq<Seq<char>>, x: Seq<char>)
    ensures
        a.push(x).to_set() == a.to_set().insert(x),
{
    let b = a.push(x);
    assert forall|k: Seq<char>| b.to_set().contains(k) == a.to_set().insert(x).contains(k) by {
        if b.contains(k) {
            let i = choose|i: int| 0 <= i < b.len() && b[i] == k;
            if i < a.len() {
                assert(a[i] == k);
            }
        }
        if a.contains(k) {
            let i = choose|i: int| 0 <= i < a.len() && a[i] == k;
            assert(b[i] == k);
        }
        assert(b[a.len() as int] == x);
    }
    assert(b.to_set() =~= a.to_set().insert(x));
}

impl Default for TextSet {
    fn default() -> (r: Self)
        ensures
            r@ == Set::<Seq<char>>::empty(),
    {
        TextSet::new()
    }
}

} // verus!
