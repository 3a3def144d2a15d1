//! Tallies: lists of `(key, count)` pairs in which every key occurs once.
//! They hold the per-address and per-protocol counters of the analytics.
use vstd::multiset::Multiset;
use vstd::prelude::*;

verus! {

/// A counter value: `usize` or `u64`.
pub trait Tally: Copy + Sized {
    spec fn value(self) -> int;

    spec fn limit() -> int;

    proof fn lemma_value_bounds(self)
        ensures
            0 <= self.value() <= Self::limit(),
    ;

    fn zero() -> (r: Self)
        ensures
            r.value() == 0,
    ;

    fn at_least(self, other: Self) -> (r: bool)
        ensures
            r == (self.value() >= other.value()),
    ;

    fn plus(self, other: Self) -> (r: Self)
        requires
            self.value() + other.value() <= Self::limit(),
        ensures
            r.value() == self.value() + other.value(),
    ;
}

impl Tally for usize {
    open spec fn value(self) -> int {
        self as int
    }

    open spec fn limit() -> int {
        usize::MAX as int
    }

    proof fn lemma_value_bounds(self) {
    }

    fn zero() -> (r: Self) {
        0
    }

    fn at_least(self, other: Self) -> (r: bool) {
        self >= other
    }

    fn plus(self, other: Self) -> (r: Self) {
        self + other
    }
}

impl Tally for u64 {
    open spec fn value(self) -> int {
        self as int
    }

    open spec fn limit() -> int {
        u64::MAX as int
    }

    proof fn lemma_value_bounds(self) {
    }

    fn zero() -> (r: Self) {
        0
    }

    fn at_least(self, other: Self) -> (r: bool) {
        self >= other
    }

    fn plus(self, other: Self) -> (r: Self) {
        self + other
    }
}

/// A key of a tally, compared by its view.
pub trait TallyKey: View + Sized {
    fn same_as(&self, other: &Self) -> (r: bool)
        ensures
            r == (self@ == other@),
    ;

    fn duplicate(&self) -> (r: Self)
        ensures
            r@ == self@,
    ;
}

impl TallyKey for String {
    fn same_as(&self, other: &Self) -> (r: bool) {
        *self == *other
    }

    fn duplicate(&self) -> (r: Self) {
        self.clone()
    }
}

/// No key occurs twice.
pub open spec fn keys_unique<K: View, C>(v: Seq<(K, C)>) -> bool {
    forall|i: int, j: int| 0 <= i < j < v.len() ==> (#[trigger] v[i]).0@ != (#[trigger] v[j]).0@
}

/// Some entry has key `k`.
pub open spec fn has_key<K: View, C>(v: Seq<(K, C)>, k: K::V) -> bool {
    exists|i: int| 0 <= i < v.len() && (#[trigger] v[i]).0@ == k
}

/// The total counted for key `k`.
pub open spec fn tally_of<K: View, C: Tally>(v: Seq<(K, C)>, k: K::V) -> int
    decreases v.len(),
{
    if v.len() == 0 {
        0
    } else {
        tally_of(v.drop_last(), k) + if v.last().0@ == k {
            v.last().1.value()
        } else {
            0
        }
    }
}

/// Counts are never negative.
pub proof fn lemma_tally_nonneg<K: View, C: Tally>(v: Seq<(K, C)>, k: K::V)
    ensures
        tally_of(v, k) >= 0,
        !has_key(v, k) ==> tally_of(v, k) == 0,
    decreases v.len(),
{
    if v.len() > 0 {
        lemma_tally_nonneg(v.drop_last(), k);
        v.last().1.lemma_value_bounds();
        if !has_key(v, k) {
            assert(v.drop_last().len() < v.len());
            if has_key(v.drop_last(), k) {
                let i = choose|i: int|
                    0 <= i < v.drop_last().len() && (#[trigger] v.drop_last()[i]).0@ == k;
                assert(v[i] == v.drop_last()[i]);
            }
            assert(v.last() == v[v.len() - 1]);
        }
    }
}

/// With unique keys, the total for a key is the count of its single entry.
pub proof fn lemma_tally_at<K: View, C: Tally>(v: Seq<(K, C)>, i: int)
    requires
        keys_unique(v),
        0 <= i < v.len(),
    ensures
        tally_of(v, v[i].0@) == v[i].1.value(),
    decreases v.len(),
{
    let k = v[i].0@;
    let d = v.drop_last();
    assert(keys_unique(d)) by {
        assert forall|a: int, b: int| 0 <= a < b < d.len() implies (#[trigger] d[a]).0@ != (
        #[trigger] d[b]).0@ by {
            assert(d[a] == v[a] && d[b] == v[b]);
        }
    }
    if i == v.len() - 1 {
        assert(!has_key(d, k)) by {
            if has_key(d, k) {
                let j = choose|j: int| 0 <= j < d.len() && (#[trigger] d[j]).0@ == k;
                assert(v[j] == d[j]);
            }
        }
        lemma_tally_nonneg(d, k);
    } else {
        assert(d[i] == v[i]);
        lemma_tally_at(d, i);
        assert(v.last() == v[v.len() - 1]);
    }
}

/// Totals of a prefix never exceed totals of the whole.
pub proof fn lemma_tally_prefix<K: View, C: Tally>(v: Seq<(K, C)>, n: int, k: K::V)
    requires
        0 <= n <= v.len(),
    ensures
        tally_of(v.take(n), k) <= tally_of(v, k),
    decreases v.len() - n,
{
    if n < v.len() {
        lemma_tally_prefix(v, n + 1, k);
        assert(v.take(n + 1).drop_last() =~= v.take(n));
        v[n].1.lemma_value_bounds();
    } else {
        assert(v.take(n) =~= v);
    }
}

/// Replacing the entry at `i` changes only the total of the keys involved.
pub proof fn lemma_tally_update<K: View, C: Tally>(v: Seq<(K, C)>, i: int, e: (K, C), k: K::V)
    requires
        0 <= i < v.len(),
    ensures
        tally_of(v.update(i, e), k) == tally_of(v, k) - (if v[i].0@ == k {
            v[i].1.value()
        } else {
            0
        }) + (if e.0@ == k {
            e.1.value()
        } else {
            0
        }),
    decreases v.len(),
{
    let w = v.update(i, e);
    if i == v.len() - 1 {
        assert(w.drop_last() =~= v.drop_last());
    } else {
        lemma_tally_update(v.drop_last(), i, e, k);
        assert(w.drop_last() =~= v.drop_last().update(i, e));
    }
}

/// Position of the entry with the same key as `k`, if there is one.
pub fn find_key<K: TallyKey, C>(v: &Vec<(K, C)>, k: &K) -> (r: Option<usize>)
    ensures
        match r {
            Some(i) => i < v@.len() && v@[i as int].0@ == k@,
            None => !has_key(v@, k@),
        },
{
    let mut i: usize = 0;
    while i < v.len()
        invariant
            i <= v@.len(),
            forall|j: int| 0 <= j < i ==> (#[trigger] v@[j]).0@ != k@,
        decreases v@.len() - i,
    {
        if v[i].0.same_as(k) {
            return Some(i);
        }
        i = i + 1;
    }
    None
}

/// Adds `c` to the count of `k`, creating the entry when `k` is new.
pub fn add_to_tally<K: TallyKey, C: Tally>(v: &mut Vec<(K, C)>, k: K, c: C)
    requires
        keys_unique(old(v)@),
        tally_of(old(v)@, k@) + c.value() <= C::limit(),
    ensures
        keys_unique(final(v)@),
        forall|x: K::V| #[trigger] has_key(final(v)@, x) == (has_key(old(v)@, x) || x == k@),
        forall|x: K::V|
            tally_of(final(v)@, x) == tally_of(old(v)@, x) + if x == k@ {
                c.value()
            } else {
                0
            },
{
    match find_key(v, &k) {
        Some(i) => {
            proof {
                lemma_tally_at(v@, i as int);
            }
            let cur = v[i].1;
            let kk = v[i].0.duplicate();
            let ghost ov = v@;
            let sum = cur.plus(c);
            v.set(i, (kk, sum));
            proof {
                assert forall|x: K::V|
                    tally_of(v@, x) == tally_of(ov, x) + if x == k@ {
                        c.value()
                    } else {
                        0
                    } by {
                    lemma_tally_update(ov, i as int, v@[i as int], x);
                    assert(v@ =~= ov.update(i as int, v@[i as int]));
                }
                assert forall|a: int, b: int| 0 <= a < b < v@.len() implies (#[trigger] v@[a]).0@
                    != (#[trigger] v@[b]).0@ by {
                    assert(ov[a].0@ != ov[b].0@);
                }
                assert forall|x: K::V| has_key(v@, x) == (has_key(ov, x) || x == k@) by {
                    if has_key(ov, x) {
                        let j = choose|j: int| 0 <= j < ov.len() && (#[trigger] ov[j]).0@ == x;
                        assert(v@[j].0@ == x);
                    }
                    if has_key(v@, x) {
                        let j = choose|j: int| 0 <= j < v@.len() && (#[trigger] v@[j]).0@ == x;
                        assert(ov[j].0@ == x);
                    }
                }
            }
        },
        None => {
            let ghost ov = v@;
            v.push((k, c));
            proof {
                assert(v@.drop_last() =~= ov);
                assert forall|x: K::V|
                    tally_of(v@, x) == tally_of(ov, x) + if x == k@ {
                        c.value()
                    } else {
                        0
                    } by {
                    assert(v@.last() == (k, c));
                }
                assert forall|a: int, b: int| 0 <= a < b < v@.len() implies (#[trigger] v@[a]).0@
                    != (#[trigger] v@[b]).0@ by {
                    if b == ov.len() {
                        assert(v@[a] == ov[a]);
                    } else {
                        assert(v@[a] == ov[a] && v@[b] == ov[b]);
                    }
                }
                assert forall|x: K::V| has_key(v@, x) == (has_key(ov, x) || x == k@) by {
                    if has_key(ov, x) {
                        let j = choose|j: int| 0 <= j < ov.len() && (#[trigger] ov[j]).0@ == x;
                        assert(v@[j] == ov[j]);
                    }
                    if x == k@ {
                        assert(v@[ov.len() as int].0@ == x);
                    }
                    if has_key(v@, x) {
                        let j = choose|j: int| 0 <= j < v@.len() && (#[trigger] v@[j]).0@ == x;
                        if j < ov.len() {
                            assert(ov[j] == v@[j]);
                        }
                    }
                }
            }
        },
    }
}

/// Adds every count of `from` to `into`.
pub fn merge_tally<K: TallyKey, C: Tally>(into: &mut Vec<(K, C)>, from: &Vec<(K, C)>)
    requires
        keys_unique(old(into)@),
        forall|x: K::V| tally_of(old(into)@, x) + tally_of(from@, x) <= C::limit(),
    ensures
        keys_unique(final(into)@),
        forall|x: K::V|
            #[trigger] has_key(final(into)@, x) == (has_key(old(into)@, x) || has_key(from@, x)),
        forall|x: K::V| tally_of(final(into)@, x) == tally_of(old(into)@, x) + tally_of(from@, x),
{
    let ghost start = into@;
    let mut i: usize = 0;
    while i < from.len()
        invariant
            i <= from@.len(),
            keys_unique(into@),
            forall|x: K::V| tally_of(start, x) + tally_of(from@, x) <= C::limit(),
            forall|x: K::V|
                has_key(into@, x) == (has_key(start, x) || has_key(from@.take(i as int), x)),
            forall|x: K::V|
                tally_of(into@, x) == tally_of(start, x) + tally_of(from@.take(i as int), x),
        decreases from@.len() - i,
    {
        let k = from[i].0.duplicate();
        let c = from[i].1;
        let ghost mid = into@;
        proof {
            lemma_tally_prefix(from@, i + 1, k@);
            assert(from@.take(i + 1).drop_last() =~= from@.take(i as int));
        }
        add_to_tally(into, k, c);
        proof {
            let t = from@.take(i + 1);
            assert(t.drop_last() =~= from@.take(i as int));
            assert(t.last() == from@[i as int]);
            assert forall|x: K::V| has_key(into@, x) == (has_key(start, x) || has_key(t, x)) by {
                assert(has_key(into@, x) == (has_key(mid, x) || x == k@));
                assert(has_key(mid, x) == (has_key(start, x) || has_key(from@.take(i as int), x)));
                if has_key(from@.take(i as int), x) {
                    let j = choose|j: int|
                        0 <= j < from@.take(i as int).len() && (#[trigger] from@.take(
                            i as int,
                        )[j]).0@ == x;
                    assert(t[j] == from@.take(i as int)[j]);
                }
                if has_key(t, x) {
                    let j = choose|j: int| 0 <= j < t.len() && (#[trigger] t[j]).0@ == x;
                    if j < i {
                        assert(t[j] == from@.take(i as int)[j]);
                    } else {
                        assert(t[j] == from@[i as int]);
                    }
                }
                if x == k@ {
                    assert(t[i as int].0@ == x);
                }
            }
        }
        i = i + 1;
    }
    proof {
        assert(from@.take(from@.len() as int) =~= from@);
    }
}

/// Entry `x` of `v` is not smaller than any entry of `rest`.
pub open spec fn dominates<K, C: Tally>(x: (K, C), rest: Seq<(K, C)>) -> bool {
    forall|j: int| 0 <= j < rest.len() ==> x.1.value() >= (#[trigger] rest[j]).1.value()
}

/// Counts never increase along `v`.
pub open spec fn sorted_desc<K, C: Tally>(v: Seq<(K, C)>) -> bool {
    forall|i: int, j: int|
        0 <= i < j < v.len() ==> (#[trigger] v[i]).1.value() >= (#[trigger] v[j]).1.value()
}

/// `r` holds `n` largest entries of `v` (all of them when `v` is shorter),
/// largest first; every entry left out is at most every entry kept.
pub open spec fn is_top<K, C: Tally>(v: Seq<(K, C)>, r: Seq<(K, C)>, n: int) -> bool {
    &&& r.len() == if v.len() < n {
        v.len() as int
    } else {
        n
    }
    &&& r.to_multiset().subset_of(v.to_multiset())
    &&& sorted_desc(r)
    &&& forall|i: int, x: (K, C)|
        #![trigger r[i], left_out(v, r).count(x)]
        0 <= i < r.len() && left_out(v, r).count(x) > 0 ==> r[i].1.value() >= x.1.value()
}

/// The entries of `v` that `r` does not hold.
pub open spec fn left_out<K, C>(v: Seq<(K, C)>, r: Seq<(K, C)>) -> Multiset<(K, C)> {
    v.to_multiset().sub(r.to_multiset())
}

/// Index of an entry with the largest count.
fn index_of_max<K, C: Tally>(v: &Vec<(K, C)>) -> (m: usize)
    requires
        v@.len() > 0,
    ensures
        m < v@.len(),
        dominates(v@[m as int], v@),
{
    let mut m: usize = 0;
    let mut i: usize = 1;
    while i < v.len()
        invariant
            1 <= i <= v@.len(),
            m < i,
            forall|j: int| 0 <= j < i ==> v@[m as int].1.value() >= (#[trigger] v@[j]).1.value(),
        decreases v@.len() - i,
    {
        if !v[m].1.at_least(v[i].1) {
            m = i;
        }
        i = i + 1;
    }
    m
}

/// The `n` entries with the largest counts, largest first.
pub fn top_n_sorted<K: View, C: Tally>(v: Vec<(K, C)>, n: usize) -> (r: Vec<(K, C)>)
    ensures
        is_top(v@, r@, n as int),
        keys_unique(v@) ==> keys_unique(r@),
{
    broadcast use vstd::seq_lib::group_to_multiset_ensures;

    let ghost orig = v@;
    let mut rest = v;
    let mut r: Vec<(K, C)> = Vec::new();
    while r.len() < n && rest.len() > 0
        invariant
            r@.to_multiset().add(rest@.to_multiset()) == orig.to_multiset(),
            r@.len() + rest@.len() == orig.len(),
            r@.len() <= n,
            sorted_desc(r@),
            forall|i: int| 0 <= i < r@.len() ==> dominates(#[trigger] r@[i], rest@),
            keys_unique(orig) ==> keys_unique(r@ + rest@),
        decreases rest@.len(),
    {
        let m = index_of_max(&rest);
        let ghost before_r = r@;
        let ghost before_rest = rest@;
        let x = rest.remove(m);
        r.push(x);
        proof {
            broadcast use vstd::multiset::group_multiset_axioms;

            assert(r@ == before_r.push(x));
            assert(rest@ == before_rest.remove(m as int));
            assert(before_rest[m as int] == x);
            assert(before_rest.contains(x));
            vstd::seq_lib::to_multiset_contains(before_rest, x);
            assert(before_rest.to_multiset().count(x) > 0);
            vstd::seq_lib::to_multiset_remove(before_rest, m as int);
            vstd::seq_lib::to_multiset_build(before_r, x);
            assert(r@.to_multiset() =~= before_r.to_multiset().insert(x));
            assert(rest@.to_multiset() =~= before_rest.to_multiset().remove(x));
            assert(r@.to_multiset().add(rest@.to_multiset()) =~= orig.to_multiset());
            assert forall|i: int, j: int| 0 <= i < j < r@.len() implies (#[trigger] r@[i]).1.value()
                >= (#[trigger] r@[j]).1.value() by {
                if j == r@.len() - 1 {
                    assert(dominates(before_r[i], before_rest));
                    assert(before_rest[m as int] == x);
            assert(before_rest.contains(x));
            vstd::seq_lib::to_multiset_contains(before_rest, x);
            assert(before_rest.to_multiset().count(x) > 0);
                }
            }
            assert forall|i: int| 0 <= i < r@.len() implies dominates(#[trigger] r@[i], rest@) by {
                assert forall|j: int| 0 <= j < rest@.len() implies r@[i].1.value() >= (
                #[trigger] rest@[j]).1.value() by {
                    let jj = if j < m {
                        j
                    } else {
                        j + 1
                    };
                    assert(rest@[j] == before_rest[jj]);
                    if i < before_r.len() {
                        assert(dominates(before_r[i], before_rest));
                    }
                }
            }
            if keys_unique(orig) {
                let a = before_r + before_rest;
                let b = r@ + rest@;
                assert forall|p: int, q: int| 0 <= p < q < b.len() implies (#[trigger] b[p]).0@
                    != (#[trigger] b[q]).0@ by {
                    let map = |t: int|
                        if t < before_r.len() {
                            t
                        } else if t == before_r.len() {
                            before_r.len() + m
                        } else if t - before_r.len() - 1 < m {
                            t - 1
                        } else {
                            t
                        };
                    assert(b[p] == a[map(p)]);
                    assert(b[q] == a[map(q)]);
                    assert(map(p) != map(q));
                    if map(p) < map(q) {
                        assert(a[map(p)].0@ != a[map(q)].0@);
                    } else {
                        assert(a[map(q)].0@ != a[map(p)].0@);
                    }
                }
            }
        }
    }
    proof {
        let mr = r@.to_multiset();
        let mo = orig.to_multiset();
        assert(mr.subset_of(mo)) by {
            assert forall|x: (K, C)| mr.count(x) <= mo.count(x) by {
            }
        }
        assert(mo.sub(mr) =~= rest@.to_multiset());
        assert forall|i: int, x: (K, C)|
            #![trigger r@[i], left_out(orig, r@).count(x)]
            0 <= i < r@.len() && left_out(orig, r@).count(x) > 0 implies r@[i].1.value()
            >= x.1.value() by {
            assert(rest@.to_multiset().contains(x));
            assert(rest@.contains(x));
            let j = choose|j: int| 0 <= j < rest@.len() && rest@[j] == x;
            assert(dominates(r@[i], rest@));
        }
        if keys_unique(orig) {
            assert forall|p: int, q: int| 0 <= p < q < r@.len() implies (#[trigger] r@[p]).0@
                != (#[trigger] r@[q]).0@ by {
                assert((r@ + rest@)[p] == r@[p]);
                assert((r@ + rest@)[q] == r@[q]);
            }
        }
    }
    r
}

/// Keeps only the `max_entries` largest counts when there are more.
pub fn cap_tally<K: View, C: Tally>(v: &mut Vec<(K, C)>, max_entries: usize)
    ensures
        old(v)@.len() <= max_entries ==> final(v)@ == old(v)@,
        old(v)@.len() > max_entries ==> is_top(old(v)@, final(v)@, max_entries as int),
        keys_unique(old(v)@) ==> keys_unique(final(v)@),
{
    if v.len() <= max_entries {
        return;
    }
    let mut taken: Vec<(K, C)> = Vec::new();
    std::mem::swap(v, &mut taken);
    *v = top_n_sorted(taken, max_entries);
}

} // verus!
