//! A bounded buffer of key/value samples, kept in key order.
//!
//! The buffer is viewed as the sequence of its `(key, value)` entries, oldest
//! first. Keys never decrease along that sequence. An insertion into a full
//! buffer drops the entry at the front to make room; an insertion that is
//! refused changes nothing.

pub mod laws;

use crate::order::{is_eq, is_lt, lawful, le, lemma_total_order, lt};
use std::collections::VecDeque;
use vstd::pervasive::cloned;
use vstd::prelude::*;

verus! {

/// Why an insertion was refused.
#[derive(Debug)]
pub enum TimeSeriesError {
    /// The key is already stored, somewhere before the newest entry.
    KeyExists,
}

/// Keys never decrease from one entry to the next.
pub open spec fn sorted<K: Ord, V>(s: Seq<(K, V)>) -> bool {
    forall|i: int, j: int| #![trigger s[i], s[j]] 0 <= i <= j < s.len() ==> le(s[i].0, s[j].0)
}

/// Some entry of `s` holds `key`.
pub open spec fn contains_key<K, V>(s: Seq<(K, V)>, key: K) -> bool {
    exists|i: int| 0 <= i < s.len() && (#[trigger] s[i]).0 == key
}

/// `i` is the first position of `s` that holds `key`.
pub open spec fn first_with_key<K, V>(s: Seq<(K, V)>, key: K, i: int) -> bool {
    &&& 0 <= i < s.len()
    &&& s[i].0 == key
    &&& forall|j: int| 0 <= j < i ==> (#[trigger] s[j]).0 != key
}

/// `i` is the last position of `s` whose key is at most `key`.
pub open spec fn last_at_or_before<K: Ord, V>(s: Seq<(K, V)>, key: K, i: int) -> bool {
    &&& 0 <= i < s.len()
    &&& le(s[i].0, key)
    &&& forall|j: int| i < j < s.len() ==> lt(key, (#[trigger] s[j]).0)
}

/// Every entry before position `p` has a key smaller than `key`, and no entry
/// from `p` on has.
pub open spec fn splits_at<K: Ord, V>(s: Seq<(K, V)>, key: K, p: int) -> bool {
    &&& 0 <= p <= s.len()
    &&& forall|i: int| 0 <= i < p ==> lt((#[trigger] s[i]).0, key)
    &&& forall|i: int| p <= i < s.len() ==> !lt((#[trigger] s[i]).0, key)
}

/// The position at which `key` enters a sorted sequence: the number of
/// entries with a smaller key.
pub open spec fn lower_bound<K: Ord, V>(s: Seq<(K, V)>, key: K) -> int {
    choose|p: int| splits_at(s, key, p)
}

/// What is left of `s` once room has been made for one more entry: a full
/// buffer loses its oldest entry.
pub open spec fn evicted<K, V>(s: Seq<(K, V)>, capacity: nat) -> Seq<(K, V)> {
    if s.len() >= capacity && s.len() > 0 {
        s.drop_first()
    } else {
        s
    }
}

/// `key` is not smaller than the newest key of `s`, so it is appended.
pub open spec fn appends<K: Ord, V>(s: Seq<(K, V)>, key: K) -> bool {
    s.len() == 0 || !lt(key, s.last().0)
}

/// Inserting `key` into a buffer that holds `s` is refused: the key is
/// smaller than the newest key and already stored, both seen in the entries
/// that would stay once room has been made.
pub open spec fn insert_fails<K: Ord, V>(s: Seq<(K, V)>, capacity: nat, key: K) -> bool {
    let base = evicted(s, capacity);
    !appends(base, key) && contains_key(base, key)
}

/// Where an accepted `key` is placed, counted in the buffer after eviction.
pub open spec fn insert_position<K: Ord, V>(s: Seq<(K, V)>, capacity: nat, key: K) -> int {
    let base = evicted(s, capacity);
    if appends(base, key) {
        base.len() as int
    } else {
        lower_bound(base, key)
    }
}

/// The entries after inserting `(key, value)` into a buffer that holds `s`.
/// A refused insertion leaves them as they are.
pub open spec fn inserted<K: Ord, V>(s: Seq<(K, V)>, capacity: nat, key: K, value: V) -> Seq<
    (K, V),
> {
    let base = evicted(s, capacity);
    if insert_fails(s, capacity, key) {
        s
    } else {
        base.insert(insert_position(s, capacity, key), (key, value))
    }
}

/// `lower <= key < upper`.
pub open spec fn in_range<K: Ord>(key: K, lower: K, upper: K) -> bool {
    le(lower, key) && lt(key, upper)
}

/// The entries of `s` whose keys lie in `[lower, upper)`, in their order.
pub open spec fn within<K: Ord, V>(s: Seq<(K, V)>, lower: K, upper: K) -> Seq<(K, V)> {
    s.filter(|e: (K, V)| in_range(e.0, lower, upper))
}

/// At most one position splits a sequence for a key.
pub proof fn lemma_lower_bound<K: Ord, V>(s: Seq<(K, V)>, key: K, p: int)
    requires
        splits_at(s, key, p),
    ensures
        lower_bound(s, key) == p,
{
    let q = lower_bound(s, key);
    assert(splits_at(s, key, q));
    if q < p {
        assert(lt(s[q].0, key));
    }
    if p < q {
        assert(lt(s[p].0, key));
    }
}

/// A queriable in-memory structure that holds ordered data in a map-like
/// key/value fashion. Its capacity is at least 1 and 100,000 by default.
pub struct TimeSeriesArray<K, V> where K: Copy + Ord, V: Clone {
    keys: VecDeque<K>,
    values: VecDeque<V>,
    max_elem_count: usize,
}

impl<K, V> View for TimeSeriesArray<K, V> where K: Copy + Ord, V: Clone {
    type V = Seq<(K, V)>;

    closed spec fn view(&self) -> Seq<(K, V)> {
        Seq::new(self.keys@.len(), |i: int| (self.keys@[i], self.values@[i]))
    }
}

impl<K, V> TimeSeriesArray<K, V> where K: Copy + Ord, V: Clone {
    /// The largest number of entries that the buffer holds.
    pub closed spec fn capacity(&self) -> nat {
        self.max_elem_count as nat
    }

    /// The two internal sequences have one length.
    pub closed spec fn aligned(&self) -> bool {
        self.keys@.len() == self.values@.len()
    }

    /// The buffer is valid: sorted by key, within its capacity.
    pub open spec fn wf(&self) -> bool {
        &&& self.aligned()
        &&& sorted(self@)
        &&& 1 <= self.capacity()
        &&& self@.len() <= self.capacity()
    }

    /// An empty buffer of capacity 100,000.
    pub fn new() -> (r: Self)
        ensures
            r.wf(),
            r@ == Seq::<(K, V)>::empty(),
            r.capacity() == 100000,
    {
        Self { keys: VecDeque::new(), values: VecDeque::new(), max_elem_count: 100000 }
    }

    /// An empty buffer of the given capacity, raised to 1 where it is 0.
    pub fn new_with_capacity(max_elem_count: usize) -> (r: Self)
        ensures
            r.wf(),
            r@ == Seq::<(K, V)>::empty(),
            r.capacity() == if max_elem_count < 1 {
                1
            } else {
                max_elem_count as nat
            },
    {
        let bounded: usize = if max_elem_count < 1 {
            1
        } else {
            max_elem_count
        };
        Self { keys: VecDeque::new(), values: VecDeque::new(), max_elem_count: bounded }
    }

    /// The number of entries held.
    pub fn len(&self) -> (n: usize)
        requires
            self.wf(),
        ensures
            n == self@.len(),
    {
        self.keys.len()
    }

    /// Inserts a copy of `val` under `key`.
    ///
    /// A full buffer loses its oldest entry to make room. A key that is not
    /// smaller than the newest one is appended, also where it repeats that
    /// key. Any other key goes to its place in the order, unless one of the
    /// entries that would stay already holds it: then `KeyExists` is returned
    /// and the buffer stays as it was, its oldest entry included.
    pub fn insert(&mut self, key: K, val: &V) -> (r: Result<(), TimeSeriesError>)
        requires
            lawful::<K>(),
            old(self).wf(),
        ensures
            final(self).wf(),
            final(self).capacity() == old(self).capacity(),
            r is Err <==> insert_fails(old(self)@, old(self).capacity(), key),
            r is Err ==> final(self)@ == old(self)@,
            r is Ok ==> {
                let p = insert_position(old(self)@, old(self).capacity(), key);
                &&& 0 <= p < final(self)@.len()
                &&& cloned(*val, final(self)@[p].1)
                &&& final(self)@ == inserted(
                    old(self)@,
                    old(self).capacity(),
                    key,
                    final(self)@[p].1,
                )
            },
    {
        let n = self.keys.len();
        if n >= self.max_elem_count {
            if n > 1 {
                let most_recent = self.keys[n - 1];
                if is_lt(&key, &most_recent) {
                    let p = self.partition_point(&key, false, 1);
                    let ghost staying = self@.drop_first();
                    proof {
                        lemma_total_order::<K>();
                        assert(staying.last() == self@[n - 1]);
                    }
                    if p < n && is_eq(&self.keys[p], &key) {
                        assert(staying[p - 1].0 == key);
                        return Err(TimeSeriesError::KeyExists);
                    }
                    assert forall|i: int| 0 <= i < staying.len() implies (#[trigger] staying[i]).0
                        != key by {
                        assert(staying[i] == self@[i + 1]);
                        if staying[i].0 == key {
                            if i + 1 < p {
                                assert(lt(self@[i + 1].0, key));
                            } else {
                                assert(le(self@[p as int].0, self@[i + 1].0));
                            }
                        }
                    }
                }
            }
            let _ = self.remove_element();
        }
        let n = self.keys.len();
        if n > 0 {
            let most_recent = self.keys[n - 1];
            if is_lt(&key, &most_recent) {
                return self.insert_not_ordered(key, val);
            }
        }
        let ghost base = self@;
        let stored = val.clone();
        self.keys.push_back(key);
        self.values.push_back(stored);
        proof {
            lemma_total_order::<K>();
            assert(self@ =~= base.push((key, stored)));
            assert(base.push((key, stored)) =~= base.insert(base.len() as int, (key, stored)));
            assert forall|i: int, j: int| 0 <= i <= j < self@.len() implies le(
                self@[i].0,
                self@[j].0,
            ) by {
                if j == base.len() && i < j {
                    assert(le(base[i].0, base[base.len() - 1].0));
                }
            }
        }
        Ok(())
    }

    /// The value of the first entry stored under `key`, if there is one.
    pub fn find_key(&self, key: &K) -> (r: Option<&V>)
        requires
            lawful::<K>(),
            self.wf(),
        ensures
            r is Some <==> contains_key(self@, *key),
            r matches Some(v) ==> exists|i: int|
                first_with_key(self@, *key, i) && *v == (#[trigger] self@[i]).1,
    {
        let p = self.partition_point(key, false, 0);
        proof {
            lemma_total_order::<K>();
        }
        if p < self.keys.len() && is_eq(&self.keys[p], key) {
            assert(first_with_key(self@, *key, p as int));
            Some(&self.values[p])
        } else {
            assert forall|i: int| 0 <= i < self@.len() implies (#[trigger] self@[i]).0 != *key by {
                if self@[i].0 == *key {
                    if i < p {
                        assert(lt(self@[i].0, *key));
                    } else {
                        assert(le(self@[p as int].0, self@[i].0));
                    }
                }
            }
            None
        }
    }

    /// The last entry whose key is at most `key`, if there is one.
    pub fn last_value_for_key(&self, key: &K) -> (r: Option<(K, &V)>)
        requires
            lawful::<K>(),
            self.wf(),
        ensures
            r is None <==> forall|i: int| 0 <= i < self@.len() ==> lt(*key, (#[trigger] self@[i]).0),
            r matches Some(e) ==> exists|i: int|
                last_at_or_before(self@, *key, i) && e.0 == (#[trigger] self@[i]).0 && *e.1
                    == self@[i].1,
    {
        match self.get_index_last_value_for_key(key) {
            None => None,
            Some(i) => Some((self.keys[i], &self.values[i])),
        }
    }

    /// The entries whose keys lie in `[lower_bound, upper_bound)`, in
    /// ascending order of key. No entry where the bounds cross.
    pub fn range_query(&self, lower_bound: K, upper_bound: K) -> (r: Vec<(&K, &V)>)
        requires
            lawful::<K>(),
            self.wf(),
        ensures
            r@.len() == within(self@, lower_bound, upper_bound).len(),
            forall|j: int|
                0 <= j < r@.len() ==> (*(#[trigger] r@[j]).0, *r@[j].1) == within(
                    self@,
                    lower_bound,
                    upper_bound,
                )[j],
    {
        let idx_lb = self.partition_point(&lower_bound, false, 0);
        let idx_ub = self.partition_point(&upper_bound, false, 0);
        let mut out: Vec<(&K, &V)> = Vec::new();
        proof {
            lemma_window(self@, lower_bound, upper_bound, idx_lb as int, idx_ub as int);
        }
        if idx_lb >= idx_ub {
            return out;
        }
        let mut i = idx_lb;
        while i < idx_ub
            invariant
                self.aligned(),
                idx_lb <= i <= idx_ub <= self@.len(),
                out@.len() == i - idx_lb,
                forall|j: int|
                    0 <= j < out@.len() ==> (*(#[trigger] out@[j]).0, *out@[j].1) == self@[idx_lb
                        + j],
            decreases idx_ub - i,
        {
            out.push((&self.keys[i], &self.values[i]));
            i += 1;
        }
        out
    }

    /// The position of the last entry whose key is at most `key`.
    fn get_index_last_value_for_key(&self, key: &K) -> (r: Option<usize>)
        requires
            lawful::<K>(),
            self.wf(),
        ensures
            r is None <==> forall|i: int| 0 <= i < self@.len() ==> lt(*key, (#[trigger] self@[i]).0),
            r matches Some(i) ==> last_at_or_before(self@, *key, i as int),
    {
        let p = self.partition_point(key, true, 0);
        proof {
            lemma_total_order::<K>();
        }
        if p == 0 {
            None
        } else {
            assert(below(self@[p - 1].0, *key, true));
            Some(p - 1)
        }
    }

    /// Inserts at the place that the order gives, unless the key is stored.
    fn insert_not_ordered(&mut self, key: K, val: &V) -> (r: Result<(), TimeSeriesError>)
        requires
            lawful::<K>(),
            old(self).wf(),
            old(self)@.len() < old(self).capacity(),
        ensures
            final(self).wf(),
            final(self).capacity() == old(self).capacity(),
            r is Err <==> contains_key(old(self)@, key),
            r is Err ==> final(self)@ == old(self)@,
            r is Ok ==> {
                let p = lower_bound(old(self)@, key);
                &&& 0 <= p <= old(self)@.len()
                &&& cloned(*val, final(self)@[p].1)
                &&& final(self)@ == old(self)@.insert(p, (key, final(self)@[p].1))
            },
    {
        let pos = self.partition_point(&key, false, 0);
        let ghost base = self@;
        proof {
            lemma_total_order::<K>();
            lemma_lower_bound(base, key, pos as int);
        }
        if pos < self.keys.len() && is_eq(&self.keys[pos], &key) {
            assert(base[pos as int].0 == key);
            return Err(TimeSeriesError::KeyExists);
        }
        assert forall|i: int| 0 <= i < base.len() implies (#[trigger] base[i]).0 != key by {
            if base[i].0 == key {
                if i < pos {
                    assert(lt(base[i].0, key));
                } else {
                    assert(le(base[pos as int].0, base[i].0));
                }
            }
        }
        let stored = val.clone();
        self.keys.insert(pos, key);
        self.values.insert(pos, stored);
        proof {
            assert(self@ =~= base.insert(pos as int, (key, stored)));
            assert forall|i: int, j: int| 0 <= i <= j < self@.len() implies le(
                self@[i].0,
                self@[j].0,
            ) by {
                let a = if i < pos { i } else { i - 1 };
                let b = if j < pos { j } else { j - 1 };
                if i != pos && j != pos {
                    assert(le(base[a].0, base[b].0));
                } else if i == pos && j != pos {
                    assert(!lt(base[b].0, key));
                } else if i != pos && j == pos {
                    assert(lt(base[a].0, key));
                }
            }
        }
        Ok(())
    }

    /// Takes the oldest entry out, if there is one.
    fn remove_element(&mut self) -> (r: Option<(K, V)>)
        requires
            old(self).wf(),
        ensures
            final(self).wf(),
            final(self).capacity() == old(self).capacity(),
            old(self)@.len() == 0 ==> r is None && final(self)@ == old(self)@,
            old(self)@.len() > 0 ==> r == Some(old(self)@[0]) && final(self)@ == old(
                self,
            )@.drop_first(),
    {
        let ghost base = self@;
        if self.keys.len() == 0 {
            return None;
        }
        let key = self.keys.pop_front();
        let value = self.values.pop_front();
        proof {
            assert(self@ =~= base.drop_first());
            assert forall|i: int, j: int| 0 <= i <= j < self@.len() implies le(
                self@[i].0,
                self@[j].0,
            ) by {
                assert(le(base[i + 1].0, base[j + 1].0));
            }
        }
        match (key, value) {
            (Some(k), Some(v)) => Some((k, v)),
            _ => None,
        }
    }

    /// Where the entries from `from` on stop being below `key`: strictly
    /// below, or at most `key` where `inclusive` is set.
    fn partition_point(&self, key: &K, inclusive: bool, from: usize) -> (p: usize)
        requires
            lawful::<K>(),
            self.wf(),
            from <= self@.len(),
        ensures
            from <= p <= self@.len(),
            forall|i: int| from <= i < p ==> below((#[trigger] self@[i]).0, *key, inclusive),
            forall|i: int| p <= i < self@.len() ==> !below((#[trigger] self@[i]).0, *key, inclusive),
            !inclusive && from == 0 ==> splits_at(self@, *key, p as int),
    {
        let mut lo: usize = from;
        let mut hi: usize = self.keys.len();
        proof {
            lemma_total_order::<K>();
        }
        while lo < hi
            invariant
                lawful::<K>(),
                self.wf(),
                from <= lo <= hi <= self@.len(),
                forall|i: int| from <= i < lo ==> below((#[trigger] self@[i]).0, *key, inclusive),
                forall|i: int|
                    hi <= i < self@.len() ==> !below((#[trigger] self@[i]).0, *key, inclusive),
            decreases hi - lo,
        {
            let mid = lo + (hi - lo) / 2;
            let probe = self.keys[mid];
            let is_below = if inclusive {
                !is_lt(key, &probe)
            } else {
                is_lt(&probe, key)
            };
            proof {
                lemma_total_order::<K>();
                assert(self@[mid as int].0 == probe);
                assert(is_below == below(probe, *key, inclusive));
                if is_below {
                    assert forall|i: int| from <= i < mid + 1 implies below(
                        (#[trigger] self@[i]).0,
                        *key,
                        inclusive,
                    ) by {
                        assert(le(self@[i].0, self@[mid as int].0));
                    }
                } else {
                    assert forall|i: int| mid <= i < self@.len() implies !below(
                        (#[trigger] self@[i]).0,
                        *key,
                        inclusive,
                    ) by {
                        assert(le(self@[mid as int].0, self@[i].0));
                    }
                }
            }
            if is_below {
                lo = mid + 1;
            } else {
                hi = mid;
            }
        }
        lo
    }
}

/// `a` is below `key`: strictly, or at most `key` where `inclusive` is set.
pub open spec fn below<K: Ord>(a: K, key: K, inclusive: bool) -> bool {
    if inclusive {
        le(a, key)
    } else {
        lt(a, key)
    }
}

/// In a sorted sequence the entries of a key range are those between the
/// positions at which the two bounds split it.
pub proof fn lemma_window<K: Ord, V>(s: Seq<(K, V)>, lower: K, upper: K, lo: int, hi: int)
    requires
        lawful::<K>(),
        sorted(s),
        splits_at(s, lower, lo),
        splits_at(s, upper, hi),
    ensures
        lo < hi ==> within(s, lower, upper) == s.subrange(lo, hi),
        lo >= hi ==> within(s, lower, upper) == Seq::<(K, V)>::empty(),
{
    lemma_total_order::<K>();
    let pred = |e: (K, V)| in_range(e.0, lower, upper);
    if lo < hi {
        let a = s.subrange(0, lo);
        let b = s.subrange(lo, hi);
        let c = s.subrange(hi, s.len() as int);
        assert(s =~= a + b + c);
        Seq::filter_distributes_over_add(a + b, c, pred);
        Seq::filter_distributes_over_add(a, b, pred);
        assert forall|i: int| 0 <= i < a.len() implies !pred(#[trigger] a[i]) by {
            assert(lt(s[i].0, lower));
        }
        assert forall|i: int| 0 <= i < c.len() implies !pred(#[trigger] c[i]) by {
            assert(!lt(s[hi + i].0, upper));
        }
        assert forall|i: int| 0 <= i < b.len() implies pred(#[trigger] b[i]) by {
            assert(!lt(s[lo + i].0, lower));
            assert(lt(s[lo + i].0, upper));
        }
        lemma_filter_none(a, pred);
        lemma_filter_none(c, pred);
        lemma_filter_all(b, pred);
        assert(a.filter(pred) + b.filter(pred) + c.filter(pred) =~= b);
    } else {
        assert forall|i: int| 0 <= i < s.len() implies !pred(#[trigger] s[i]) by {
            if i < lo {
                assert(lt(s[i].0, lower));
            } else {
                assert(!lt(s[i].0, upper));
            }
        }
        lemma_filter_none(s, pred);
    }
}

/// Filtering drops everything where nothing meets the predicate.
proof fn lemma_filter_none<A>(s: Seq<A>, pred: spec_fn(A) -> bool)
    requires
        forall|i: int| 0 <= i < s.len() ==> !pred(#[trigger] s[i]),
    ensures
        s.filter(pred) == Seq::<A>::empty(),
    decreases s.len(),
{
    reveal(Seq::filter);
    if s.len() > 0 {
        assert(!pred(s[s.len() - 1]));
        lemma_filter_none(s.drop_last(), pred);
    }
}

/// Filtering keeps everything where every element meets the predicate.
proof fn lemma_filter_all<A>(s: Seq<A>, pred: spec_fn(A) -> bool)
    requires
        forall|i: int| 0 <= i < s.len() ==> pred(#[trigger] s[i]),
    ensures
        s.filter(pred) == s,
    decreases s.len(),
{
    reveal(Seq::filter);
    if s.len() > 0 {
        assert(pred(s[s.len() - 1]));
        lemma_filter_all(s.drop_last(), pred);
        assert(s.drop_last().push(s.last()) =~= s);
    }
}

} // verus!
