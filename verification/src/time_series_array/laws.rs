//! What holds of the buffer over whole runs of insertions and queries.

use super::{
    appends, contains_key, evicted, in_range, insert_fails, inserted, last_at_or_before,
    lemma_lower_bound, lower_bound, sorted, splits_at, within,
};
use crate::order::{lawful, le, lemma_total_order, lt};
use vstd::prelude::*;

verus! {

/// The entries after inserting each entry of `entries` in turn, first to
/// last, into a buffer that holds `s`.
pub open spec fn inserted_all<K: Ord, V>(s: Seq<(K, V)>, capacity: nat, entries: Seq<(K, V)>) -> Seq<
    (K, V),
>
    decreases entries.len(),
{
    if entries.len() == 0 {
        s
    } else {
        let e = entries.last();
        inserted(inserted_all(s, capacity, entries.drop_last()), capacity, e.0, e.1)
    }
}

/// The newest `capacity` entries of `entries`, or all of them where they are
/// fewer.
pub open spec fn newest<K, V>(entries: Seq<(K, V)>, capacity: nat) -> Seq<(K, V)> {
    if entries.len() <= capacity {
        entries
    } else {
        entries.subrange(entries.len() - capacity, entries.len() as int)
    }
}

/// A sorted sequence is split somewhere by every key.
pub proof fn lemma_sorted_splits<K: Ord, V>(s: Seq<(K, V)>, key: K)
    requires
        lawful::<K>(),
        sorted(s),
    ensures
        splits_at(s, key, lower_bound(s, key)),
    decreases s.len(),
{
    lemma_total_order::<K>();
    if s.len() == 0 {
        assert(splits_at(s, key, 0));
    } else {
        let t = s.drop_last();
        assert forall|i: int, j: int| 0 <= i <= j < t.len() implies le(t[i].0, t[j].0) by {
            assert(le(s[i].0, s[j].0));
        }
        lemma_sorted_splits(t, key);
        let q = lower_bound(t, key);
        if lt(s.last().0, key) {
            assert forall|i: int| 0 <= i < s.len() implies lt((#[trigger] s[i]).0, key) by {
                assert(le(s[i].0, s[s.len() - 1].0));
            }
            assert(splits_at(s, key, s.len() as int));
        } else {
            assert forall|i: int| 0 <= i < q implies lt((#[trigger] s[i]).0, key) by {
                assert(s[i] == t[i]);
            }
            assert forall|i: int| q <= i < s.len() implies !lt((#[trigger] s[i]).0, key) by {
                if i < t.len() {
                    assert(s[i] == t[i]);
                }
            }
            assert(splits_at(s, key, q));
        }
    }
}

/// Insertion keeps the buffer valid: whatever the key, the entries stay
/// sorted and within the capacity.
pub proof fn law_insert_keeps_order<K: Ord, V>(s: Seq<(K, V)>, capacity: nat, key: K, value: V)
    requires
        lawful::<K>(),
        sorted(s),
        1 <= capacity,
        s.len() <= capacity,
    ensures
        sorted(inserted(s, capacity, key, value)),
        inserted(s, capacity, key, value).len() <= capacity,
{
    lemma_total_order::<K>();
    let base = evicted(s, capacity);
    let after = inserted(s, capacity, key, value);
    assert forall|i: int, j: int| 0 <= i <= j < base.len() implies le(base[i].0, base[j].0) by {
        if base.len() < s.len() {
            assert(le(s[i + 1].0, s[j + 1].0));
        } else {
            assert(le(s[i].0, s[j].0));
        }
    }
    if insert_fails(s, capacity, key) {
    } else if appends(base, key) {
        assert forall|i: int, j: int| 0 <= i <= j < after.len() implies le(
            after[i].0,
            after[j].0,
        ) by {
            if j == base.len() && i < j {
                assert(le(base[i].0, base[base.len() - 1].0));
            } else if j < base.len() {
                assert(le(base[i].0, base[j].0));
            }
        }
    } else {
        lemma_sorted_splits(base, key);
        let p = lower_bound(base, key);
        assert forall|i: int, j: int| 0 <= i <= j < after.len() implies le(
            after[i].0,
            after[j].0,
        ) by {
            let a = if i < p { i } else { i - 1 };
            let b = if j < p { j } else { j - 1 };
            if i != p && j != p {
                assert(le(base[a].0, base[b].0));
            } else if i == p && j != p {
                assert(!lt(base[b].0, key));
            } else if i != p && j == p {
                assert(lt(base[a].0, key));
            }
        }
    }
}

/// A key that is not below another is not exceeded by it.
proof fn lemma_le_excludes_gt<K: Ord>(a: K, b: K)
    requires
        lawful::<K>(),
        le(a, b),
    ensures
        !lt(b, a),
{
    lemma_total_order::<K>();
}

/// Appending to the newest entries and trimming gives the newest entries of
/// the longer run.
proof fn lemma_newest_step<K: Ord, V>(capacity: nat, entries: Seq<(K, V)>)
    requires
        lawful::<K>(),
        1 <= capacity,
        sorted(entries),
        entries.len() > 0,
    ensures
        inserted(
            newest(entries.drop_last(), capacity),
            capacity,
            entries.last().0,
            entries.last().1,
        ) == newest(entries, capacity),
{
    let n = entries.len() as int;
    let e = entries.last();
    let before = newest(entries.drop_last(), capacity);
    let base = evicted(before, capacity);
    if base.len() > 0 {
        assert(base.last() == entries[n - 2]);
        assert(le(entries[n - 2].0, entries[n - 1].0));
        lemma_le_excludes_gt(entries[n - 2].0, entries[n - 1].0);
    }
    assert(appends(base, e.0));
    assert(base.insert(base.len() as int, (e.0, e.1)) =~= newest(entries, capacity));
}

/// Keys inserted in non-decreasing order into an empty buffer are all
/// accepted, and the buffer then holds the newest of them, as many as its
/// capacity allows, in the order of insertion: the stored keys are sorted, and
/// each of these keys is found.
pub proof fn law_ascending_inserts<K: Ord, V>(capacity: nat, entries: Seq<(K, V)>)
    requires
        lawful::<K>(),
        1 <= capacity,
        sorted(entries),
    ensures
        inserted_all(Seq::<(K, V)>::empty(), capacity, entries) == newest(entries, capacity),
        sorted(newest(entries, capacity)),
        forall|i: int|
            0 <= i < entries.len() && entries.len() - i <= capacity ==> contains_key(
                newest(entries, capacity),
                (#[trigger] entries[i]).0,
            ),
    decreases entries.len(),
{
    let kept = newest(entries, capacity);
    let n = entries.len() as int;
    let start = n - kept.len();
    assert forall|i: int, j: int| 0 <= i <= j < kept.len() implies le(kept[i].0, kept[j].0) by {
        assert(kept[i] == entries[start + i]);
        assert(kept[j] == entries[start + j]);
        assert(le(entries[start + i].0, entries[start + j].0));
    }
    assert forall|i: int| 0 <= i < n && n - i <= capacity implies contains_key(
        kept,
        (#[trigger] entries[i]).0,
    ) by {
        assert(kept[i - start] == entries[i]);
    }
    if n > 0 {
        let rest = entries.drop_last();
        assert forall|i: int, j: int| 0 <= i <= j < rest.len() implies le(
            rest[i].0,
            rest[j].0,
        ) by {
            assert(le(entries[i].0, entries[j].0));
        }
        law_ascending_inserts(capacity, rest);
        lemma_newest_step(capacity, entries);
    }
}

/// Once more keys than the capacity have been inserted in non-decreasing
/// order, the buffer is full and holds the newest of them; the others, the
/// oldest, are gone, and none of their keys is found unless a newer entry
/// repeats it.
pub proof fn law_eviction<K: Ord, V>(capacity: nat, entries: Seq<(K, V)>)
    requires
        lawful::<K>(),
        1 <= capacity,
        sorted(entries),
        entries.len() > capacity,
    ensures
        inserted_all(Seq::<(K, V)>::empty(), capacity, entries) == entries.subrange(
            entries.len() - capacity,
            entries.len() as int,
        ),
        inserted_all(Seq::<(K, V)>::empty(), capacity, entries).len() == capacity,
        forall|i: int|
            0 <= i < entries.len() - capacity && lt(
                (#[trigger] entries[i]).0,
                entries[entries.len() - capacity].0,
            ) ==> !contains_key(
                inserted_all(Seq::<(K, V)>::empty(), capacity, entries),
                entries[i].0,
            ),
{
    lemma_total_order::<K>();
    law_ascending_inserts(capacity, entries);
    let kept = newest(entries, capacity);
    let start = entries.len() - capacity;
    assert forall|i: int| 0 <= i < start && lt((#[trigger] entries[i]).0, entries[start].0)
        implies !contains_key(kept, entries[i].0) by {
        assert forall|j: int| 0 <= j < kept.len() implies (#[trigger] kept[j]).0 != entries[i].0 by {
            assert(kept[j] == entries[start + j]);
            assert(le(entries[start].0, entries[start + j].0));
        }
    }
}

/// The entry that `last_at_or_before` singles out holds the greatest stored
/// key that is at most `key`.
pub proof fn law_last_at_or_before_is_greatest<K: Ord, V>(s: Seq<(K, V)>, key: K, i: int)
    requires
        lawful::<K>(),
        sorted(s),
        last_at_or_before(s, key, i),
    ensures
        forall|j: int| 0 <= j < s.len() && le((#[trigger] s[j]).0, key) ==> le(s[j].0, s[i].0),
{
    lemma_total_order::<K>();
    assert forall|j: int| 0 <= j < s.len() && le((#[trigger] s[j]).0, key) implies le(
        s[j].0,
        s[i].0,
    ) by {
        if j > i {
            assert(lt(key, s[j].0));
        } else {
            assert(le(s[j].0, s[i].0));
        }
    }
}

/// A key range whose lower bound is not below its upper bound holds nothing.
pub proof fn law_crossed_bounds_empty<K: Ord, V>(s: Seq<(K, V)>, lower: K, upper: K)
    requires
        lawful::<K>(),
        !lt(lower, upper),
    ensures
        within(s, lower, upper) == Seq::<(K, V)>::empty(),
    decreases s.len(),
{
    lemma_total_order::<K>();
    reveal(Seq::filter);
    if s.len() > 0 {
        assert(!in_range(s.last().0, lower, upper));
        law_crossed_bounds_empty(s.drop_last(), lower, upper);
    }
}

/// The entries of a key range are entries of the buffer with keys in the
/// range, and every such entry is among them.
pub proof fn law_range_is_exact<K: Ord, V>(s: Seq<(K, V)>, lower: K, upper: K)
    ensures
        forall|j: int|
            0 <= j < within(s, lower, upper).len() ==> in_range(
                (#[trigger] within(s, lower, upper)[j]).0,
                lower,
                upper,
            ) && s.contains(within(s, lower, upper)[j]),
        forall|i: int|
            0 <= i < s.len() && in_range((#[trigger] s[i]).0, lower, upper) ==> within(
                s,
                lower,
                upper,
            ).contains(s[i]),
{
    let pred = |e: (K, V)| in_range(e.0, lower, upper);
    let w = within(s, lower, upper);
    assert forall|j: int| 0 <= j < w.len() implies in_range((#[trigger] w[j]).0, lower, upper)
        && s.contains(w[j]) by {
        s.lemma_filter_pred(pred, j);
        assert(w.contains(w[j]));
        s.lemma_filter_contains_rev(pred, w[j]);
    }
    assert forall|i: int| 0 <= i < s.len() && in_range((#[trigger] s[i]).0, lower, upper)
        implies w.contains(s[i]) by {
        s.lemma_filter_contains(pred, i);
    }
}

/// A key that is smaller than the newest key and held by one of the entries
/// that would stay is refused, and the buffer stays as it was, full or not.
pub proof fn law_duplicate_key_rejected<K: Ord, V>(
    s: Seq<(K, V)>,
    capacity: nat,
    key: K,
    value: V,
)
    requires
        contains_key(evicted(s, capacity), key),
        !appends(evicted(s, capacity), key),
    ensures
        insert_fails(s, capacity, key),
        inserted(s, capacity, key, value) == s,
{
}

} // verus!
