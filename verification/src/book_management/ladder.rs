//! One side of a book: order records ranked by price, one record to a price.

use crate::book_management::orders::Order;
use vstd::prelude::*;

verus! {

/// Price `a` ranks before price `b`: it is the higher one where the side
/// ranks downwards, the lower one where it ranks upwards.
pub open spec fn before(descending: bool, a: u64, b: u64) -> bool {
    if descending {
        a > b
    } else {
        a < b
    }
}

/// The records stand in the order of their side, and no price occurs twice.
pub open spec fn ranked<T: Order>(s: Seq<T>, descending: bool) -> bool {
    forall|i: int, j: int|
        #![trigger s[i], s[j]]
        0 <= i < j < s.len() ==> before(descending, s[i]@.price, s[j]@.price)
}

/// Some record of `s` has this price.
pub open spec fn has_price<T: Order>(s: Seq<T>, price: u64) -> bool {
    exists|i: int| 0 <= i < s.len() && (#[trigger] s[i])@.price == price
}

/// How many records stand at the head of `s` with a price that ranks before
/// `price`.
pub open spec fn rank<T: Order>(s: Seq<T>, price: u64, descending: bool) -> int
    decreases s.len(),
{
    if s.len() == 0 || !before(descending, s[0]@.price, price) {
        0
    } else {
        1 + rank(s.drop_first(), price, descending)
    }
}

/// The side after `item` has been offered to it: a record whose price is
/// already held is dropped, any other takes the place that its price gives.
pub open spec fn placed<T: Order>(s: Seq<T>, item: T, descending: bool) -> Seq<T> {
    if has_price(s, item@.price) {
        s
    } else {
        s.insert(rank(s, item@.price, descending), item)
    }
}

/// The side after each record of `items` has been offered to it in turn.
pub open spec fn merged<T: Order>(s: Seq<T>, items: Seq<T>, descending: bool) -> Seq<T>
    decreases items.len(),
{
    if items.len() == 0 {
        s
    } else {
        placed(merged(s, items.drop_last(), descending), items.last(), descending)
    }
}

/// The sum of the prices of `s`.
pub open spec fn total_price<T: Order>(s: Seq<T>) -> nat
    decreases s.len(),
{
    if s.len() == 0 {
        0
    } else {
        total_price(s.drop_last()) + s.last()@.price as nat
    }
}

/// A run of `n` leading records that rank before `price`, ended by the end of
/// the side or by a record that does not, is the rank of `price`.
pub proof fn lemma_rank<T: Order>(s: Seq<T>, price: u64, descending: bool, n: int)
    requires
        0 <= n <= s.len(),
        forall|i: int| 0 <= i < n ==> before(descending, (#[trigger] s[i])@.price, price),
        n < s.len() ==> !before(descending, s[n]@.price, price),
    ensures
        rank(s, price, descending) == n,
    decreases n,
{
    if n > 0 {
        let t = s.drop_first();
        assert(before(descending, s[0]@.price, price));
        assert forall|i: int| 0 <= i < n - 1 implies before(
            descending,
            (#[trigger] t[i])@.price,
            price,
        ) by {
            assert(t[i] == s[i + 1]);
        }
        lemma_rank(t, price, descending, n - 1);
    }
}

/// Offering a record keeps a side ranked.
pub proof fn lemma_placed_ranked<T: Order>(s: Seq<T>, item: T, descending: bool)
    requires
        ranked(s, descending),
    ensures
        ranked(placed(s, item, descending), descending),
        placed(s, item, descending).len() <= s.len() + 1,
    decreases s.len(),
{
    let price = item@.price;
    lemma_rank_splits(s, price, descending);
    if !has_price(s, price) {
        let p = rank(s, price, descending);
        let after = s.insert(p, item);
        assert forall|i: int, j: int| 0 <= i < j < after.len() implies before(
            descending,
            after[i]@.price,
            after[j]@.price,
        ) by {
            let a = if i < p { i } else { i - 1 };
            let b = if j < p { j } else { j - 1 };
            if i != p && j != p {
                assert(before(descending, s[a]@.price, s[b]@.price));
            } else if i == p {
                assert(!before(descending, s[b]@.price, price));
                assert(s[b]@.price != price);
            } else {
                assert(before(descending, s[a]@.price, price));
            }
        }
    }
}

/// In a ranked side the records before the rank of a price rank before it,
/// and the others do not.
pub proof fn lemma_rank_splits<T: Order>(s: Seq<T>, price: u64, descending: bool)
    requires
        ranked(s, descending),
    ensures
        0 <= rank(s, price, descending) <= s.len(),
        forall|i: int|
            0 <= i < rank(s, price, descending) ==> before(
                descending,
                (#[trigger] s[i])@.price,
                price,
            ),
        forall|i: int|
            rank(s, price, descending) <= i < s.len() ==> !before(
                descending,
                (#[trigger] s[i])@.price,
                price,
            ),
    decreases s.len(),
{
    if s.len() == 0 {
    } else if !before(descending, s[0]@.price, price) {
        assert forall|i: int| 0 <= i < s.len() implies !before(
            descending,
            (#[trigger] s[i])@.price,
            price,
        ) by {
            if i > 0 {
                assert(before(descending, s[0]@.price, s[i]@.price));
            }
        }
    } else {
        let t = s.drop_first();
        assert forall|i: int, j: int| 0 <= i < j < t.len() implies before(
            descending,
            t[i]@.price,
            t[j]@.price,
        ) by {
            assert(before(descending, s[i + 1]@.price, s[j + 1]@.price));
        }
        lemma_rank_splits(t, price, descending);
        let r = rank(t, price, descending);
        assert forall|i: int| 0 <= i < r + 1 implies before(
            descending,
            (#[trigger] s[i])@.price,
            price,
        ) by {
            if i > 0 {
                assert(s[i] == t[i - 1]);
            }
        }
        assert forall|i: int| r + 1 <= i < s.len() implies !before(
            descending,
            (#[trigger] s[i])@.price,
            price,
        ) by {
            assert(s[i] == t[i - 1]);
        }
    }
}

/// Offering records keeps a side ranked.
pub proof fn lemma_merged_ranked<T: Order>(s: Seq<T>, items: Seq<T>, descending: bool)
    requires
        ranked(s, descending),
    ensures
        ranked(merged(s, items, descending), descending),
        merged(s, items, descending).len() <= s.len() + items.len(),
    decreases items.len(),
{
    if items.len() > 0 {
        lemma_merged_ranked(s, items.drop_last(), descending);
        lemma_placed_ranked(merged(s, items.drop_last(), descending), items.last(), descending);
    }
}

/// No two records of a ranked side have one price.
pub proof fn law_one_record_per_price<T: Order>(s: Seq<T>, descending: bool)
    requires
        ranked(s, descending),
    ensures
        forall|i: int, j: int|
            #![trigger s[i], s[j]]
            0 <= i < s.len() && 0 <= j < s.len() && i != j ==> s[i]@.price != s[j]@.price,
{
    assert forall|i: int, j: int|
        #![trigger s[i], s[j]]
        0 <= i < s.len() && 0 <= j < s.len() && i != j implies s[i]@.price != s[j]@.price by {
        if i < j {
            assert(before(descending, s[i]@.price, s[j]@.price));
        } else {
            assert(before(descending, s[j]@.price, s[i]@.price));
        }
    }
}

/// Offering a record takes nothing from a side and changes none of its
/// records; afterwards the side holds the price of the record, and the record
/// itself where the price was not held before.
pub proof fn law_placed_keeps_records<T: Order>(s: Seq<T>, item: T, descending: bool)
    requires
        ranked(s, descending),
    ensures
        forall|i: int| 0 <= i < s.len() ==> placed(s, item, descending).contains(#[trigger] s[i]),
        forall|j: int|
            0 <= j < placed(s, item, descending).len() ==> s.contains(
                #[trigger] placed(s, item, descending)[j],
            ) || placed(s, item, descending)[j] == item,
        has_price(placed(s, item, descending), item@.price),
        !has_price(s, item@.price) ==> placed(s, item, descending).contains(item),
{
    lemma_rank_splits(s, item@.price, descending);
    let after = placed(s, item, descending);
    if !has_price(s, item@.price) {
        let p = rank(s, item@.price, descending);
        assert(after[p] == item);
        assert forall|i: int| 0 <= i < s.len() implies after.contains(#[trigger] s[i]) by {
            if i < p {
                assert(after[i] == s[i]);
            } else {
                assert(after[i + 1] == s[i]);
            }
        }
        assert forall|j: int| 0 <= j < after.len() implies s.contains(#[trigger] after[j])
            || after[j] == item by {
            if j < p {
                assert(s[j] == after[j]);
            } else if j > p {
                assert(s[j - 1] == after[j]);
            }
        }
    } else {
        assert forall|i: int| 0 <= i < s.len() implies after.contains(#[trigger] s[i]) by {
            assert(after[i] == s[i]);
        }
        assert forall|j: int| 0 <= j < after.len() implies s.contains(#[trigger] after[j])
            || after[j] == item by {
            assert(s[j] == after[j]);
        }
    }
}

/// After a merge the side still holds each of its records, it holds the
/// price of every record that was offered, and every record that it holds was
/// there before or was offered.
pub proof fn law_merged_holds_every_price<T: Order>(s: Seq<T>, items: Seq<T>, descending: bool)
    requires
        ranked(s, descending),
    ensures
        forall|k: int|
            0 <= k < s.len() ==> merged(s, items, descending).contains(#[trigger] s[k]),
        forall|i: int|
            0 <= i < items.len() ==> has_price(
                merged(s, items, descending),
                (#[trigger] items[i])@.price,
            ),
        forall|j: int|
            0 <= j < merged(s, items, descending).len() ==> s.contains(
                #[trigger] merged(s, items, descending)[j],
            ) || items.contains(merged(s, items, descending)[j]),
    decreases items.len(),
{
    let all = merged(s, items, descending);
    if items.len() == 0 {
        assert forall|k: int| 0 <= k < s.len() implies all.contains(#[trigger] s[k]) by {
            assert(all[k] == s[k]);
        }
        assert forall|j: int| 0 <= j < all.len() implies s.contains(#[trigger] all[j])
            || items.contains(all[j]) by {
            assert(s[j] == all[j]);
        }
    } else {
        let rest = items.drop_last();
        let last = items.last();
        let before = merged(s, rest, descending);
        law_merged_holds_every_price(s, rest, descending);
        lemma_merged_ranked(s, rest, descending);
        law_placed_keeps_records(before, last, descending);
        assert forall|k: int| 0 <= k < s.len() implies all.contains(#[trigger] s[k]) by {
            assert(before.contains(s[k]));
            let m = choose|m: int| 0 <= m < before.len() && before[m] == s[k];
            assert(all.contains(before[m]));
        }
        assert forall|i: int| 0 <= i < items.len() implies has_price(
            all,
            (#[trigger] items[i])@.price,
        ) by {
            if i < rest.len() {
                assert(rest[i] == items[i]);
                assert(has_price(before, rest[i]@.price));
                let m = choose|m: int|
                    0 <= m < before.len() && (#[trigger] before[m])@.price == rest[i]@.price;
                assert(all.contains(before[m]));
                let n = choose|n: int| 0 <= n < all.len() && all[n] == before[m];
                assert(all[n]@.price == items[i]@.price);
            }
        }
        assert forall|j: int| 0 <= j < all.len() implies s.contains(#[trigger] all[j])
            || items.contains(all[j]) by {
            if all[j] == last {
                assert(items[items.len() - 1] == last);
            } else {
                assert(before.contains(all[j]));
                let m = choose|m: int| 0 <= m < before.len() && before[m] == all[j];
                if !s.contains(before[m]) {
                    assert(rest.contains(before[m]));
                    let i = choose|i: int| 0 <= i < rest.len() && rest[i] == before[m];
                    assert(items[i] == all[j]);
                }
            }
        }
    }
}

/// Of the records that are offered to an empty side with one price, the first
/// stays: every record of the merged side is the first of the offered records
/// that has its price.
pub proof fn law_first_offer_survives<T: Order>(items: Seq<T>, descending: bool)
    ensures
        forall|j: int|
            0 <= j < merged(Seq::<T>::empty(), items, descending).len() ==> came_first(
                items,
                #[trigger] merged(Seq::<T>::empty(), items, descending)[j],
            ),
    decreases items.len(),
{
    let none = Seq::<T>::empty();
    let all = merged(none, items, descending);
    if items.len() == 0 {
        assert(all.len() == 0);
    } else {
        let rest = items.drop_last();
        let last = items.last();
        let before = merged(none, rest, descending);
        law_first_offer_survives(rest, descending);
        law_merged_holds_every_price(none, rest, descending);
        lemma_merged_ranked(none, rest, descending);
        law_placed_keeps_records(before, last, descending);
        assert forall|j: int| 0 <= j < all.len() implies came_first(items, #[trigger] all[j]) by {
            if before.contains(all[j]) {
                let m = choose|m: int| 0 <= m < before.len() && before[m] == all[j];
                assert(came_first(rest, before[m]));
                let i = choose|i: int| first_offer(rest, before[m], i);
                assert(rest[i] == items[i]);
                assert forall|k: int| 0 <= k < i implies (#[trigger] items[k])@.price
                    != all[j]@.price by {
                    assert(rest[k] == items[k]);
                }
                assert(first_offer(items, all[j], i));
            } else {
                assert(all[j] == last);
                assert(!has_price(before, last@.price));
                assert forall|k: int| 0 <= k < items.len() - 1 implies (#[trigger] items[k])@.price
                    != last@.price by {
                    assert(rest[k] == items[k]);
                    assert(has_price(before, rest[k]@.price));
                }
                assert(first_offer(items, all[j], items.len() - 1));
            }
        }
    }
}

/// `record` is among `items`, and it is the first of them with its price.
pub open spec fn came_first<T: Order>(items: Seq<T>, record: T) -> bool {
    exists|i: int| first_offer(items, record, i)
}

/// `record` is the record at position `i` of `items`, and no earlier record
/// of `items` has its price.
pub open spec fn first_offer<T: Order>(items: Seq<T>, record: T, i: int) -> bool {
    &&& 0 <= i < items.len()
    &&& items[i] == record
    &&& forall|k: int| 0 <= k < i ==> (#[trigger] items[k])@.price != record@.price
}

/// Offers `item` to a side: a record whose price the side already holds is
/// dropped, any other is put where its price ranks. Says whether it was put.
pub fn place<T: Order + Copy>(levels: &mut Vec<T>, item: T, descending: bool) -> (added: bool)
    requires
        ranked(old(levels)@, descending),
    ensures
        ranked(final(levels)@, descending),
        final(levels)@ == placed(old(levels)@, item, descending),
        added == !has_price(old(levels)@, item@.price),
{
    let price = item.price();
    let n = levels.len();
    let mut i: usize = 0;
    while i < n && ranks_before(descending, levels[i].price(), price)
        invariant
            n == levels@.len(),
            levels@ == old(levels)@,
            i <= n,
            price == item@.price,
            forall|j: int| 0 <= j < i ==> before(descending, (#[trigger] levels@[j])@.price, price),
        decreases n - i,
    {
        i += 1;
    }
    proof {
        lemma_rank(levels@, price, descending, i as int);
        lemma_placed_ranked(levels@, item, descending);
    }
    if i < n && levels[i].price() == price {
        false
    } else {
        assert forall|j: int| 0 <= j < n implies (#[trigger] levels@[j])@.price != price by {
            if j > i {
                assert(before(descending, levels@[i as int]@.price, levels@[j]@.price));
            }
        }
        levels.insert(i, item);
        true
    }
}

/// Whether price `a` ranks before price `b`.
pub fn ranks_before(descending: bool, a: u64, b: u64) -> (r: bool)
    ensures
        r == before(descending, a, b),
{
    if descending {
        a > b
    } else {
        a < b
    }
}

/// Offers each record of `items` to a side, first to last.
pub fn merge<T: Order + Copy>(levels: &mut Vec<T>, items: &Vec<T>, descending: bool)
    requires
        ranked(old(levels)@, descending),
    ensures
        ranked(final(levels)@, descending),
        final(levels)@ == merged(old(levels)@, items@, descending),
{
    let mut i: usize = 0;
    assert(items@.take(0) =~= Seq::<T>::empty());
    while i < items.len()
        invariant
            i <= items@.len(),
            ranked(levels@, descending),
            levels@ == merged(old(levels)@, items@.take(i as int), descending),
        decreases items@.len() - i,
    {
        let item = items[i];
        let _ = place(levels, item, descending);
        proof {
            assert(items@.take(i + 1).drop_last() =~= items@.take(i as int));
            assert(items@.take(i + 1).last() == items@[i as int]);
        }
        i += 1;
    }
    assert(items@.take(i as int) =~= items@);
}

} // verus!
