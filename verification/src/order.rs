//! The total order on keys that the ordered containers of this crate rely on.

use core::cmp::Ordering;
use vstd::laws_cmp::obeys_cmp;
use vstd::laws_eq::obeys_concrete_eq;
use vstd::prelude::*;
use vstd::std_specs::cmp::{OrdSpec, PartialEqSpec, PartialOrdSpec};

verus! {

/// The comparison operators of `K` form a total order, and two keys compare
/// equal exactly when they are the same value. The integers are such keys:
/// see `lemma_unsigned_lawful` and `lemma_signed_lawful`.
pub open spec fn lawful<K: Ord>() -> bool {
    obeys_cmp::<K>() && obeys_concrete_eq::<K>()
}

/// `a` is strictly smaller than `b`.
pub open spec fn lt<K: Ord>(a: K, b: K) -> bool {
    a.partial_cmp_spec(&b) == Some(Ordering::Less)
}

/// `a` is smaller than or equal to `b`.
pub open spec fn le<K: Ord>(a: K, b: K) -> bool {
    lt(a, b) || a == b
}

/// What makes `lt` a strict total order and `le` its reflexive closure.
pub proof fn lemma_total_order<K: Ord>()
    requires
        lawful::<K>(),
    ensures
        forall|a: K| !#[trigger] lt(a, a),
        forall|a: K, b: K| #[trigger] lt(a, b) ==> !lt(b, a),
        forall|a: K, b: K| #[trigger] lt(a, b) || a == b || lt(b, a),
        forall|a: K, b: K, c: K| #[trigger] lt(a, b) && #[trigger] lt(b, c) ==> lt(a, c),
        forall|a: K, b: K| #[trigger] le(a, b) <==> !lt(b, a),
{
    reveal(vstd::laws_cmp::obeys_cmp_partial_ord);
    reveal(vstd::laws_cmp::obeys_cmp_ord);
    reveal(vstd::laws_cmp::obeys_partial_cmp_spec_properties);
    reveal(vstd::laws_eq::obeys_eq_spec_properties);
    reveal(obeys_concrete_eq);
    assert forall|a: K, b: K| #[trigger] lt(a, b) || a == b || lt(b, a) by {
        let c = a.cmp_spec(&b);
        assert(a.partial_cmp_spec(&b) == Some(c));
        if c == Ordering::Greater {
            assert(b.partial_cmp_spec(&a) == Some(Ordering::Less));
        }
        if c == Ordering::Equal {
            assert(a.eq_spec(&b));
        }
    }
    assert forall|a: K| !#[trigger] lt(a, a) by {
        if lt(a, a) {
            assert(a.partial_cmp_spec(&a) == Some(Ordering::Greater));
        }
    }
}

/// Whether `a` is strictly smaller than `b`.
pub fn is_lt<K: Ord>(a: &K, b: &K) -> (r: bool)
    requires
        lawful::<K>(),
    ensures
        r == lt(*a, *b),
{
    proof {
        reveal(vstd::laws_cmp::obeys_cmp_partial_ord);
    }
    *a < *b
}

/// Whether `a` and `b` are the same key.
pub fn is_eq<K: Ord>(a: &K, b: &K) -> (r: bool)
    requires
        lawful::<K>(),
    ensures
        r == (*a == *b),
{
    proof {
        reveal(obeys_concrete_eq);
    }
    *a == *b
}

/// The unsigned integers are lawful keys.
pub proof fn lemma_unsigned_lawful()
    ensures
        lawful::<u8>(),
        lawful::<u16>(),
        lawful::<u32>(),
        lawful::<u64>(),
        lawful::<u128>(),
        lawful::<usize>(),
{
    broadcast use vstd::laws_cmp::group_laws_cmp;
    broadcast use vstd::laws_eq::group_laws_eq;

}

/// The signed integers are lawful keys.
pub proof fn lemma_signed_lawful()
    ensures
        lawful::<i8>(),
        lawful::<i16>(),
        lawful::<i32>(),
        lawful::<i64>(),
        lawful::<i128>(),
        lawful::<isize>(),
{
    broadcast use vstd::laws_cmp::group_laws_cmp;
    broadcast use vstd::laws_eq::group_laws_eq;

}

} // verus!
