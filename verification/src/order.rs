//! Listings in rank order.
//!
//! A type says which of two of its values may stand first in a listing; the
//! listing is then put in that order, keeping what it holds.

use vstd::prelude::*;
use vstd::seq_lib::{to_multiset_build, to_multiset_insert};

verus! {

/// A total preorder in which the values of a type are listed.
pub trait Ranked {
    /// Whether `self` may stand before `other`.
    spec fn precedes(&self, other: &Self) -> bool;

    /// Decides `precedes`.
    fn comes_first(&self, other: &Self) -> (b: bool)
        ensures
            b == self.precedes(other),
    ;

    /// Of two values, one may stand before the other.
    proof fn lemma_rank_total(a: &Self, b: &Self)
        ensures
            a.precedes(b) || b.precedes(a),
    ;

    /// What may stand before a value may stand before all that the value
    /// may stand before.
    proof fn lemma_rank_transitive(a: &Self, b: &Self, c: &Self)
        requires
            a.precedes(b),
            b.precedes(c),
        ensures
            a.precedes(c),
    ;
}

/// Whether every value of the listing may stand before those after it.
pub open spec fn in_rank_order<T: Ranked>(listing: Seq<&T>) -> bool {
    forall|i: int, j: int|
        0 <= i < j < listing.len() ==> (#[trigger] listing[i]).precedes(#[trigger] listing[j])
}

/// Whether `listing` holds the values of `rows`, each from the place in
/// `rows` that `places` names, so that values of equal rank stand in the
/// order in which they stand in `rows`.
pub open spec fn keeps_ties<T: Ranked>(rows: Seq<&T>, listing: Seq<&T>, places: Seq<int>) -> bool {
    &&& places.len() == listing.len()
    &&& listing.len() == rows.len()
    &&& forall|k: int|
        0 <= k < listing.len() ==> 0 <= #[trigger] places[k] < rows.len() && listing[k]
            == rows[places[k]]
    &&& forall|a: int, b: int|
        0 <= a < listing.len() && 0 <= b < listing.len() && a != b ==> #[trigger] places[a]
            != #[trigger] places[b]
    &&& forall|a: int, b: int|
        0 <= a < b < listing.len() && listing[b].precedes(listing[a]) ==> #[trigger] places[a]
            < #[trigger] places[b]
}

/// Whether `listing` is `rows` in rank order: it holds what `rows` holds,
/// every value may stand before those after it, and values of equal rank
/// stand as they stand in `rows`.
pub open spec fn lists<T: Ranked>(listing: Seq<&T>, rows: Seq<&T>) -> bool {
    &&& in_rank_order(listing)
    &&& listing.to_multiset() == rows.to_multiset()
    &&& exists|places: Seq<int>| #[trigger] keeps_ties(rows, listing, places)
}

/// Puts a listing in rank order. Values of equal rank keep their order.
pub fn rank<'a, T: Ranked>(items: Vec<&'a T>) -> (out: Vec<&'a T>)
    ensures
        lists(out@, items@),
        out@.len() == items@.len(),
{
    let mut out: Vec<&'a T> = Vec::new();
    let ghost mut places: Seq<int> = Seq::empty();
    let mut k: usize = 0;
    assert(items@.take(0) == out@);
    while k < items.len()
        invariant
            k <= items@.len(),
            out@.len() == k,
            in_rank_order(out@),
            out@.to_multiset() == items@.take(k as int).to_multiset(),
            keeps_ties(items@.take(k as int), out@, places),
        decreases items@.len() - k,
    {
        let item = items[k];
        let mut p: usize = 0;
        while p < out.len() && out[p].comes_first(item)
            invariant
                p <= out@.len(),
                forall|i: int| 0 <= i < p ==> (#[trigger] out@[i]).precedes(item),
            decreases out@.len() - p,
        {
            p = p + 1;
        }
        let ghost before = out@;
        let ghost places_before = places;
        out.insert(p, item);
        proof {
            places = places.insert(p as int, k as int);
            to_multiset_insert(before, p as int, item);
            to_multiset_build(items@.take(k as int), item);
            assert(items@.take(k as int).push(item) == items@.take(k + 1));
            assert forall|i: int, j: int| 0 <= i < j < out@.len() implies (#[trigger] out@[i]).precedes(
                #[trigger] out@[j],
            ) by {
                if j < p {
                    assert(out@[i] == before[i] && out@[j] == before[j]);
                } else if j == p {
                    assert(out@[i] == before[i]);
                } else if i == p {
                    T::lemma_rank_total(before[p as int], item);
                    if j - 1 > p {
                        assert(before[p as int].precedes(before[j - 1]));
                        T::lemma_rank_transitive(item, before[p as int], before[j - 1]);
                    }
                    assert(out@[j] == before[j - 1]);
                } else if i < p {
                    assert(out@[i] == before[i] && out@[j] == before[j - 1]);
                } else {
                    assert(out@[i] == before[i - 1] && out@[j] == before[j - 1]);
                }
            }
            // Where each value of the new listing comes from.
            let rows = items@.take(k + 1);
            assert forall|c: int| 0 <= c < out@.len() implies 0 <= #[trigger] places[c] < rows.len()
                && out@[c] == rows[places[c]] by {
                if c < p {
                    assert(places[c] == places_before[c] && out@[c] == before[c]);
                } else if c > p {
                    assert(places[c] == places_before[c - 1] && out@[c] == before[c - 1]);
                }
            }
            assert forall|a: int, b: int|
                0 <= a < out@.len() && 0 <= b < out@.len() && a != b implies #[trigger] places[a]
                != #[trigger] places[b] by {
                let a0 = if a < p { a } else { a - 1 };
                let b0 = if b < p { b } else { b - 1 };
                if a != p && b != p {
                    assert(places[a] == places_before[a0] && places[b] == places_before[b0]);
                    assert(places_before[a0] != places_before[b0]);
                } else if a == p {
                    assert(places[b] == places_before[b0]);
                } else {
                    assert(places[a] == places_before[a0]);
                }
            }
            assert forall|a: int, b: int|
                0 <= a < b < out@.len() && out@[b].precedes(out@[a]) implies #[trigger] places[a]
                < #[trigger] places[b] by {
                let a0 = if a < p { a } else { a - 1 };
                let b0 = if b < p { b } else { b - 1 };
                if a != p && b != p {
                    assert(places[a] == places_before[a0] && places[b] == places_before[b0]);
                    assert(out@[a] == before[a0] && out@[b] == before[b0]);
                    assert(places_before[a0] < places_before[b0]);
                } else if b == p {
                    assert(places[a] == places_before[a0]);
                } else {
                    // What stands after the new value may not stand before it.
                    assert(out@[b] == before[b0]);
                    if b0 > p {
                        assert(before[p as int].precedes(before[b0]));
                        T::lemma_rank_transitive(before[p as int], before[b0], item);
                    }
                }
            }
        }
        k = k + 1;
    }
    assert(items@.take(k as int) == items@);
    out
}

/// The rows that are wanted, in row order.
pub open spec fn pick<'a, T>(rows: Seq<T>, wanted: spec_fn(T) -> bool) -> Seq<&'a T>
    decreases rows.len(),
{
    if rows.len() == 0 {
        Seq::empty()
    } else if wanted(rows.last()) {
        pick(rows.drop_last(), wanted).push(&rows.last())
    } else {
        pick(rows.drop_last(), wanted)
    }
}

/// What was picked from a table is wanted, and is in the table.
pub proof fn lemma_pick_is_sound<'a, T>(rows: Seq<T>, wanted: spec_fn(T) -> bool, k: int)
    requires
        0 <= k < pick::<T>(rows, wanted).len(),
    ensures
        wanted(*pick::<T>(rows, wanted)[k]),
        rows.contains(*pick::<T>(rows, wanted)[k]),
    decreases rows.len(),
{
    if rows.len() > 0 {
        let front = rows.drop_last();
        if wanted(rows.last()) && k == pick::<T>(front, wanted).len() {
            assert(rows[rows.len() - 1] == rows.last());
        } else {
            lemma_pick_is_sound::<T>(front, wanted, k);
            let found = *pick::<T>(front, wanted)[k];
            let i = choose|i: int| 0 <= i < front.len() && front[i] == found;
            assert(rows[i] == found);
        }
    }
}

/// What is wanted and in the table was picked.
pub proof fn lemma_pick_is_complete<'a, T>(rows: Seq<T>, wanted: spec_fn(T) -> bool, i: int)
    requires
        0 <= i < rows.len(),
        wanted(rows[i]),
    ensures
        exists|k: int| 0 <= k < pick::<T>(rows, wanted).len() && *#[trigger] pick::<T>(rows, wanted)[k] == rows[i],
    decreases rows.len(),
{
    let front = rows.drop_last();
    let all = pick::<T>(rows, wanted);
    if i == rows.len() - 1 {
        assert(*all[all.len() - 1] == rows[i]);
    } else {
        lemma_pick_is_complete::<T>(front, wanted, i);
        let k = choose|k: int| 0 <= k < pick::<T>(front, wanted).len() && *#[trigger] pick::<T>(front, wanted)[k] == front[i];
        assert(*all[k] == rows[i]);
    }
}

} // verus!
