//! Ascending order of generation numbers.
//!
//! Generation numbers are handed out in increasing order, so "more recent"
//! means "numerically larger". This module sorts a list of numbers and holds
//! the facts about sorted lists that the rest of the crate relies on.

use vstd::prelude::*;
use vstd::relations::{sorted_by, total_ordering};
use vstd::seq_lib::{lemma_sorted_unique, to_multiset_build, to_multiset_insert};

verus! {

/// The order of generation numbers: numeric, smaller first.
pub open spec fn at_most(a: u32, b: u32) -> bool {
    a <= b
}

/// `s` never decreases from one position to the next.
pub open spec fn ascending(s: Seq<u32>) -> bool {
    forall|i: int, j: int| 0 <= i <= j < s.len() ==> s[i] <= s[j]
}

/// `s` increases from each position to the next, so nothing occurs twice.
pub open spec fn strictly_ascending(s: Seq<u32>) -> bool {
    forall|i: int, j: int| 0 <= i < j < s.len() ==> s[i] < s[j]
}

/// The entries of `s`, each as often as in `s`, smallest first.
pub open spec fn ascending_order(s: Seq<u32>) -> Seq<u32> {
    s.sort_by(|a: u32, b: u32| at_most(a, b))
}

/// The ascending order of a list is ascending and holds the same entries.
pub proof fn lemma_ascending_order(s: Seq<u32>)
    ensures
        ascending(ascending_order(s)),
        ascending_order(s).to_multiset() == s.to_multiset(),
        ascending_order(s).len() == s.len(),
        forall|g: u32| ascending_order(s).contains(g) <==> s.contains(g),
{
    let leq = |a: u32, b: u32| at_most(a, b);
    assert(total_ordering(leq));
    s.lemma_sort_by_ensures(leq);
    let t = ascending_order(s);
    assert(ascending(t)) by {
        assert forall|i: int, j: int| 0 <= i <= j < t.len() implies t[i] <= t[j] by {
            if i < j {
                assert(leq(t[i], t[j]));
            }
        }
    }
    lemma_same_entries(t, s);
}

/// Two lists with the same entries have the same length and the same members.
pub proof fn lemma_same_entries(s: Seq<u32>, t: Seq<u32>)
    requires
        s.to_multiset() == t.to_multiset(),
    ensures
        s.len() == t.len(),
        forall|g: u32| s.contains(g) <==> t.contains(g),
{
    s.to_multiset_ensures();
    t.to_multiset_ensures();
    assert forall|g: u32| s.contains(g) <==> t.contains(g) by {
        assert(s.contains(g) <==> s.to_multiset().count(g) > 0);
        assert(t.contains(g) <==> t.to_multiset().count(g) > 0);
    }
}

/// An ascending list with the entries of `s` is the ascending order of `s`.
pub proof fn lemma_ascending_is_the_order(sorted: Seq<u32>, s: Seq<u32>)
    requires
        ascending(sorted),
        sorted.to_multiset() == s.to_multiset(),
    ensures
        sorted == ascending_order(s),
{
    let leq = |a: u32, b: u32| at_most(a, b);
    assert(total_ordering(leq));
    s.lemma_sort_by_ensures(leq);
    assert(sorted_by(sorted, leq));
    lemma_sorted_unique(sorted, ascending_order(s), leq);
}

/// The ascending order of a list without duplicates is strictly ascending.
pub proof fn lemma_order_of_distinct(s: Seq<u32>)
    requires
        s.no_duplicates(),
    ensures
        strictly_ascending(ascending_order(s)),
{
    lemma_ascending_order(s);
    s.lemma_multiset_has_no_duplicates();
    ascending_order(s).lemma_multiset_has_no_duplicates_conv();
}

/// What a filter leaves of an ascending list: the members that pass it, still
/// in ascending order.
pub proof fn lemma_filter_of_ascending(s: Seq<u32>, pred: spec_fn(u32) -> bool)
    requires
        ascending(s),
    ensures
        ascending(s.filter(pred)),
        forall|g: u32| s.filter(pred).contains(g) <==> s.contains(g) && pred(g),
        strictly_ascending(s) ==> strictly_ascending(s.filter(pred)),
    decreases s.len(),
{
    reveal(Seq::filter);
    if s.len() > 0 {
        let front = s.drop_last();
        let last = s.last();
        let kept = front.filter(pred);
        assert(s =~= front.push(last));
        assert(ascending(front)) by {
            assert forall|a: int, b: int| 0 <= a <= b < front.len() implies front[a]
                <= front[b] by {
                assert(s[a] <= s[b]);
            }
        }
        if strictly_ascending(s) {
            assert(strictly_ascending(front)) by {
                assert forall|a: int, b: int| 0 <= a < b < front.len() implies front[a]
                    < front[b] by {
                    assert(s[a] < s[b]);
                }
            }
        }
        lemma_filter_of_ascending(front, pred);
        assert forall|i: int| 0 <= i < kept.len() implies kept[i] <= last && (strictly_ascending(
            s,
        ) ==> kept[i] < last) by {
            assert(kept.contains(kept[i]));
            assert(front.contains(kept[i]));
            let a = choose|a: int| 0 <= a < front.len() && front[a] == kept[i];
            assert(s[a] <= s[s.len() - 1]);
            if strictly_ascending(s) {
                assert(s[a] < s[s.len() - 1]);
            }
        }
        assert forall|g: u32| s.filter(pred).contains(g) <==> s.contains(g) && pred(g) by {
            if s.contains(g) {
                let a = choose|a: int| 0 <= a < s.len() && s[a] == g;
                if a < front.len() {
                    assert(front[a] == g);
                }
            }
            if front.contains(g) {
                let a = choose|a: int| 0 <= a < front.len() && front[a] == g;
                assert(s[a] == g);
            }
            if pred(last) {
                assert(s.filter(pred) =~= kept.push(last));
                if kept.contains(g) {
                    let a = choose|a: int| 0 <= a < kept.len() && kept[a] == g;
                    assert(kept.push(last)[a] == g);
                }
                assert(kept.push(last)[kept.len() as int] == last);
            }
        }
    }
}

/// The members of the finite set `ids`, smallest first.
pub open spec fn ascending_members(ids: Set<u32>) -> Seq<u32> {
    ids.to_sorted_seq(|a: u32, b: u32| at_most(a, b))
}

/// Listing a finite set in some order names no member twice.
proof fn lemma_to_seq_distinct(ids: Set<u32>)
    requires
        ids.finite(),
    ensures
        ids.to_seq().no_duplicates(),
        ids.to_seq().to_set() == ids,
    decreases ids.len(),
{
    broadcast use vstd::set::group_set_axioms;

    ids.lemma_to_seq_to_set_id();
    if ids.len() != 0 {
        let x = ids.choose();
        let rest = ids.remove(x);
        lemma_to_seq_distinct(rest);
        let tail = rest.to_seq();
        assert(ids.to_seq() =~= seq![x] + tail);
        assert(!tail.contains(x)) by {
            assert(tail.to_set().contains(x) <==> tail.contains(x));
        }
        let listed = ids.to_seq();
        assert forall|i: int, j: int|
            0 <= i < listed.len() && 0 <= j < listed.len() && i != j implies listed[i]
            != listed[j] by {
            if i > 0 {
                assert(tail[i - 1] == listed[i]);
                assert(tail.contains(tail[i - 1]));
            }
            if j > 0 {
                assert(tail[j - 1] == listed[j]);
                assert(tail.contains(tail[j - 1]));
            }
        }
    }
}

/// Two lists without duplicates that hold the same members hold the same
/// entries.
pub proof fn lemma_distinct_same_members(s: Seq<u32>, t: Seq<u32>)
    requires
        s.no_duplicates(),
        t.no_duplicates(),
        s.to_set() == t.to_set(),
    ensures
        s.to_multiset() == t.to_multiset(),
{
    s.lemma_multiset_has_no_duplicates();
    t.lemma_multiset_has_no_duplicates();
    s.to_multiset_ensures();
    t.to_multiset_ensures();
    assert forall|g: u32| s.to_multiset().count(g) == t.to_multiset().count(g) by {
        assert(s.to_set().contains(g) <==> s.contains(g));
        assert(t.to_set().contains(g) <==> t.contains(g));
        assert(s.contains(g) <==> s.to_multiset().count(g) > 0);
        assert(t.contains(g) <==> t.to_multiset().count(g) > 0);
    }
    assert(s.to_multiset() =~= t.to_multiset());
}

/// The ascending listing of a finite set names each member once and nothing
/// else, smallest first.
pub proof fn lemma_ascending_members(ids: Set<u32>)
    requires
        ids.finite(),
    ensures
        strictly_ascending(ascending_members(ids)),
        ascending_members(ids).to_set() == ids,
        ascending_members(ids).len() == ids.len(),
{
    lemma_to_seq_distinct(ids);
    let listed = ids.to_seq();
    lemma_order_of_distinct(listed);
    lemma_ascending_order(listed);
    assert(ascending_members(ids) == ascending_order(listed));
    assert(ascending_members(ids).to_set() =~= ids) by {
        assert forall|g: u32| ascending_members(ids).to_set().contains(g) <==> ids.contains(
            g,
        ) by {
            assert(ascending_members(ids).to_set().contains(g) <==> ascending_members(
                ids,
            ).contains(g));
            assert(listed.to_set().contains(g) <==> listed.contains(g));
        }
    }
    listed.unique_seq_to_set();
}

/// A strictly ascending list is the ascending listing of its members.
pub proof fn lemma_ascending_listing(listing: Seq<u32>)
    requires
        strictly_ascending(listing),
    ensures
        listing == ascending_members(listing.to_set()),
{
    let ids = listing.to_set();
    vstd::seq_lib::seq_to_set_is_finite(listing);
    lemma_to_seq_distinct(ids);
    lemma_distinct_same_members(listing, ids.to_seq());
    lemma_ascending_is_the_order(listing, ids.to_seq());
}

/// Sorts a copy of `ids` into ascending order. Every entry stays, as often as
/// it occurs in `ids`. The entries are inserted one by one, which suits the
/// short lists that this crate sorts.
pub fn sorted_copy(ids: &[u32]) -> (sorted: Vec<u32>)
    ensures
        sorted@ == ascending_order(ids@),
        ascending(sorted@),
        sorted@.to_multiset() == ids@.to_multiset(),
        sorted@.len() == ids@.len(),
{
    let mut sorted: Vec<u32> = Vec::new();
    let n = ids.len();
    let mut k: usize = 0;
    assert(ids@.take(0) =~= Seq::<u32>::empty());
    while k < n
        invariant
            n == ids@.len(),
            k <= n,
            ascending(sorted@),
            sorted@.to_multiset() == ids@.take(k as int).to_multiset(),
        decreases n - k,
    {
        let x = ids[k];
        let mut pos: usize = sorted.len();
        while pos > 0 && sorted[pos - 1] > x
            invariant
                pos <= sorted@.len(),
                forall|j: int| pos <= j < sorted@.len() ==> sorted@[j] > x,
            decreases pos,
        {
            pos = pos - 1;
        }
        let ghost before = sorted@;
        sorted.insert(pos, x);
        proof {
            to_multiset_insert(before, pos as int, x);
            to_multiset_build(ids@.take(k as int), x);
            assert(ids@.take(k as int + 1) =~= ids@.take(k as int).push(x));
            assert forall|i: int, j: int| 0 <= i <= j < sorted@.len() implies sorted@[i]
                <= sorted@[j] by {
                if i < pos && j > pos {
                    assert(before[i] <= before[j - 1]);
                }
            }
        }
        k = k + 1;
    }
    proof {
        assert(ids@.take(n as int) =~= ids@);
        lemma_ascending_is_the_order(sorted@, ids@);
        lemma_same_entries(sorted@, ids@);
    }
    sorted
}

} // verus!
