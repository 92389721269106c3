//! The retention decision: which generations a clean-up removes.
//!
//! A generation is retained when it is the active one, when it is protected,
//! or when a keep-last policy covers it. Everything else that is known is
//! removed. The decision is a pure function of its four inputs.

use crate::order::{
    ascending, ascending_order, lemma_ascending_is_the_order, lemma_ascending_order,
    lemma_filter_of_ascending, lemma_order_of_distinct, sorted_copy, strictly_ascending,
};
use std::collections::HashSet;
use vstd::prelude::*;
use vstd::std_specs::hash::{axiom_spec_hash_keys_iter, spec_hash_keys_iter};
use vstd::std_specs::iter::IteratorSpec;

verus! {

/// How many entries of `ids` are larger than `generation`.
pub open spec fn newer_count(ids: Seq<u32>, generation: u32) -> nat {
    ids.filter(|other: u32| other > generation).len()
}

/// Whether `generation` is one of the `n` largest entries of `ids`: it is
/// known, and fewer than `n` entries are larger.
pub open spec fn among_newest(ids: Seq<u32>, n: nat, generation: u32) -> bool {
    ids.contains(generation) && newer_count(ids, generation) < n
}

/// Whether a keep-last policy covers `generation`. Without a policy nothing is
/// covered.
pub open spec fn kept_by_policy(ids: Seq<u32>, keep_last: Option<usize>, generation: u32) -> bool {
    match keep_last {
        Some(n) => among_newest(ids, n as nat, generation),
        None => false,
    }
}

/// Whether `generation` is exempt from clean-up.
pub open spec fn is_retained(
    ids: Seq<u32>,
    current: u32,
    protected: Set<u32>,
    keep_last: Option<usize>,
    generation: u32,
) -> bool {
    generation == current || protected.contains(generation) || kept_by_policy(
        ids,
        keep_last,
        generation,
    )
}

/// The generations to delete: the known ones that are not retained, in
/// ascending order.
pub open spec fn deletion_order(
    ids: Seq<u32>,
    current: u32,
    protected: Set<u32>,
    keep_last: Option<usize>,
) -> Seq<u32> {
    ascending_order(ids).filter(
        |generation: u32| !is_retained(ids, current, protected, keep_last, generation),
    )
}

/// Where the `n` last positions of a list of length `len` begin. The whole
/// list when `n` exceeds its length.
pub open spec fn tail_start(len: nat, n: nat) -> int {
    if n >= len {
        0
    } else {
        len - n
    }
}

/// In an ascending list, the entries above `generation` all stand behind the
/// entries at or below it.
proof fn lemma_newer_count_bounds(s: Seq<u32>, generation: u32, j: int)
    requires
        ascending(s),
        0 <= j < s.len(),
    ensures
        s[j] <= generation ==> newer_count(s, generation) <= s.len() - 1 - j,
        s[j] > generation ==> newer_count(s, generation) >= s.len() - j,
    decreases s.len(),
{
    let above = |other: u32| other > generation;
    let front = s.drop_last();
    assert(s =~= front.push(s.last()));
    front.lemma_filter_len_push(above, s.last());
    assert(ascending(front)) by {
        assert forall|a: int, b: int| 0 <= a <= b < front.len() implies front[a] <= front[b] by {
            assert(s[a] <= s[b]);
        }
    }
    if j < s.len() - 1 {
        lemma_newer_count_bounds(front, generation, j);
        assert(front[j] == s[j]);
        assert(s[j] <= s[s.len() - 1]);
    } else if s.len() >= 2 {
        lemma_newer_count_bounds(front, generation, j - 1);
        assert(front[j - 1] == s[j - 1]);
        assert(s[j - 1] <= s[j]);
    } else {
        front.lemma_filter_len(above);
    }
}

/// The last position of an ascending list, at or behind `i`, whose entry is at
/// most `generation`.
proof fn lemma_last_at_most(s: Seq<u32>, generation: u32, i: int) -> (j: int)
    requires
        0 <= i < s.len(),
        s[i] <= generation,
    ensures
        i <= j < s.len(),
        s[j] <= generation,
        j == s.len() - 1 || s[j + 1] > generation,
    decreases s.len() - i,
{
    if i == s.len() - 1 || s[i + 1] > generation {
        i
    } else {
        lemma_last_at_most(s, generation, i + 1)
    }
}

/// In an ascending list the `n` largest entries are the `n` last ones.
pub proof fn lemma_newest_are_last(s: Seq<u32>, n: nat, generation: u32)
    requires
        ascending(s),
    ensures
        among_newest(s, n, generation) <==> exists|j: int|
            tail_start(s.len(), n) <= j < s.len() && s[j] == generation,
{
    let start = tail_start(s.len(), n);
    if among_newest(s, n, generation) {
        let i = choose|i: int| 0 <= i < s.len() && s[i] == generation;
        let j = lemma_last_at_most(s, generation, i);
        assert(s[i] <= s[j]);
        if j < s.len() - 1 {
            lemma_newer_count_bounds(s, generation, j + 1);
        }
        assert(start <= j < s.len() && s[j] == generation);
    }
    if exists|j: int| start <= j < s.len() && s[j] == generation {
        let j = choose|j: int| start <= j < s.len() && s[j] == generation;
        lemma_newer_count_bounds(s, generation, j);
        assert(s.contains(generation));
    }
}

/// How many entries are larger than `generation` does not depend on the order
/// of the list.
pub proof fn lemma_newer_count_of_order(ids: Seq<u32>, generation: u32)
    ensures
        newer_count(ascending_order(ids), generation) == newer_count(ids, generation),
{
    lemma_ascending_order(ids);
    lemma_filter_len_by_entries(ascending_order(ids), |other: u32| other > generation);
    lemma_filter_len_by_entries(ids, |other: u32| other > generation);
}

/// The number of entries that pass a filter, counted on the entries alone.
proof fn lemma_filter_len_by_entries(s: Seq<u32>, pred: spec_fn(u32) -> bool)
    ensures
        s.filter(pred).len() == s.to_multiset().filter(pred).len(),
    decreases s.len(),
{
    broadcast use vstd::multiset::group_multiset_axioms;

    s.to_multiset_ensures();
    if s.len() == 0 {
        reveal(Seq::filter);
        assert(s.to_multiset().filter(pred) =~= vstd::multiset::Multiset::<u32>::empty());
    } else {
        let front = s.drop_last();
        let x = s.last();
        assert(s =~= front.push(x));
        front.lemma_filter_len_push(pred, x);
        front.to_multiset_ensures();
        lemma_filter_len_by_entries(front, pred);
        let m = front.to_multiset();
        assert(s.to_multiset() =~= m.insert(x));
        if pred(x) {
            assert(m.insert(x).filter(pred) =~= m.filter(pred).insert(x));
        } else {
            assert(m.insert(x).filter(pred) =~= m.filter(pred));
        }
    }
}

/// Being among the `n` largest does not depend on the order of the list.
pub proof fn lemma_among_newest_of_order(ids: Seq<u32>, n: nat, generation: u32)
    ensures
        among_newest(ascending_order(ids), n, generation) <==> among_newest(ids, n, generation),
{
    lemma_ascending_order(ids);
    lemma_newer_count_of_order(ids, generation);
}

/// A known generation has fewer entries above it than the list is long.
pub proof fn lemma_newer_count_of_member(ids: Seq<u32>, generation: u32)
    requires
        ids.contains(generation),
    ensures
        newer_count(ids, generation) < ids.len(),
{
    lemma_ascending_order(ids);
    lemma_newer_count_of_order(ids, generation);
    let sorted = ascending_order(ids);
    let j = choose|j: int| 0 <= j < sorted.len() && sorted[j] == generation;
    lemma_newer_count_bounds(sorted, generation, j);
}

/// What the decision holds, for every input.
///
/// It lists exactly the known generations that are not retained, in ascending
/// order. So it never holds the active generation nor a protected one, and it
/// holds nothing that does not exist. Known generations without duplicates
/// give a decision without duplicates. A keep-last policy of at least as many
/// generations as exist leaves nothing to delete.
pub proof fn lemma_deletion_order(
    ids: Seq<u32>,
    current: u32,
    protected: Set<u32>,
    keep_last: Option<usize>,
)
    ensures
        ascending(deletion_order(ids, current, protected, keep_last)),
        forall|g: u32|
            deletion_order(ids, current, protected, keep_last).contains(g) <==> ids.contains(g)
                && !is_retained(ids, current, protected, keep_last, g),
        !deletion_order(ids, current, protected, keep_last).contains(current),
        forall|g: u32|
            protected.contains(g) ==> !deletion_order(ids, current, protected, keep_last).contains(
                g,
            ),
        ids.no_duplicates() ==> strictly_ascending(
            deletion_order(ids, current, protected, keep_last),
        ),
        keep_last matches Some(n) && n >= ids.len() ==> deletion_order(
            ids,
            current,
            protected,
            keep_last,
        ).len() == 0,
{
    let doomed = |generation: u32| !is_retained(ids, current, protected, keep_last, generation);
    let sorted = ascending_order(ids);
    let deletion = deletion_order(ids, current, protected, keep_last);
    lemma_ascending_order(ids);
    lemma_filter_of_ascending(sorted, doomed);
    if ids.no_duplicates() {
        lemma_order_of_distinct(ids);
    }
    if keep_last matches Some(n) && n >= ids.len() {
        if deletion.len() > 0 {
            assert(deletion.contains(deletion[0]));
            lemma_newer_count_of_member(ids, deletion[0]);
        }
    }
}

/// The decision depends on which generations exist, not on the order in which
/// they are listed.
pub proof fn lemma_decision_ignores_order(
    ids: Seq<u32>,
    reordered: Seq<u32>,
    current: u32,
    protected: Set<u32>,
    keep_last: Option<usize>,
)
    requires
        ids.to_multiset() == reordered.to_multiset(),
    ensures
        deletion_order(ids, current, protected, keep_last) == deletion_order(
            reordered,
            current,
            protected,
            keep_last,
        ),
{
    let doomed = |generation: u32| !is_retained(ids, current, protected, keep_last, generation);
    let doomed_reordered = |generation: u32|
        !is_retained(reordered, current, protected, keep_last, generation);
    lemma_ascending_order(ids);
    lemma_ascending_order(reordered);
    lemma_ascending_is_the_order(ascending_order(ids), reordered);
    assert forall|g: u32| #[trigger] doomed(g) == doomed_reordered(g) by {
        lemma_newer_count_of_order(ids, g);
        lemma_newer_count_of_order(reordered, g);
    }
    assert(doomed =~= doomed_reordered);
}

/// The generations that a keep-last policy of `n` covers.
pub open spec fn newest(ids: Seq<u32>, n: nat) -> Set<u32> {
    Set::new(|generation: u32| among_newest(ids, n, generation))
}

/// A keep-last policy of `n` covers the `n` largest generations and no others.
///
/// Of generations without duplicates it covers `n`, or all of them when there
/// are fewer; and whatever is known and larger than a covered generation is
/// covered too.
pub proof fn lemma_policy_keeps_largest(ids: Seq<u32>, n: nat)
    requires
        ids.no_duplicates(),
    ensures
        newest(ids, n).finite(),
        newest(ids, n).len() == if n <= ids.len() {
            n
        } else {
            ids.len()
        },
        forall|g: u32, h: u32|
            newest(ids, n).contains(g) && ids.contains(h) && h > g ==> newest(ids, n).contains(h),
        forall|g: u32| newest(ids, n).contains(g) ==> ids.contains(g),
{
    let sorted = ascending_order(ids);
    lemma_ascending_order(ids);
    lemma_order_of_distinct(ids);
    let start = tail_start(sorted.len(), n);
    let tail = sorted.skip(start);
    assert forall|g: u32| newest(ids, n).contains(g) <==> tail.contains(g) by {
        lemma_among_newest_of_order(ids, n, g);
        lemma_newest_are_last(sorted, n, g);
        if tail.contains(g) {
            let k = choose|k: int| 0 <= k < tail.len() && tail[k] == g;
            assert(sorted[start + k] == g);
        }
        if exists|j: int| start <= j < sorted.len() && sorted[j] == g {
            let j = choose|j: int| start <= j < sorted.len() && sorted[j] == g;
            assert(tail[j - start] == g);
        }
    }
    assert(newest(ids, n) =~= tail.to_set());
    vstd::seq_lib::seq_to_set_is_finite(tail);
    assert(tail.no_duplicates()) by {
        assert forall|i: int, j: int| 0 <= i < tail.len() && 0 <= j < tail.len() && i
            != j implies tail[i] != tail[j] by {
            if i < j {
                assert(sorted[start + i] < sorted[start + j]);
            } else {
                assert(sorted[start + j] < sorted[start + i]);
            }
        }
    }
    tail.unique_seq_to_set();
    assert forall|g: u32, h: u32|
        newest(ids, n).contains(g) && ids.contains(h) && h > g implies newest(ids, n).contains(
        h,
    ) by {
        let k = choose|k: int| 0 <= k < tail.len() && tail[k] == g;
        let j = choose|j: int| 0 <= j < sorted.len() && sorted[j] == h;
        if j < start + k {
            assert(sorted[j] < sorted[start + k]);
        }
        assert(tail[j - start] == h);
    }
}

/// The generations that are exempt from clean-up: the active one, the
/// protected ones, and the last `n` of the ascending list `sorted` under a
/// keep-last policy of `n`.
fn retain_set(
    sorted: &Vec<u32>,
    current_id: u32,
    protected_ids: &HashSet<u32>,
    keep_last: Option<usize>,
) -> (keep: HashSet<u32>)
    requires
        ascending(sorted@),
    ensures
        forall|generation: u32|
            keep@.contains(generation) <==> is_retained(
                sorted@,
                current_id,
                protected_ids@,
                keep_last,
                generation,
            ),
{
    let mut keep: HashSet<u32> = HashSet::new();
    keep.insert(current_id);

    let ghost listed = spec_hash_keys_iter(protected_ids).remaining().unref();
    proof {
        axiom_spec_hash_keys_iter(protected_ids);
    }
    for protected in it: protected_ids.iter()
        invariant
            it.seq().unref() == listed,
            forall|g: u32|
                keep@.contains(g) <==> g == current_id || listed.take(it.index()).contains(g),
    {
        let ghost seen = listed.take(it.index());
        keep.insert(*protected);
        proof {
            let seen_next = listed.take(it.index() + 1);
            assert(seen_next =~= seen.push(*protected));
            assert forall|g: u32| seen_next.contains(g) <==> seen.contains(g) || g
                == *protected by {
                if seen.contains(g) {
                    let i = choose|i: int| 0 <= i < seen.len() && seen[i] == g;
                    assert(seen_next[i] == g);
                }
                if g == *protected {
                    assert(seen_next[seen.len() as int] == g);
                }
            }
        }
    }
    proof {
        assert(listed.take(listed.len() as int) =~= listed);
        assert forall|g: u32| listed.contains(g) <==> protected_ids@.contains(g) by {
            assert(listed.to_set().contains(g) <==> listed.contains(g));
        }
    }

    match keep_last {
        Some(n) => {
            let len = sorted.len();
            let start = len.saturating_sub(n);
            assert(start == tail_start(len as nat, n as nat));
            for i in start..len
                invariant
                    len == sorted@.len(),
                    start <= len,
                    forall|g: u32|
                        keep@.contains(g) <==> g == current_id || protected_ids@.contains(g)
                            || exists|j: int| start <= j < i && sorted@[j] == g,
            {
                keep.insert(sorted[i]);
            }
            proof {
                assert forall|g: u32|
                    keep@.contains(g) <==> is_retained(
                        sorted@,
                        current_id,
                        protected_ids@,
                        keep_last,
                        g,
                    ) by {
                    lemma_newest_are_last(sorted@, n as nat, g);
                }
            }
        },
        None => {},
    }
    keep
}

/// Decides which generations a clean-up removes.
///
/// `all_ids` are the generations that exist, `current_id` is the active one,
/// `protected_ids` are those the operator protected, and `keep_last`, when
/// given, exempts that many of the largest entries of `all_ids`. The result
/// lists, in ascending order, every entry of `all_ids` that is not retained.
/// Protected numbers that do not exist change nothing, and a `keep_last` that
/// exceeds the number of generations retains them all.
pub fn decide(
    all_ids: &[u32],
    current_id: u32,
    protected_ids: &HashSet<u32>,
    keep_last: Option<usize>,
) -> (to_delete: Vec<u32>)
    ensures
        to_delete@ == deletion_order(all_ids@, current_id, protected_ids@, keep_last),
        ascending(to_delete@),
        forall|g: u32|
            to_delete@.contains(g) <==> all_ids@.contains(g) && !is_retained(
                all_ids@,
                current_id,
                protected_ids@,
                keep_last,
                g,
            ),
        !to_delete@.contains(current_id),
        forall|g: u32| protected_ids@.contains(g) ==> !to_delete@.contains(g),
        all_ids@.no_duplicates() ==> strictly_ascending(to_delete@),
        keep_last matches Some(n) && n >= all_ids@.len() ==> to_delete@.len() == 0,
{
    proof {
        lemma_deletion_order(all_ids@, current_id, protected_ids@, keep_last);
    }
    let sorted = sorted_copy(all_ids);
    let keep = retain_set(&sorted, current_id, protected_ids, keep_last);
    let ghost doomed = |generation: u32|
        !is_retained(all_ids@, current_id, protected_ids@, keep_last, generation);
    proof {
        assert forall|g: u32| keep@.contains(g) <==> !doomed(g) by {
            if keep_last is Some {
                lemma_among_newest_of_order(all_ids@, keep_last->0 as nat, g);
            }
        }
    }

    let mut to_delete: Vec<u32> = Vec::new();
    let len = sorted.len();
    assert(sorted@.take(0) =~= Seq::<u32>::empty());
    assert(Seq::<u32>::empty().filter(doomed) =~= Seq::<u32>::empty()) by {
        reveal(Seq::filter);
    }
    for i in 0..len
        invariant
            len == sorted@.len(),
            to_delete@ == sorted@.take(i as int).filter(doomed),
            forall|g: u32| keep@.contains(g) <==> !doomed(g),
    {
        let generation = sorted[i];
        proof {
            assert(sorted@.take(i as int + 1) =~= sorted@.take(i as int).push(generation));
            sorted@.take(i as int).lemma_filter_push(generation, doomed);
        }
        if !keep.contains(&generation) {
            to_delete.push(generation);
        }
    }
    assert(sorted@.take(len as int) =~= sorted@);
    to_delete
}

} // verus!
