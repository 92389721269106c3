//! The set of generations that the operator has protected.

use crate::order::{
    ascending_members, lemma_ascending_listing, lemma_ascending_order, lemma_ascending_members,
    lemma_order_of_distinct, sorted_copy, strictly_ascending,
};
use std::collections::HashSet;
use vstd::prelude::*;
use vstd::std_specs::hash::{axiom_spec_hash_keys_iter, spec_hash_keys_iter};
use vstd::std_specs::iter::IteratorSpec;

verus! {

/// The generations that are exempt from clean-up, whatever their age.
#[derive(Debug)]
pub struct ProtectedState {
    pub protected_generations: HashSet<u32>,
}

impl View for ProtectedState {
    type V = Set<u32>;

    open spec fn view(&self) -> Set<u32> {
        self.protected_generations@
    }
}

/// The protected set after `generation` is protected.
pub open spec fn after_protect(protected: Set<u32>, generation: u32) -> Set<u32> {
    protected.insert(generation)
}

/// What `protect` reports: whether `generation` was not protected before.
pub open spec fn newly_protected(protected: Set<u32>, generation: u32) -> bool {
    !protected.contains(generation)
}

/// The protected set after the protection of `generation` is removed.
pub open spec fn after_unprotect(protected: Set<u32>, generation: u32) -> Set<u32> {
    protected.remove(generation)
}

/// What `unprotect` reports: whether `generation` was protected before.
pub open spec fn was_protected(protected: Set<u32>, generation: u32) -> bool {
    protected.contains(generation)
}

impl ProtectedState {
    /// An empty state: nothing is protected.
    pub fn new() -> (state: Self)
        ensures
            state@ == Set::<u32>::empty(),
    {
        Self { protected_generations: HashSet::new() }
    }

    /// Protects `generation`. Returns `true` when it was not protected before.
    pub fn protect(&mut self, generation: u32) -> (newly: bool)
        ensures
            final(self)@ == after_protect(old(self)@, generation),
            newly == newly_protected(old(self)@, generation),
    {
        self.protected_generations.insert(generation)
    }

    /// Removes the protection of `generation`. Returns `true` when it was
    /// protected before.
    pub fn unprotect(&mut self, generation: u32) -> (was: bool)
        ensures
            final(self)@ == after_unprotect(old(self)@, generation),
            was == was_protected(old(self)@, generation),
    {
        self.protected_generations.remove(&generation)
    }

    /// Whether `generation` is protected.
    pub fn is_protected(&self, generation: u32) -> (protected: bool)
        ensures
            protected == self@.contains(generation),
    {
        self.protected_generations.contains(&generation)
    }

    /// The state in which exactly the generations in `ids` are protected. A
    /// number that occurs more than once counts once.
    pub fn from_ids(ids: &[u32]) -> (state: Self)
        ensures
            state@ == ids@.to_set(),
    {
        let mut state = Self::new();
        let len = ids.len();
        assert(ids@.take(0).to_set() =~= Set::<u32>::empty());
        for i in 0..len
            invariant
                len == ids@.len(),
                state@ == ids@.take(i as int).to_set(),
        {
            state.protected_generations.insert(ids[i]);
            assert(ids@.take(i + 1) =~= ids@.take(i as int).push(ids@[i as int]));
            assert(ids@.take(i as int).push(ids@[i as int]).to_set() =~= ids@.take(
                i as int,
            ).to_set().insert(ids@[i as int])) by {
                let before = ids@.take(i as int);
                let after = before.push(ids@[i as int]);
                assert forall|g: u32| after.to_set().contains(g) <==> before.to_set().insert(
                    ids@[i as int],
                ).contains(g) by {
                    assert(after.to_set().contains(g) <==> after.contains(g));
                    assert(before.to_set().contains(g) <==> before.contains(g));
                    if before.contains(g) {
                        let k = choose|k: int| 0 <= k < before.len() && before[k] == g;
                        assert(after[k] == g);
                    }
                    if g == ids@[i as int] {
                        assert(after[before.len() as int] == g);
                    }
                }
            }
        }
        assert(ids@.take(len as int) =~= ids@);
        state
    }

    /// The protected generations in ascending order, each once. This is the
    /// order in which they are shown and stored.
    pub fn sorted_ids(&self) -> (ids: Vec<u32>)
        ensures
            ids@ == ascending_members(self@),
            strictly_ascending(ids@),
            ids@.to_set() == self@,
            self@.finite(),
    {
        let unordered = self.ids();
        let ids = sorted_copy(unordered.as_slice());
        proof {
            lemma_order_of_distinct(unordered@);
            lemma_ascending_order(unordered@);
            assert(ids@.to_set() =~= self@) by {
                assert forall|g: u32| ids@.to_set().contains(g) <==> self@.contains(g) by {
                    assert(ids@.to_set().contains(g) <==> ids@.contains(g));
                    assert(unordered@.to_set().contains(g) <==> unordered@.contains(g));
                }
            }
            lemma_ascending_listing(ids@);
            vstd::seq_lib::seq_to_set_is_finite(ids@);
        }
        ids
    }

    /// The protected generations, each once, in no particular order.
    fn ids(&self) -> (ids: Vec<u32>)
        ensures
            ids@.no_duplicates(),
            ids@.to_set() == self@,
    {
        let mut ids: Vec<u32> = Vec::new();
        let ghost all = spec_hash_keys_iter(&self.protected_generations).remaining().unref();
        proof {
            axiom_spec_hash_keys_iter(&self.protected_generations);
        }
        for id in it: self.protected_generations.iter()
            invariant
                it.seq().unref() == all,
                ids@ == all.take(it.index()),
        {
            ids.push(*id);
        }
        assert(ids@ == all);
        ids
    }
}

impl Default for ProtectedState {
    fn default() -> (state: Self)
        ensures
            state@ == Set::<u32>::empty(),
    {
        Self::new()
    }
}

impl Clone for ProtectedState {
    fn clone(&self) -> (copy: Self)
        ensures
            copy@ == self@,
    {
        let ids = self.ids();
        Self::from_ids(ids.as_slice())
    }
}

/// What is stored for a set of protected generations reads back as that set.
///
/// The store holds the ascending listing of the set, and reading a listing
/// protects exactly the numbers in it. This holds of every finite set, the
/// empty one included.
pub proof fn lemma_store_round_trip(protected: Set<u32>)
    requires
        protected.finite(),
    ensures
        ascending_members(protected).to_set() == protected,
        ascending_members(protected).no_duplicates(),
        protected.len() == 0 ==> ascending_members(protected).len() == 0,
{
    lemma_ascending_members(protected);
}

/// Protecting a generation twice changes nothing the second time.
///
/// The first `protect` reports `true` exactly when the generation was not
/// protected. After it the generation is protected, so a second `protect`
/// reports `false` and leaves the set as it is.
pub proof fn lemma_protect_twice(protected: Set<u32>, generation: u32)
    ensures
        newly_protected(protected, generation) == !protected.contains(generation),
        after_protect(protected, generation).contains(generation),
        !newly_protected(after_protect(protected, generation), generation),
        after_protect(after_protect(protected, generation), generation) == after_protect(
            protected,
            generation,
        ),
{
    assert(protected.insert(generation).insert(generation) =~= protected.insert(generation));
}

/// Removing a protection that is not there reports `false` and changes
/// nothing. After an `unprotect` the generation is not protected, so this
/// holds of a second `unprotect` too.
pub proof fn lemma_unprotect_unprotected(protected: Set<u32>, generation: u32)
    ensures
        !protected.contains(generation) ==> !was_protected(protected, generation)
            && after_unprotect(protected, generation) == protected,
        !after_unprotect(protected, generation).contains(generation),
        !was_protected(after_unprotect(protected, generation), generation),
{
    if !protected.contains(generation) {
        assert(protected.remove(generation) =~= protected);
    }
}

} // verus!
