//! Protecting a generation and removing its protection, as the operator asks
//! for it.
//!
//! The protection store is written after every change of the protected set,
//! and only then. A request that changes nothing is answered without writing.

use crate::protected_state::{
    after_protect, after_unprotect, newly_protected, was_protected, ProtectedState,
};
use vstd::prelude::*;

verus! {

/// What a request to protect a generation, or to remove its protection, came
/// to.
#[derive(Debug, Clone, Copy, PartialEq, Eq, Structural)]
pub enum ProtectionChange {
    /// The generation is protected now and was not before.
    Protected,
    /// The generation was protected already.
    AlreadyProtected,
    /// The generation is no longer protected.
    Unprotected,
    /// The generation was not protected in the first place.
    NotProtected,
}

impl ProtectionChange {
    /// Whether the request changed the protected set.
    pub open spec fn changed(self) -> bool {
        self == ProtectionChange::Protected || self == ProtectionChange::Unprotected
    }

    /// Whether the protection store has to be written: it has whenever the
    /// protected set changed.
    pub fn must_save(&self) -> (save: bool)
        ensures
            save == self.changed(),
    {
        match self {
            ProtectionChange::Protected => true,
            ProtectionChange::AlreadyProtected => false,
            ProtectionChange::Unprotected => true,
            ProtectionChange::NotProtected => false,
        }
    }
}

/// Protects `generation` in `state` and says whether that changed anything.
///
/// The protected set changes exactly when the answer is `Protected`, which is
/// when the store has to be written.
pub fn protect_generation(state: &mut ProtectedState, generation: u32) -> (change:
    ProtectionChange)
    ensures
        final(state)@ == after_protect(old(state)@, generation),
        change == if newly_protected(old(state)@, generation) {
            ProtectionChange::Protected
        } else {
            ProtectionChange::AlreadyProtected
        },
        change.changed() <==> final(state)@ != old(state)@,
{
    let newly = state.protect(generation);
    proof {
        if !newly {
            assert(old(state)@.insert(generation) =~= old(state)@);
        }
    }
    if newly {
        ProtectionChange::Protected
    } else {
        ProtectionChange::AlreadyProtected
    }
}

/// Removes the protection of `generation` in `state` and says whether that
/// changed anything.
///
/// The protected set changes exactly when the answer is `Unprotected`, which
/// is when the store has to be written.
pub fn unprotect_generation(state: &mut ProtectedState, generation: u32) -> (change:
    ProtectionChange)
    ensures
        final(state)@ == after_unprotect(old(state)@, generation),
        change == if was_protected(old(state)@, generation) {
            ProtectionChange::Unprotected
        } else {
            ProtectionChange::NotProtected
        },
        change.changed() <==> final(state)@ != old(state)@,
{
    let was = state.unprotect(generation);
    proof {
        if !was {
            assert(old(state)@.remove(generation) =~= old(state)@);
        }
    }
    if was {
        ProtectionChange::Unprotected
    } else {
        ProtectionChange::NotProtected
    }
}

} // verus!
