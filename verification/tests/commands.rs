use lock_generations::commands::{protect_generation, unprotect_generation, ProtectionChange};
use lock_generations::protected_state::ProtectedState;

#[test]
fn protecting_changes_the_state_once() {
    let mut state = ProtectedState::new();
    let first = protect_generation(&mut state, 5);
    assert_eq!(first, ProtectionChange::Protected);
    assert!(first.must_save());
    assert!(state.is_protected(5));

    let second = protect_generation(&mut state, 5);
    assert_eq!(second, ProtectionChange::AlreadyProtected);
    assert!(!second.must_save());
    assert_eq!(state.sorted_ids(), vec![5]);
}

#[test]
fn removing_a_protection_changes_the_state_once() {
    let mut state = ProtectedState::from_ids(&[3, 5]);
    let first = unprotect_generation(&mut state, 5);
    assert_eq!(first, ProtectionChange::Unprotected);
    assert!(first.must_save());
    assert!(!state.is_protected(5));

    let second = unprotect_generation(&mut state, 5);
    assert_eq!(second, ProtectionChange::NotProtected);
    assert!(!second.must_save());
    assert_eq!(state.sorted_ids(), vec![3]);
}

#[test]
fn a_request_that_changes_nothing_needs_no_save() {
    let mut state = ProtectedState::new();
    assert!(!unprotect_generation(&mut state, 1).must_save());
    assert!(state.protected_generations.is_empty());
}
