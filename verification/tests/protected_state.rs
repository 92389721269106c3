use lock_generations::protected_state::ProtectedState;

#[test]
fn test_new_protected_state() {
    let state = ProtectedState::new();
    assert!(state.protected_generations.is_empty());
}

#[test]
fn test_protect_unprotect() {
    let mut state = ProtectedState::new();

    assert!(state.protect(5));
    assert!(state.is_protected(5));
    assert!(!state.is_protected(3));

    assert!(!state.protect(5)); // Already protected
    assert!(state.unprotect(5));
    assert!(!state.is_protected(5));
    assert!(!state.unprotect(5)); // Already unprotected
}

#[test]
fn protect_twice_reports_true_then_false() {
    let mut state = ProtectedState::new();
    state.protect(1);
    assert!(state.protect(7));
    assert!(!state.protect(7));
    assert_eq!(state.protected_generations.len(), 2);
    assert!(state.is_protected(1));
    assert!(state.is_protected(7));
}

#[test]
fn unprotect_of_an_unprotected_generation_reports_false() {
    let mut state = ProtectedState::new();
    state.protect(1);
    assert!(!state.unprotect(2));
    assert_eq!(state.protected_generations.len(), 1);
    assert!(state.is_protected(1));
}

#[test]
fn default_is_empty() {
    let state = ProtectedState::default();
    assert!(state.protected_generations.is_empty());
}

#[test]
fn sorted_ids_are_ascending() {
    let mut state = ProtectedState::new();
    for id in [10, 1, 5, 300, 2, u32::MAX, 0] {
        state.protect(id);
    }
    assert_eq!(state.sorted_ids(), vec![0, 1, 2, 5, 10, 300, u32::MAX]);
    assert_eq!(ProtectedState::new().sorted_ids(), Vec::<u32>::new());
}

#[test]
fn from_ids_protects_each_number_once() {
    let state = ProtectedState::from_ids(&[4, 2, 4, 9, 2]);
    assert_eq!(state.protected_generations.len(), 3);
    assert!(state.is_protected(2));
    assert!(state.is_protected(4));
    assert!(state.is_protected(9));
    assert!(!state.is_protected(3));
    assert!(ProtectedState::from_ids(&[]).protected_generations.is_empty());
}

#[test]
fn what_is_stored_reads_back_as_the_same_set() {
    let mut state = ProtectedState::new();
    state.protect(1);
    state.protect(5);
    state.protect(10);
    let stored = state.sorted_ids();
    let loaded = ProtectedState::from_ids(&stored);
    assert_eq!(loaded.protected_generations.len(), 3);
    assert!(loaded.is_protected(1));
    assert!(loaded.is_protected(5));
    assert!(loaded.is_protected(10));
    assert_eq!(loaded.protected_generations, state.protected_generations);

    let empty = ProtectedState::from_ids(&ProtectedState::new().sorted_ids());
    assert!(empty.protected_generations.is_empty());
}

#[test]
fn clone_holds_the_same_generations() {
    let mut state = ProtectedState::from_ids(&[3, 8]);
    let copy = state.clone();
    state.protect(9);
    assert_eq!(copy.sorted_ids(), vec![3, 8]);
    assert_eq!(state.sorted_ids(), vec![3, 8, 9]);
}
