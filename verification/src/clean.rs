//! The clean-up: decide what to delete, then delete it or only show it.

use crate::command_runner::{generation_numbers, numbers_of, Generation, NixOsCommandRunner};
use crate::error::LockError;
use crate::order::ascending;
use crate::protected_state::ProtectedState;
use crate::retention::{decide, deletion_order};
use std::collections::HashSet;
use vstd::prelude::*;

verus! {

/// What a clean-up comes to.
#[derive(Debug)]
pub enum CleanAction {
    /// Every generation is retained.
    Nothing,
    /// A dry run: these generations would be deleted, and none was.
    DryRun(Vec<u32>),
    /// These generations are deleted.
    Delete(Vec<u32>),
}

/// Whether `action` is the plan for the generations `to_delete` that the
/// decision selected: nothing to do when there are none, else to show them in
/// a dry run and to delete them otherwise.
pub open spec fn is_plan_for(action: CleanAction, to_delete: Seq<u32>, dry_run: bool) -> bool {
    match action {
        CleanAction::Nothing => to_delete.len() == 0,
        CleanAction::DryRun(ids) => dry_run && ids@.len() > 0 && ids@ == to_delete,
        CleanAction::Delete(ids) => !dry_run && ids@.len() > 0 && ids@ == to_delete,
    }
}

/// Plans a clean-up from what the system reported.
///
/// `generations` are the generations that exist and `current` is the active
/// one. The plan names the generations that `decide` selects, in ascending
/// order: to be deleted, or in a dry run only to be shown. When none is
/// selected there is nothing to do, which is no failure.
pub fn plan_clean(
    generations: &[Generation],
    current: u32,
    protected_ids: &HashSet<u32>,
    keep_last: Option<usize>,
    dry_run: bool,
) -> (action: CleanAction)
    ensures
        is_plan_for(
            action,
            deletion_order(numbers_of(generations@), current, protected_ids@, keep_last),
            dry_run,
        ),
{
    let numbers = generation_numbers(generations);
    let to_delete = decide(numbers.as_slice(), current, protected_ids, keep_last);
    if to_delete.len() == 0 {
        CleanAction::Nothing
    } else if dry_run {
        CleanAction::DryRun(to_delete)
    } else {
        CleanAction::Delete(to_delete)
    }
}

/// Whether `outcome` is what a clean-up comes to once the decision has
/// selected `to_delete`.
///
/// With nothing to delete, and in a dry run, the plan is the outcome and the
/// runner is not asked to delete. Otherwise the runner is handed exactly the
/// generations `to_delete`, and its answer makes the outcome: the plan, or the
/// runner's failure.
pub open spec fn follows_decision<R: NixOsCommandRunner>(
    runner: &R,
    to_delete: Seq<u32>,
    dry_run: bool,
    outcome: Result<CleanAction, LockError>,
) -> bool {
    if to_delete.len() == 0 || dry_run {
        outcome matches Ok(action) && is_plan_for(action, to_delete, dry_run)
    } else {
        exists|handed: &[u32], deleted: Result<(), LockError>|
            {
                &&& handed@ == to_delete
                &&& #[trigger] call_ensures(R::delete_generations, (runner, handed), deleted)
                &&& match deleted {
                    Ok(_) => outcome matches Ok(action) && is_plan_for(
                        action,
                        to_delete,
                        dry_run,
                    ),
                    Err(error) => outcome == Err::<CleanAction, LockError>(error),
                }
            }
    }
}

/// Whether `outcome` is what a clean-up comes to once the runner has named
/// `current` as the active generation.
///
/// The runner is asked for the generations that exist. Its failure is the
/// outcome; else the decision is taken for its answer and `follows_decision`
/// says the rest.
pub open spec fn follows_current<R: NixOsCommandRunner>(
    runner: &R,
    protected: Set<u32>,
    keep_last: Option<usize>,
    dry_run: bool,
    current: u32,
    outcome: Result<CleanAction, LockError>,
) -> bool {
    exists|listed: Result<Vec<Generation>, LockError>|
        {
            &&& #[trigger] call_ensures(R::list_generations, (runner,), listed)
            &&& match listed {
                Ok(generations) => follows_decision(
                    runner,
                    deletion_order(numbers_of(generations@), current, protected, keep_last),
                    dry_run,
                    outcome,
                ),
                Err(error) => outcome == Err::<CleanAction, LockError>(error),
            }
        }
}

/// Whether `outcome` is what a clean-up of the system behind `runner` comes
/// to, for some answers of the runner.
///
/// The runner is asked for the active generation. Its failure is the outcome;
/// else `follows_current` says the rest.
pub open spec fn is_clean_outcome<R: NixOsCommandRunner>(
    runner: &R,
    protected: Set<u32>,
    keep_last: Option<usize>,
    dry_run: bool,
    outcome: Result<CleanAction, LockError>,
) -> bool {
    exists|current: Result<u32, LockError>|
        {
            &&& #[trigger] call_ensures(R::get_current_generation, (runner,), current)
            &&& match current {
                Ok(current) => follows_current(
                    runner,
                    protected,
                    keep_last,
                    dry_run,
                    current,
                    outcome,
                ),
                Err(error) => outcome == Err::<CleanAction, LockError>(error),
            }
        }
}

/// Cleans up the generations of the system behind `runner`.
///
/// Asks the runner for the active generation and for the generations that
/// exist, plans the clean-up with `plan_clean`, and has the runner delete what
/// the plan selects, unless this is a dry run. A failure of the runner ends
/// the clean-up and is handed on; nothing is deleted after a failure.
///
/// The outcome is fixed by the answers of the runner, as `is_clean_outcome`
/// says. Whatever the runner answers, the generations in the outcome are in
/// ascending order and none of them is protected.
pub fn clean_generations<R: NixOsCommandRunner>(
    runner: &R,
    state: &ProtectedState,
    keep_last: Option<usize>,
    dry_run: bool,
) -> (outcome: Result<CleanAction, LockError>)
    ensures
        is_clean_outcome(runner, state@, keep_last, dry_run, outcome),
        match outcome {
            Ok(CleanAction::Nothing) => true,
            Ok(CleanAction::DryRun(ids)) => dry_run && ids@.len() > 0 && ascending(ids@)
                && forall|g: u32| state@.contains(g) ==> !ids@.contains(g),
            Ok(CleanAction::Delete(ids)) => !dry_run && ids@.len() > 0 && ascending(ids@)
                && forall|g: u32| state@.contains(g) ==> !ids@.contains(g),
            Err(_) => true,
        },
{
    let current = runner.get_current_generation();
    let current_id = match current {
        Ok(current_id) => current_id,
        Err(error) => {
            return Err(error);
        },
    };
    let listed = runner.list_generations();
    let generations = match listed {
        Ok(generations) => generations,
        Err(error) => {
            assert(follows_current(runner, state@, keep_last, dry_run, current_id, Err(error)));
            return Err(error);
        },
    };
    let action = plan_clean(
        generations.as_slice(),
        current_id,
        &state.protected_generations,
        keep_last,
        dry_run,
    );
    let ghost to_delete = deletion_order(
        numbers_of(generations@),
        current_id,
        state@,
        keep_last,
    );
    proof {
        crate::retention::lemma_deletion_order(
            numbers_of(generations@),
            current_id,
            state@,
            keep_last,
        );
    }
    let outcome = match action {
        CleanAction::Delete(ids) => {
            let deleted = runner.delete_generations(ids.as_slice());
            match deleted {
                Ok(()) => Ok(CleanAction::Delete(ids)),
                Err(error) => Err(error),
            }
        },
        other => Ok(other),
    };
    assert(follows_decision(runner, to_delete, dry_run, outcome));
    assert(follows_current(runner, state@, keep_last, dry_run, current_id, outcome));
    outcome
}

} // verus!
