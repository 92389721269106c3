//! The boundary to the system tool that lists and deletes generations.

use crate::error::LockError;
use vstd::prelude::*;

verus! {

/// A generation of the system, known by its number.
#[derive(Debug, Clone, Copy, PartialEq, Eq, Structural)]
pub struct Generation {
    pub number: u32,
}

/// What this tool needs from the system: to list the generations, to name the
/// active one, and to delete some.
///
/// An implementation may run the real tool or stand in for it in a test. The
/// library promises nothing about what an implementation returns; it states
/// what it does with each answer.
pub trait NixOsCommandRunner {
    /// Lists the generations that exist.
    fn list_generations(&self) -> Result<Vec<Generation>, LockError>;

    /// Returns the number of the active generation.
    fn get_current_generation(&self) -> Result<u32, LockError>;

    /// Deletes the given generations.
    fn delete_generations(&self, generations: &[u32]) -> Result<(), LockError>;
}

/// The numbers of `generations`, in the same order.
pub open spec fn numbers_of(generations: Seq<Generation>) -> Seq<u32> {
    generations.map_values(|generation: Generation| generation.number)
}

/// Collects the numbers of `generations`, in the same order.
pub fn generation_numbers(generations: &[Generation]) -> (numbers: Vec<u32>)
    ensures
        numbers@ == numbers_of(generations@),
{
    let mut numbers: Vec<u32> = Vec::new();
    let len = generations.len();
    for i in 0..len
        invariant
            len == generations@.len(),
            numbers@ == numbers_of(generations@).take(i as int),
    {
        numbers.push(generations[i].number);
        assert(numbers_of(generations@).take(i + 1) =~= numbers_of(generations@).take(
            i as int,
        ).push(generations@[i as int].number));
    }
    assert(numbers_of(generations@).take(len as int) =~= numbers_of(generations@));
    numbers
}

} // verus!
