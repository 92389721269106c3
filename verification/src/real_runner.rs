//! Talking to `nix-env`: the arguments to run it with, and what its answer
//! means.
//!
//! Running the program is left to the caller. This module says how to call it
//! and reads what came back.

use crate::command_runner::Generation;
use crate::error::LockError;
use crate::listing::{
    current_generation, listed_generations, parse_current_generation, parse_generations,
};
use crate::text::{
    all_digits, decimal_value, digit_value, is_digit, number_of, unsigned_part,
};
use vstd::prelude::*;
use vstd::string::StringExecFns;

verus! {

/// The character that writes the digit `d`.
pub open spec fn digit_char(d: nat) -> char {
    (0x30 + d) as char
}

/// `n` in base ten, without a sign and without leading zeros.
pub open spec fn decimal_digits(n: nat) -> Seq<char>
    decreases n,
{
    if n < 10 {
        seq![digit_char(n)]
    } else {
        decimal_digits(n / 10).push(digit_char(n % 10))
    }
}

/// The numbers `ids` in base ten, with one blank between two of them.
pub open spec fn joined_numbers(ids: Seq<u32>) -> Seq<char>
    decreases ids.len(),
{
    if ids.len() == 0 {
        Seq::empty()
    } else if ids.len() == 1 {
        decimal_digits(ids[0] as nat)
    } else {
        joined_numbers(ids.drop_last()) + seq![' '] + decimal_digits(ids.last() as nat)
    }
}

/// What is written for a number reads back as that number.
pub proof fn lemma_decimal_round_trip(n: u32)
    ensures
        number_of(decimal_digits(n as nat)) == Some(n),
{
    lemma_decimal_digits(n as nat);
    let digits = decimal_digits(n as nat);
    assert(is_digit(digits[0]));
    assert(unsigned_part(digits) == digits);
}

/// The digits of a number are digits, and they write that number.
pub proof fn lemma_decimal_digits(n: nat)
    ensures
        decimal_digits(n).len() > 0,
        all_digits(decimal_digits(n)),
        decimal_value(decimal_digits(n)) == n,
    decreases n,
{
    if n < 10 {
        let digits = decimal_digits(n);
        assert(digits.drop_last() =~= Seq::<char>::empty());
        assert(decimal_value(digits.drop_last()) == 0);
        assert(digit_value(digits.last()) == n);
    } else {
        lemma_decimal_digits(n / 10);
        let front = decimal_digits(n / 10);
        let digits = decimal_digits(n);
        assert(digits.drop_last() =~= front);
        assert(digit_value(digits.last()) == n % 10);
        assert forall|i: int| 0 <= i < digits.len() implies is_digit(#[trigger] digits[i]) by {
            if i < front.len() {
                assert(digits[i] == front[i]);
            }
        }
    }
}

/// The text of one decimal digit.
fn digit_text(d: u32) -> (text: &'static str)
    requires
        d < 10,
    ensures
        text@ == seq![digit_char(d as nat)],
{
    proof {
        reveal_strlit("0");
        reveal_strlit("1");
        reveal_strlit("2");
        reveal_strlit("3");
        reveal_strlit("4");
        reveal_strlit("5");
        reveal_strlit("6");
        reveal_strlit("7");
        reveal_strlit("8");
        reveal_strlit("9");
    }
    let text = if d == 0 {
        "0"
    } else if d == 1 {
        "1"
    } else if d == 2 {
        "2"
    } else if d == 3 {
        "3"
    } else if d == 4 {
        "4"
    } else if d == 5 {
        "5"
    } else if d == 6 {
        "6"
    } else if d == 7 {
        "7"
    } else if d == 8 {
        "8"
    } else {
        "9"
    };
    assert(text@ =~= seq![digit_char(d as nat)]);
    text
}

/// Writes `n` in base ten behind what `out` holds.
fn write_decimal(out: &mut String, n: u32)
    ensures
        final(out)@ == old(out)@ + decimal_digits(n as nat),
    decreases n,
{
    if n >= 10 {
        write_decimal(out, n / 10);
    }
    out.append(digit_text(n % 10));
    proof {
        if n >= 10 {
            assert(old(out)@ + decimal_digits(n as nat / 10) + seq![digit_char(n as nat % 10)]
                =~= old(out)@ + decimal_digits(n as nat));
        }
    }
}

/// Writes the numbers `ids` in base ten, with one blank between two of them.
pub fn join_numbers(ids: &[u32]) -> (text: String)
    ensures
        text@ == joined_numbers(ids@),
{
    let mut text = String::new();
    let len = ids.len();
    assert(ids@.take(0) =~= Seq::<u32>::empty());
    for i in 0..len
        invariant
            len == ids@.len(),
            text@ == joined_numbers(ids@.take(i as int)),
    {
        let ghost before = ids@.take(i as int);
        let ghost after = ids@.take(i + 1);
        proof {
            assert(after.drop_last() =~= before);
            assert(after.last() == ids@[i as int]);
            reveal_strlit(" ");
        }
        if i > 0 {
            text.append(" ");
        }
        write_decimal(&mut text, ids[i]);
        proof {
            if i == 0 {
                assert(Seq::<char>::empty() + decimal_digits(ids@[0] as nat) =~= decimal_digits(
                    ids@[0] as nat,
                ));
            } else {
                assert(" "@ =~= seq![' ']);
            }
        }
    }
    assert(ids@.take(len as int) =~= ids@);
    text
}

/// What a run of the system tool gave: whether it succeeded, and what it wrote
/// to its output and to its error stream.
#[derive(Debug)]
pub struct CommandOutput {
    pub success: bool,
    pub stdout: String,
    pub stderr: String,
}

/// The next step of a deletion.
#[derive(Debug)]
pub enum DeletionStep {
    /// The program is to be run with these arguments, and its answer is to be
    /// handed back.
    Run(Vec<String>),
    /// The deletion is over, with this result.
    Done(Result<(), LockError>),
}

/// Whether `done` is the result that the answer `output` to a deletion means:
/// success when the program succeeded, else the failure that hands on its
/// diagnostic.
pub open spec fn is_deletion_result(done: Result<(), LockError>, output: CommandOutput) -> bool {
    match done {
        Ok(_) => output.success,
        Err(error) => !output.success && error.is_external_command(
            "nix-env --delete-generations failed: "@ + output.stderr@,
        ),
    }
}

/// The way to the real `nix-env`, for one system profile.
#[derive(Debug)]
pub struct RealNixOsRunner {
    profile_path: String,
}

/// The profile that holds the generations of the system.
pub open spec fn system_profile() -> Seq<char> {
    "/nix/var/nix/profiles/system"@
}

/// The arguments that list the generations of `profile`.
pub open spec fn list_arguments(profile: Seq<char>) -> Seq<Seq<char>> {
    seq!["--list-generations"@, "-p"@, profile]
}

/// The arguments that delete `ids` from `profile`. The numbers go into one
/// argument, with blanks between them.
pub open spec fn delete_arguments(profile: Seq<char>, ids: Seq<u32>) -> Seq<Seq<char>> {
    seq!["--delete-generations"@, joined_numbers(ids), "-p"@, profile]
}

/// The texts of `arguments`, in order.
pub open spec fn texts_of(arguments: Seq<String>) -> Seq<Seq<char>> {
    arguments.map_values(|argument: String| argument@)
}

impl RealNixOsRunner {
    /// The profile whose generations this runner works on.
    pub closed spec fn profile(&self) -> Seq<char> {
        self.profile_path@
    }

    /// A runner for the system profile.
    pub fn new() -> (runner: Self)
        ensures
            runner.profile() == system_profile(),
    {
        Self { profile_path: String::from_str("/nix/var/nix/profiles/system") }
    }

    /// A runner for the profile at `profile_path`.
    pub fn with_profile(profile_path: String) -> (runner: Self)
        ensures
            runner.profile() == profile_path@,
    {
        Self { profile_path }
    }

    /// The profile whose generations this runner works on.
    pub fn profile_path(&self) -> (path: &str)
        ensures
            path@ == self.profile(),
    {
        self.profile_path.as_str()
    }

    /// The name of the program to run.
    pub fn program() -> (name: &'static str)
        ensures
            name@ == "nix-env"@,
    {
        "nix-env"
    }

    /// The arguments with which the program lists the generations.
    pub fn list_generations_arguments(&self) -> (arguments: Vec<String>)
        ensures
            texts_of(arguments@) == list_arguments(self.profile()),
    {
        let mut arguments: Vec<String> = Vec::new();
        arguments.push(String::from_str("--list-generations"));
        arguments.push(String::from_str("-p"));
        arguments.push(self.profile_path.clone());
        assert(texts_of(arguments@) =~= list_arguments(self.profile()));
        arguments
    }

    /// The arguments with which the program deletes `generations`. With no
    /// generation to delete the program is not to be run at all.
    pub fn delete_generations_arguments(&self, generations: &[u32]) -> (arguments: Option<
        Vec<String>,
    >)
        ensures
            generations@.len() == 0 ==> arguments is None,
            generations@.len() > 0 ==> arguments is Some && texts_of(arguments->0@)
                == delete_arguments(self.profile(), generations@),
    {
        if generations.len() == 0 {
            return None;
        }
        Some(self.deletion_arguments(generations))
    }

    /// The arguments with which the program deletes `generations`.
    fn deletion_arguments(&self, generations: &[u32]) -> (arguments: Vec<String>)
        ensures
            texts_of(arguments@) == delete_arguments(self.profile(), generations@),
    {
        let mut arguments: Vec<String> = Vec::new();
        arguments.push(String::from_str("--delete-generations"));
        arguments.push(join_numbers(generations));
        arguments.push(String::from_str("-p"));
        arguments.push(self.profile_path.clone());
        assert(texts_of(arguments@) =~= delete_arguments(self.profile(), generations@));
        arguments
    }

    /// Takes a deletion of `generations` one step further. `output` is the
    /// answer of the program, `None` as long as it has not been run.
    ///
    /// Deleting no generation succeeds at once: the program is not run, and
    /// an answer, if one is given, is of no concern. To delete some, the
    /// program is first to be run with the arguments for them; once its answer
    /// is there, the deletion is over with what the answer means.
    pub fn delete_generations_step(
        &self,
        generations: &[u32],
        output: Option<&CommandOutput>,
    ) -> (step: DeletionStep)
        ensures
            match step {
                DeletionStep::Run(arguments) => generations@.len() > 0 && output is None
                    && texts_of(arguments@) == delete_arguments(self.profile(), generations@),
                DeletionStep::Done(done) => if generations@.len() == 0 {
                    done is Ok
                } else {
                    output matches Some(answer) && is_deletion_result(done, *answer)
                },
            },
    {
        if generations.len() == 0 {
            return DeletionStep::Done(Ok(()));
        }
        match output {
            Some(answer) => DeletionStep::Done(self.delete_generations(answer)),
            None => DeletionStep::Run(self.deletion_arguments(generations)),
        }
    }

    /// Reads the answer to a listing: the generations that exist. When the
    /// program failed, its diagnostic is handed on.
    pub fn list_generations(&self, output: &CommandOutput) -> (generations: Result<
        Vec<Generation>,
        LockError,
    >)
        ensures
            match generations {
                Ok(generations) => output.success && generations@ == listed_generations(
                    output.stdout@,
                ),
                Err(error) => !output.success && error.is_external_command(
                    "nix-env --list-generations failed: "@ + output.stderr@,
                ),
            },
    {
        if !output.success {
            return Err(
                LockError::ExternalCommand(
                    String::from_str("nix-env --list-generations failed: ").concat(
                        output.stderr.as_str(),
                    ),
                ),
            );
        }
        Ok(parse_generations(output.stdout.as_str()))
    }

    /// Reads the answer to a listing: the active generation. When the program
    /// failed, its diagnostic is handed on; when it names no active
    /// generation, that is the failure.
    pub fn get_current_generation(&self, output: &CommandOutput) -> (current: Result<
        u32,
        LockError,
    >)
        ensures
            match current {
                Ok(number) => output.success && current_generation(output.stdout@) == Some(
                    number,
                ),
                Err(error) => if output.success {
                    current_generation(output.stdout@) is None && error
                        == LockError::CurrentGenerationNotFound
                } else {
                    error.is_external_command(
                        "nix-env --list-generations failed: "@ + output.stderr@,
                    )
                },
            },
    {
        if !output.success {
            return Err(
                LockError::ExternalCommand(
                    String::from_str("nix-env --list-generations failed: ").concat(
                        output.stderr.as_str(),
                    ),
                ),
            );
        }
        parse_current_generation(output.stdout.as_str())
    }

    /// Reads the answer to a deletion. When the program failed, its
    /// diagnostic is handed on.
    pub fn delete_generations(&self, output: &CommandOutput) -> (done: Result<(), LockError>)
        ensures
            is_deletion_result(done, *output),
    {
        if !output.success {
            return Err(
                LockError::ExternalCommand(
                    String::from_str("nix-env --delete-generations failed: ").concat(
                        output.stderr.as_str(),
                    ),
                ),
            );
        }
        Ok(())
    }
}

impl Default for RealNixOsRunner {
    fn default() -> (runner: Self)
        ensures
            runner.profile() == system_profile(),
    {
        Self::new()
    }
}

} // verus!
