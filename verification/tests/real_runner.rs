use lock_generations::command_runner::Generation;
use lock_generations::error::LockError;
use lock_generations::real_runner::{
    join_numbers, CommandOutput, DeletionStep, RealNixOsRunner,
};

fn answer(success: bool, stdout: &str, stderr: &str) -> CommandOutput {
    CommandOutput { success, stdout: stdout.to_string(), stderr: stderr.to_string() }
}

#[test]
fn new_works_on_the_system_profile() {
    assert_eq!(RealNixOsRunner::new().profile_path(), "/nix/var/nix/profiles/system");
    assert_eq!(RealNixOsRunner::default().profile_path(), "/nix/var/nix/profiles/system");
}

#[test]
fn with_profile_works_on_the_given_profile() {
    let runner = RealNixOsRunner::with_profile("/tmp/profile".to_string());
    assert_eq!(runner.profile_path(), "/tmp/profile");
}

#[test]
fn the_program_is_nix_env() {
    assert_eq!(RealNixOsRunner::program(), "nix-env");
}

#[test]
fn listing_arguments_name_the_profile() {
    assert_eq!(
        RealNixOsRunner::new().list_generations_arguments(),
        vec!["--list-generations", "-p", "/nix/var/nix/profiles/system"]
    );
    assert_eq!(
        RealNixOsRunner::with_profile("p q".to_string()).list_generations_arguments(),
        vec!["--list-generations", "-p", "p q"]
    );
}

#[test]
fn deletion_arguments_hold_the_numbers_in_one_argument() {
    let runner = RealNixOsRunner::new();
    assert_eq!(
        runner.delete_generations_arguments(&[1, 2, 3]).unwrap(),
        vec!["--delete-generations", "1 2 3", "-p", "/nix/var/nix/profiles/system"]
    );
    assert_eq!(
        runner.delete_generations_arguments(&[40]).unwrap(),
        vec!["--delete-generations", "40", "-p", "/nix/var/nix/profiles/system"]
    );
}

#[test]
fn nothing_to_delete_needs_no_run() {
    assert_eq!(RealNixOsRunner::new().delete_generations_arguments(&[]), None);
}

#[test]
fn join_numbers_writes_decimal_numbers_with_blanks() {
    assert_eq!(join_numbers(&[]), "");
    assert_eq!(join_numbers(&[0]), "0");
    assert_eq!(join_numbers(&[7, 10, 99, 100, 4294967295]), "7 10 99 100 4294967295");
    assert_eq!(join_numbers(&[1000000000, 1, 20300]), "1000000000 1 20300");
    let ids: Vec<u32> = vec![0, 9, 10, 11, 19, 90, 101, 12345, 65535, 65536, u32::MAX - 1];
    let expected: Vec<String> = ids.iter().map(|g| g.to_string()).collect();
    assert_eq!(join_numbers(&ids), expected.join(" "));
}

#[test]
fn a_listing_is_read_from_the_output() {
    let runner = RealNixOsRunner::new();
    let output = answer(true, "  1 a\n  2 b (current)\n", "warning: ignored");
    assert_eq!(
        runner.list_generations(&output).unwrap(),
        vec![Generation { number: 1 }, Generation { number: 2 }]
    );
    assert_eq!(runner.get_current_generation(&output).unwrap(), 2);
}

#[test]
fn a_failed_listing_hands_on_the_diagnostic() {
    let runner = RealNixOsRunner::new();
    let output = answer(false, "  1 a (current)\n", "error: no such profile\n");
    match runner.list_generations(&output) {
        Err(LockError::ExternalCommand(text)) => {
            assert_eq!(text, "nix-env --list-generations failed: error: no such profile\n")
        }
        other => panic!("unexpected outcome: {:?}", other),
    }
    match runner.get_current_generation(&output) {
        Err(LockError::ExternalCommand(text)) => {
            assert_eq!(text, "nix-env --list-generations failed: error: no such profile\n")
        }
        other => panic!("unexpected outcome: {:?}", other),
    }
}

#[test]
fn a_listing_without_current_generation_is_a_failure() {
    let runner = RealNixOsRunner::new();
    let output = answer(true, "  1 a\n  2 b\n", "");
    match runner.get_current_generation(&output) {
        Err(LockError::CurrentGenerationNotFound) => {}
        other => panic!("unexpected outcome: {:?}", other),
    }
    assert_eq!(runner.list_generations(&output).unwrap().len(), 2);
}

#[test]
fn the_answer_to_a_deletion_is_read() {
    let runner = RealNixOsRunner::new();
    assert!(runner.delete_generations(&answer(true, "", "removing generation 1")).is_ok());
    match runner.delete_generations(&answer(false, "", "error: locked")) {
        Err(LockError::ExternalCommand(text)) => {
            assert_eq!(text, "nix-env --delete-generations failed: error: locked")
        }
        other => panic!("unexpected outcome: {:?}", other),
    }
}

#[test]
fn what_is_written_for_deletion_reads_back() {
    let ids: Vec<u32> = vec![0, 5, 10, 4294967295, 123456];
    let chars: Vec<char> = join_numbers(&ids).chars().collect();
    let mut read = Vec::new();
    for word in chars.split(|c| *c == ' ') {
        read.push(lock_generations::text::parse_number(word).unwrap());
    }
    assert_eq!(read, ids);
}

#[test]
fn deleting_nothing_succeeds_without_a_run() {
    let runner = RealNixOsRunner::new();
    match runner.delete_generations_step(&[], None) {
        DeletionStep::Done(Ok(())) => {}
        other => panic!("unexpected step: {:?}", other),
    }
    // an answer that is handed in all the same changes nothing
    match runner.delete_generations_step(&[], Some(&answer(false, "", "error: locked"))) {
        DeletionStep::Done(Ok(())) => {}
        other => panic!("unexpected step: {:?}", other),
    }
}

#[test]
fn a_deletion_first_asks_for_a_run() {
    let runner = RealNixOsRunner::with_profile("/p".to_string());
    match runner.delete_generations_step(&[3, 10], None) {
        DeletionStep::Run(arguments) => {
            assert_eq!(arguments, vec!["--delete-generations", "3 10", "-p", "/p"])
        }
        other => panic!("unexpected step: {:?}", other),
    }
}

#[test]
fn a_deletion_ends_with_what_the_answer_means() {
    let runner = RealNixOsRunner::new();
    match runner.delete_generations_step(&[3, 10], Some(&answer(true, "", ""))) {
        DeletionStep::Done(Ok(())) => {}
        other => panic!("unexpected step: {:?}", other),
    }
    match runner.delete_generations_step(&[3], Some(&answer(false, "", "error: locked"))) {
        DeletionStep::Done(Err(LockError::ExternalCommand(text))) => {
            assert_eq!(text, "nix-env --delete-generations failed: error: locked")
        }
        other => panic!("unexpected step: {:?}", other),
    }
}
