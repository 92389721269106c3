use lock_generations::error::LockError;

#[test]
fn messages_name_the_failure() {
    assert_eq!(LockError::ConfigResolution.message(), "Could not determine home directory");
    assert_eq!(
        LockError::CurrentGenerationNotFound.message(),
        "Could not determine current generation"
    );
}

#[test]
fn outside_text_is_handed_on_as_it_is() {
    assert_eq!(LockError::ExternalCommand("error: x\n".to_string()).message(), "error: x\n");
    assert_eq!(LockError::StateIo("Failed to read config file: /x".to_string()).message(),
        "Failed to read config file: /x");
    assert_eq!(LockError::ExternalCommand(String::new()).message(), "");
}
