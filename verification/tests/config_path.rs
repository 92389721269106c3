use lock_generations::config_path::{
    config_path_for, default_config_path, get_current_user_home, join_path, store_path_from,
    store_path_in, store_path_under_home, IdentityResolver, SystemIdentity,
};
use lock_generations::error::LockError;
use std::path::PathBuf;
use users::os::unix::UserExt;

use std::cell::Cell;

fn text(value: &str) -> Option<String> {
    Some(value.to_string())
}

/// Identities that are given, with a count of the questions asked.
struct GivenIdentity {
    target: Option<String>,
    invoking: Option<String>,
    asked: Cell<u32>,
}

impl GivenIdentity {
    fn new(target: Option<&str>, invoking: Option<&str>) -> Self {
        GivenIdentity {
            target: target.map(str::to_string),
            invoking: invoking.map(str::to_string),
            asked: Cell::new(0),
        }
    }
}

impl IdentityResolver for GivenIdentity {
    fn effective_target_home(&self) -> Option<String> {
        self.asked.set(self.asked.get() + 1);
        self.target.clone()
    }

    fn invoking_home(&self) -> Option<String> {
        self.asked.set(self.asked.get() + 10);
        self.invoking.clone()
    }
}

#[test]
fn a_configuration_directory_needs_no_identity() {
    let identity = GivenIdentity::new(Some("/home/t"), Some("/home/i"));
    let path = config_path_for(text("/cfg"), &identity);
    assert_eq!(path.unwrap(), "/cfg/lock-generations/protected.json");
    assert_eq!(identity.asked.get(), 0);
}

#[test]
fn the_target_identity_comes_before_the_invoking_one() {
    let identity = GivenIdentity::new(Some("/home/t"), Some("/home/i"));
    let path = config_path_for(None, &identity);
    assert_eq!(path.unwrap(), "/home/t/.config/lock-generations/protected.json");
    assert_eq!(identity.asked.get(), 1);
}

#[test]
fn the_invoking_identity_is_asked_when_there_is_no_target() {
    let identity = GivenIdentity::new(None, Some("/home/i"));
    let path = config_path_for(None, &identity);
    assert_eq!(path.unwrap(), "/home/i/.config/lock-generations/protected.json");
    assert_eq!(identity.asked.get(), 11);
}

#[test]
fn without_any_identity_the_store_cannot_be_placed() {
    let identity = GivenIdentity::new(None, None);
    match config_path_for(None, &identity) {
        Err(LockError::ConfigResolution) => {}
        other => panic!("unexpected outcome: {:?}", other),
    }
}

#[test]
fn the_system_identity_takes_home_from_the_environment() {
    let identity = SystemIdentity { sudo_user: None, env_home: text("/home/me") };
    assert_eq!(identity.effective_target_home(), None);
    assert_eq!(identity.invoking_home(), text("/home/me"));
    let path = config_path_for(None, &identity);
    assert_eq!(path.unwrap(), "/home/me/.config/lock-generations/protected.json");
}

#[test]
fn the_system_identity_asks_the_user_database_for_the_named_user() {
    let me = users::get_user_by_uid(users::get_current_uid());
    if let Some(me) = me {
        let name = me.name().to_str().unwrap().to_string();
        let identity = SystemIdentity { sudo_user: Some(name), env_home: None };
        let expected = me.home_dir().to_string_lossy().into_owned();
        assert_eq!(identity.effective_target_home(), Some(expected));
    }
    let unknown = SystemIdentity { sudo_user: text("no-such-user-\u{0}-here"), env_home: None };
    assert_eq!(unknown.effective_target_home(), None);
}

#[test]
fn join_path_puts_one_separator_between() {
    assert_eq!(join_path("/home/u", ".config"), "/home/u/.config");
    assert_eq!(join_path("/home/u/", ".config"), "/home/u/.config");
    assert_eq!(join_path("/", "etc"), "/etc");
    assert_eq!(join_path("", "etc"), "etc");
    assert_eq!(join_path("a//", "b"), "a//b");
    assert_eq!(join_path("rel", "b"), "rel/b");
    assert_eq!(join_path("/h\u{e9}/\u{1F600}", "b"), "/h\u{e9}/\u{1F600}/b");
}

#[test]
fn join_path_agrees_with_the_standard_library() {
    for base in ["/home/u", "/home/u/", "/", "", "a//", "rel", "/x/./y", "~"] {
        for name in [".config", "lock-generations", "protected.json"] {
            let expected = PathBuf::from(base).join(name);
            assert_eq!(PathBuf::from(join_path(base, name)), expected);
            assert_eq!(join_path(base, name), expected.to_str().unwrap());
        }
    }
}

#[test]
fn the_store_lies_in_the_configuration_directory() {
    assert_eq!(store_path_in("/cfg"), "/cfg/lock-generations/protected.json");
    assert_eq!(store_path_in("/cfg/"), "/cfg/lock-generations/protected.json");
    assert_eq!(store_path_in(""), "lock-generations/protected.json");
    assert_eq!(
        store_path_under_home("/home/u"),
        "/home/u/.config/lock-generations/protected.json"
    );
    assert_eq!(store_path_under_home("/"), "/.config/lock-generations/protected.json");
}

#[test]
fn the_configuration_directory_comes_first() {
    let path = store_path_from(text("/cfg"), text("/home/t"), text("/home/i"));
    assert_eq!(path.unwrap(), "/cfg/lock-generations/protected.json");
    let path = store_path_from(text("/cfg"), None, None);
    assert_eq!(path.unwrap(), "/cfg/lock-generations/protected.json");
}

#[test]
fn then_the_home_of_the_user_behind_raised_privileges() {
    let path = store_path_from(None, text("/home/t"), text("/home/i"));
    assert_eq!(path.unwrap(), "/home/t/.config/lock-generations/protected.json");
    let path = store_path_from(None, text("/home/t"), None);
    assert_eq!(path.unwrap(), "/home/t/.config/lock-generations/protected.json");
}

#[test]
fn then_the_home_of_the_invoking_user() {
    let path = store_path_from(None, None, text("/home/i"));
    assert_eq!(path.unwrap(), "/home/i/.config/lock-generations/protected.json");
}

#[test]
fn without_any_home_the_store_cannot_be_placed() {
    match store_path_from(None, None, None) {
        Err(LockError::ConfigResolution) => {}
        other => panic!("unexpected outcome: {:?}", other),
    }
    assert_eq!(
        store_path_from(None, None, None).unwrap_err().message(),
        "Could not determine home directory"
    );
}

#[test]
fn default_path_takes_the_configuration_directory_as_it_is() {
    let path = default_config_path(text("/tmp/xdg"), text("nobody-of-that-name"), text("/h"));
    assert_eq!(path.unwrap(), "/tmp/xdg/lock-generations/protected.json");
    let path = default_config_path(text(""), None, None);
    assert_eq!(path.unwrap(), "lock-generations/protected.json");
}

#[test]
fn default_path_takes_home_when_no_other_user_is_named() {
    let path = default_config_path(None, None, text("/home/me"));
    assert_eq!(path.unwrap(), "/home/me/.config/lock-generations/protected.json");
}

#[test]
fn default_path_falls_back_when_the_named_user_is_unknown() {
    let name = "no-such-user-\u{0}-here";
    assert!(users::get_user_by_name(name).is_none());
    let path = default_config_path(None, text(name), text("/home/me"));
    assert_eq!(path.unwrap(), "/home/me/.config/lock-generations/protected.json");
}

#[test]
fn default_path_takes_the_home_of_the_named_user() {
    // whoever runs the test is a user that the database may know
    let me = users::get_user_by_uid(users::get_current_uid());
    if let Some(me) = me {
        let name = me.name().to_str().unwrap().to_string();
        let home = me.home_dir().to_string_lossy().into_owned();
        let path = default_config_path(None, Some(name), text("/home/other"));
        assert_eq!(path.unwrap(), store_path_under_home(&home));
    }
}

#[test]
fn current_user_home_prefers_the_environment() {
    assert_eq!(get_current_user_home(text("/home/me")).unwrap(), "/home/me");
    assert_eq!(get_current_user_home(text("")).unwrap(), "");
}

#[test]
fn current_user_home_asks_the_user_database() {
    let expected = users::get_user_by_uid(users::get_current_uid())
        .map(|user| user.home_dir().to_string_lossy().into_owned());
    match (get_current_user_home(None), expected) {
        (Ok(home), Some(expected)) => assert_eq!(home, expected),
        (Err(LockError::ConfigResolution), None) => {}
        (outcome, expected) => panic!("unexpected outcome: {:?}, expected {:?}", outcome, expected),
    }
    let by_default = default_config_path(None, None, None);
    match get_current_user_home(None) {
        Ok(home) => assert_eq!(by_default.unwrap(), store_path_under_home(&home)),
        Err(_) => assert!(by_default.is_err()),
    }
}
