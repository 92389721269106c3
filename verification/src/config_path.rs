//! Where the protection store lies.
//!
//! The store is the file `lock-generations/protected.json` in the operator's
//! configuration directory. That directory is, in this order: the one that
//! `XDG_CONFIG_HOME` names; `.config` in the home of the user on whose behalf
//! the process runs with raised privileges; `.config` in the home of the
//! invoking user, taken from `HOME` or else from the user database.
//!
//! The values of the environment are handed in by the caller. The user
//! database is asked here.

use crate::error::LockError;
use crate::text::chars_of;
use users::os::unix::UserExt;
use vstd::prelude::*;
use vstd::string::StringExecFns;

verus! {

/// An entry of the user database. Nothing of it is visible here; it is only
/// handed from the look-up to `home_dir_of`.
#[verifier::external_type_specification]
#[verifier::external_body]
pub struct ExUser(users::User);

/// Looks up the user named `name` with `users::get_user_by_name`. The answer
/// depends on the system, so nothing is claimed about it.
#[verifier::external_body]
fn user_by_name(name: &str) -> Option<users::User> {
    users::get_user_by_name(name)
}

/// The user id of the process, from `users::get_current_uid`. The answer
/// depends on the system, so nothing is claimed about it.
#[verifier::external_body]
fn current_uid() -> u32 {
    users::get_current_uid()
}

/// Looks up the user with the id `uid` with `users::get_user_by_uid`. The
/// answer depends on the system, so nothing is claimed about it.
#[verifier::external_body]
fn user_by_uid(uid: u32) -> Option<users::User> {
    users::get_user_by_uid(uid)
}

/// The home directory of `user`, from `UserExt::home_dir`, as text. Bytes that
/// are not valid UTF-8 become the replacement character. The answer depends on
/// the entry, which is opaque here, so nothing is claimed about it.
#[verifier::external_body]
fn home_dir_of(user: &users::User) -> String {
    user.home_dir().to_string_lossy().into_owned()
}

/// The path `base` with `name` below it: a separator stands between them
/// unless `base` is empty or ends with one. `name` is a plain relative name.
pub open spec fn joined_path(base: Seq<char>, name: Seq<char>) -> Seq<char> {
    if base.len() == 0 || base.last() == '/' {
        base + name
    } else {
        base + seq!['/'] + name
    }
}

/// The protection store in the configuration directory `config_dir`.
pub open spec fn store_in(config_dir: Seq<char>) -> Seq<char> {
    joined_path(joined_path(config_dir, "lock-generations"@), "protected.json"@)
}

/// The protection store of the user whose home directory is `home`.
pub open spec fn store_under_home(home: Seq<char>) -> Seq<char> {
    store_in(joined_path(home, ".config"@))
}

/// The home directory of the invoking user: the one from the environment,
/// else the one from the user database.
pub open spec fn invoking_home_from(
    env_home: Option<Seq<char>>,
    account_home: Option<Seq<char>>,
) -> Option<Seq<char>> {
    if env_home is Some {
        env_home
    } else {
        account_home
    }
}

/// The place of the protection store. It lies in the configuration directory
/// `xdg_config_home` where one is given; else below `target_home`, the home of
/// the user on whose behalf the process runs with raised privileges; else
/// below `invoking_home`, the home of the invoking user. `None` when all three
/// are missing.
pub open spec fn resolved_store(
    xdg_config_home: Option<Seq<char>>,
    target_home: Option<Seq<char>>,
    invoking_home: Option<Seq<char>>,
) -> Option<Seq<char>> {
    match xdg_config_home {
        Some(config_dir) => Some(store_in(config_dir)),
        None => match target_home {
            Some(home) => Some(store_under_home(home)),
            None => match invoking_home {
                Some(home) => Some(store_under_home(home)),
                None => None,
            },
        },
    }
}

/// Whether `path` is the outcome that belongs to the place `store`: the place
/// itself, or the failure to resolve a configuration directory when there is
/// none.
pub open spec fn is_outcome_of(path: Result<String, LockError>, store: Option<Seq<char>>) -> bool {
    match path {
        Ok(path) => store == Some(path@),
        Err(error) => store is None && error == LockError::ConfigResolution,
    }
}

/// The text of `value`, if there is one.
pub open spec fn text_of(value: Option<String>) -> Option<Seq<char>> {
    match value {
        Some(text) => Some(text@),
        None => None,
    }
}

/// The path `base` with `name` below it.
pub fn join_path(base: &str, name: &str) -> (path: String)
    ensures
        path@ == joined_path(base@, name@),
{
    let chars = chars_of(base);
    let len = chars.len();
    let path = String::from_str(base);
    if len == 0 || chars[len - 1] == '/' {
        path.concat(name)
    } else {
        proof {
            reveal_strlit("/");
            assert("/"@ =~= seq!['/']);
        }
        path.concat("/").concat(name)
    }
}

/// The protection store in the configuration directory `config_dir`.
pub fn store_path_in(config_dir: &str) -> (path: String)
    ensures
        path@ == store_in(config_dir@),
{
    let dir = join_path(config_dir, "lock-generations");
    join_path(dir.as_str(), "protected.json")
}

/// The protection store of the user whose home directory is `home`.
pub fn store_path_under_home(home: &str) -> (path: String)
    ensures
        path@ == store_under_home(home@),
{
    let config_dir = join_path(home, ".config");
    store_path_in(config_dir.as_str())
}

/// Decides where the protection store lies, given every home directory that
/// it can depend on.
///
/// A configuration directory in `xdg_config_home` decides alone. Else the
/// store lies below `target_home`, the home of the user on whose behalf the
/// process runs with raised privileges, and without one below `invoking_home`,
/// the home of the invoking user. The store cannot be placed only when all
/// three are missing.
pub fn store_path_from(
    xdg_config_home: Option<String>,
    target_home: Option<String>,
    invoking_home: Option<String>,
) -> (path: Result<String, LockError>)
    ensures
        is_outcome_of(
            path,
            resolved_store(
                text_of(xdg_config_home),
                text_of(target_home),
                text_of(invoking_home),
            ),
        ),
{
    match xdg_config_home {
        Some(config_dir) => Ok(store_path_in(config_dir.as_str())),
        None => {
            let home = match target_home {
                Some(home) => Some(home),
                None => invoking_home,
            };
            match home {
                Some(home) => Ok(store_path_under_home(home.as_str())),
                None => Err(LockError::ConfigResolution),
            }
        },
    }
}

/// Who the tool works for: the source of the home directories that place the
/// protection store.
///
/// The answers depend on the system, so the library promises nothing about
/// them; it states what it does with each answer. An implementation other
/// than `SystemIdentity` can stand in for the system where that is wanted.
pub trait IdentityResolver {
    /// The home of the user on whose behalf the process runs with raised
    /// privileges. `None` when there is no such user or it is not known.
    fn effective_target_home(&self) -> Option<String>;

    /// The home of the user who invoked the process. `None` when it cannot
    /// be found.
    fn invoking_home(&self) -> Option<String>;
}

/// The identities of the running system: what the environment says, completed
/// by the user database.
#[derive(Debug)]
pub struct SystemIdentity {
    /// The value of `SUDO_USER`, `None` when unset.
    pub sudo_user: Option<String>,
    /// The value of `HOME`, `None` when unset.
    pub env_home: Option<String>,
}

impl IdentityResolver for SystemIdentity {
    /// The home that the user database holds for the user that `SUDO_USER`
    /// names: `None` without `SUDO_USER`, else as `is_home_of_user_named` says.
    fn effective_target_home(&self) -> (home: Option<String>)
        ensures
            self.sudo_user is None ==> home is None,
            self.sudo_user matches Some(name) ==> is_home_of_user_named(name@, home),
    {
        match &self.sudo_user {
            Some(name) => match user_by_name(name.as_str()) {
                Some(user) => Some(home_dir_of(&user)),
                None => None,
            },
            None => None,
        }
    }

    /// The value of `HOME`; without it, the home that the user database holds
    /// for the process's own user, as `is_home_of_process_user` says, and
    /// `None` when it holds none.
    fn invoking_home(&self) -> (home: Option<String>)
        ensures
            self.env_home matches Some(value) ==> home is Some && home->0@ == value@,
            self.env_home is None ==> is_home_of_process_user(
                match home {
                    Some(text) => Ok(text),
                    None => Err(LockError::ConfigResolution),
                },
            ),
    {
        match get_current_user_home(self.env_home.clone()) {
            Ok(home) => Some(home),
            Err(_) => None,
        }
    }
}

/// Whether `home` is what the user database answers for the user named
/// `name`: the database is asked for the user of exactly that name, and `home`
/// is the home directory of the entry it finds, or `None` when it finds none.
/// The look-ups are those of `SystemIdentity`; what they answer depends on the
/// system.
pub closed spec fn is_home_of_user_named(name: Seq<char>, home: Option<String>) -> bool {
    exists|asked: &str, found: Option<users::User>|
        {
            &&& asked@ == name
            &&& #[trigger] call_ensures(user_by_name, (asked,), found)
            &&& match found {
                Some(user) => home matches Some(text) && call_ensures(
                    home_dir_of,
                    (&user,),
                    text,
                ),
                None => home is None,
            }
        }
}

/// Whether `home` is what the user database answers for the user of the
/// process: the database is asked for the user with exactly the id of the
/// process, and `home` is the home directory of the entry it finds, or the
/// failure to resolve a configuration directory when it finds none. Nothing
/// stands in for a missing entry. What the look-ups answer depends on the
/// system.
pub closed spec fn is_home_of_process_user(home: Result<String, LockError>) -> bool {
    exists|uid: u32, found: Option<users::User>|
        {
            &&& call_ensures(current_uid, (), uid)
            &&& #[trigger] call_ensures(user_by_uid, (uid,), found)
            &&& match found {
                Some(user) => home matches Ok(text) && call_ensures(
                    home_dir_of,
                    (&user,),
                    text,
                ),
                None => home matches Err(error) && error == LockError::ConfigResolution,
            }
        }
}

/// The home directory of the invoking user: `env_home`, the value of `HOME`,
/// where it is set; else what the user database holds for the process's user.
///
/// With `HOME` set the result is that value, and the user database is not
/// asked. Without it the result is what `is_home_of_process_user` says: the
/// home of the entry that the database holds for the id of the process, and
/// the failure to resolve a configuration directory exactly when it holds
/// none.
pub fn get_current_user_home(env_home: Option<String>) -> (home: Result<String, LockError>)
    ensures
        match home {
            Ok(home) => env_home matches Some(value) ==> home@ == value@,
            Err(error) => env_home is None && error == LockError::ConfigResolution,
        },
        env_home is None ==> is_home_of_process_user(home),
{
    match env_home {
        Some(home) => Ok(home),
        None => match user_by_uid(current_uid()) {
            Some(user) => Ok(home_dir_of(&user)),
            None => Err(LockError::ConfigResolution),
        },
    }
}

/// Places the protection store for the identities that `identity` reports.
///
/// A configuration directory in `xdg_config_home` decides alone, and
/// `identity` is not asked. Without one, `identity` is asked for the home of
/// the user on whose behalf the process runs, and only if there is none for
/// the home of the invoking user. The result is what `store_path_from` gives
/// for these answers.
pub fn config_path_for<I: IdentityResolver>(
    xdg_config_home: Option<String>,
    identity: &I,
) -> (path: Result<String, LockError>)
    ensures
        xdg_config_home is Some ==> is_outcome_of(
            path,
            resolved_store(text_of(xdg_config_home), None, None),
        ),
        xdg_config_home is None ==> exists|target: Option<String>, invoking: Option<String>|
            {
                &&& call_ensures(I::effective_target_home, (identity,), target)
                &&& target is None ==> call_ensures(I::invoking_home, (identity,), invoking)
                &&& is_outcome_of(
                    path,
                    #[trigger] resolved_store(None, text_of(target), text_of(invoking)),
                )
            },
{
    if xdg_config_home.is_some() {
        return store_path_from(xdg_config_home, None, None);
    }
    let target = identity.effective_target_home();
    let invoking = if target.is_none() {
        identity.invoking_home()
    } else {
        None
    };
    let path = store_path_from(None, target, invoking);
    assert(is_outcome_of(path, resolved_store(None, text_of(target), text_of(invoking))));
    path
}

/// Where the protection store lies by default.
///
/// `xdg_config_home`, `sudo_user` and `env_home` are the values of
/// `XDG_CONFIG_HOME`, `SUDO_USER` and `HOME`, each `None` when unset. The user
/// database is asked only where the answer is needed: for the user that
/// `sudo_user` names when no configuration directory is given, and for the
/// process's own user when that gives no home and `HOME` is unset.
///
/// The result is the place that belongs to these values and to the answers of
/// the user database: without a configuration directory it is what
/// `store_path_from` gives for the homes that a `SystemIdentity` of
/// `sudo_user` and `env_home` reports. Where the environment alone decides,
/// the result is fixed: with `XDG_CONFIG_HOME` set, and with `HOME` set while
/// `SUDO_USER` is not. It is a failure only when neither `XDG_CONFIG_HOME` nor
/// `HOME` is set.
pub fn default_config_path(
    xdg_config_home: Option<String>,
    sudo_user: Option<String>,
    env_home: Option<String>,
) -> (path: Result<String, LockError>)
    ensures
        exists|sudo_home: Option<Seq<char>>, account_home: Option<Seq<char>>|
            (sudo_user is None ==> sudo_home is None) && is_outcome_of(
                path,
                #[trigger] resolved_store(
                    text_of(xdg_config_home),
                    sudo_home,
                    invoking_home_from(text_of(env_home), account_home),
                ),
            ),
        xdg_config_home matches Some(config_dir) ==> path is Ok && path->Ok_0@ == store_in(
            config_dir@,
        ),
        xdg_config_home is None && sudo_user is None ==> (env_home matches Some(home) ==> path
            is Ok && path->Ok_0@ == store_under_home(home@)),
        path is Err ==> xdg_config_home is None && env_home is None,
        xdg_config_home is None ==> exists|target: Option<String>, invoking: Option<String>|
            {
                &&& call_ensures(
                    SystemIdentity::effective_target_home,
                    (&(SystemIdentity { sudo_user, env_home }),),
                    target,
                )
                &&& target is None ==> call_ensures(
                    SystemIdentity::invoking_home,
                    (&(SystemIdentity { sudo_user, env_home }),),
                    invoking,
                )
                &&& is_outcome_of(
                    path,
                    #[trigger] resolved_store(None, text_of(target), text_of(invoking)),
                )
            },
{
    let identity = SystemIdentity { sudo_user, env_home };
    let path = config_path_for(xdg_config_home, &identity);
    proof {
        if xdg_config_home is Some {
            assert(is_outcome_of(
                path,
                resolved_store(
                    text_of(xdg_config_home),
                    None,
                    invoking_home_from(text_of(env_home), None),
                ),
            ));
        } else {
            let (target, invoking) = choose|target: Option<String>, invoking: Option<String>|
                {
                    &&& call_ensures(
                        SystemIdentity::effective_target_home,
                        (&identity,),
                        target,
                    )
                    &&& target is None ==> call_ensures(
                        SystemIdentity::invoking_home,
                        (&identity,),
                        invoking,
                    )
                    &&& is_outcome_of(
                        path,
                        #[trigger] resolved_store(None, text_of(target), text_of(invoking)),
                    )
                };
            if target is Some {
                assert(is_outcome_of(
                    path,
                    resolved_store(
                        None,
                        text_of(target),
                        invoking_home_from(text_of(env_home), None),
                    ),
                ));
            } else {
                assert(is_outcome_of(
                    path,
                    resolved_store(
                        None,
                        None,
                        invoking_home_from(text_of(env_home), text_of(invoking)),
                    ),
                ));
            }
        }
    }
    path
}

} // verus!
