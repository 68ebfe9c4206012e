//! A login check that tells an administrator from a user.

use vstd::prelude::*;
use crate::text::{lowercase, same_text};

verus! {

/// What a login attempt leads to.
#[derive(Clone, Copy, Debug, PartialEq, Eq, Structural)]
pub enum LoginAction {
    Admin,
    User,
    Denied,
}

/// The action for a user name, already in lowercase, and a password.
pub open spec fn action_for(lowered_username: Seq<char>, password: Seq<char>) -> LoginAction {
    if lowered_username == "admin"@ && password == "password"@ {
        LoginAction::Admin
    } else if lowered_username == "bob"@ && password == "password"@ {
        LoginAction::User
    } else {
        LoginAction::Denied
    }
}

/// Decides on a user name that is already in lowercase, and a password.
pub fn decide(lowered_username: &str, password: &str) -> (action: LoginAction)
    ensures
        action == action_for(lowered_username@, password@),
{
    if same_text(lowered_username, "admin") && same_text(password, "password") {
        LoginAction::Admin
    } else if same_text(lowered_username, "bob") && same_text(password, "password") {
        LoginAction::User
    } else {
        LoginAction::Denied
    }
}

/// Decides on a login. The user name is matched without regard to case, the
/// password exactly.
pub fn login(username: &str, password: &str) -> (action: LoginAction)
    ensures
        action == action_for(lowercase(username@), password@),
{
    let lowered = username.to_lowercase();
    decide(lowered.as_str(), password)
}

} // verus!
