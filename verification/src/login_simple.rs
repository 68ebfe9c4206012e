//! A login check with a single account.

use vstd::prelude::*;
use crate::text::{lowercase, same_text};

verus! {

/// Whether a user name, already in lowercase, and a password are those of
/// the one account there is.
pub open spec fn admits(lowered_username: Seq<char>, password: Seq<char>) -> bool {
    lowered_username == "admin"@ && password == "password"@
}

/// Checks a user name that is already in lowercase, and a password.
pub fn check_credentials(lowered_username: &str, password: &str) -> (granted: bool)
    ensures
        granted == admits(lowered_username@, password@),
{
    same_text(lowered_username, "admin") && same_text(password, "password")
}

/// Checks a login. The user name is matched without regard to case, the
/// password exactly.
pub fn login(username: &str, password: &str) -> (granted: bool)
    ensures
        granted == admits(lowercase(username@), password@),
{
    let lowered = username.to_lowercase();
    check_credentials(lowered.as_str(), password)
}

} // verus!
