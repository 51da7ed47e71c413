//! A user record and its builder.

use vstd::prelude::*;

verus! {

/// An account: whether it is active, its names, and how often it signed in.
pub struct User {
    pub active: bool,
    pub username: String,
    pub email: String,
    pub sign_in_count: u64,
}

/// A fresh active account with the given names and one sign-in.
pub fn build_user(email: String, username: String) -> (user: User)
    ensures
        user.email == email,
        user.username == username,
        user.active == true,
        user.sign_in_count == 1,
{
    User { email, username, active: true, sign_in_count: 1 }
}

} // verus!
