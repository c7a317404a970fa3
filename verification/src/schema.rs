use vstd::prelude::*;

verus! {

/// A user as stored in the `users` collection of the `test` database.
pub struct User {
    pub username: String,
    pub full_name: Option<String>,
    pub password: String,
}

} // verus!
