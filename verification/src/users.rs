use vstd::prelude::*;

verus! {

/// The identifier MongoDB gives a stored document: twelve bytes.
pub struct ObjectId {
    pub bytes: [u8; 12],
}

/// A stored user, with the identifier of its document.
pub struct User {
    pub id: ObjectId,
    pub username: String,
    pub full_name: Option<String>,
    pub password: String,
}

/// What a client sends to create a user.
pub struct UserInput {
    pub username: String,
    pub full_name: Option<String>,
    pub password: String,
}

/// The user queries of the schema.
pub struct Query {}

/// The user mutations of the schema.
pub struct Mutation {}

/// The user subscriptions of the schema.
pub struct Subscription {}

/// The report when a user that was just inserted cannot be read back.
pub open spec fn spec_inserted_missing_message() -> Seq<char> {
    "Couldn't find inserted field"@
}

impl Mutation {
    /// The answer to adding a user, from the document that was read back by
    /// the identifier the insertion returned: that user, or an error when
    /// nothing was found.
    pub fn inserted_user(found: Option<User>) -> (res: Result<User, String>)
        ensures
            match found {
                Some(u) => res == Ok::<User, String>(u),
                None => res matches Err(m) && m@ == spec_inserted_missing_message(),
            },
    {
        match found {
            Some(u) => Ok(u),
            None => Err(String::from_str("Couldn't find inserted field")),
        }
    }
}

} // verus!
