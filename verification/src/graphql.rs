use vstd::prelude::*;

use crate::db::DbPool;
use crate::users::{Mutation, Query, Subscription};

verus! {

/// The root of all queries: the base query and the user queries.
pub struct QueryRoot(pub BaseQuery, pub Query);

/// The root of all mutations: the user mutations.
pub struct MutationRoot(pub Mutation);

/// The root of all subscriptions: the user subscriptions.
pub struct SubscriptionRoot(pub Subscription);

/// What every resolver can reach: the database pool.
pub struct Context {
    pub pool: DbPool,
}

/// The query every API offers, whatever its domain.
pub struct BaseQuery;

/// The mutation through which the rest of the system publishes data to
/// subscribers.
pub struct PublishMutation;

/// The version of this API.
pub open spec fn spec_api_version() -> Seq<char> {
    "v0.1.0"@
}

impl BaseQuery {
    /// The version of this API, so that clients know what they talk to.
    pub fn api_version(&self) -> (v: String)
        ensures
            v@ == spec_api_version(),
    {
        String::from_str("v0.1.0")
    }
}

} // verus!
