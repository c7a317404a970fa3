//! Verified core of a GraphQL API server backed by MongoDB: which environment
//! files are loaded and how a failure is reported, how the database settings
//! are read from environment values, and the plain data types that the
//! GraphQL schema exposes.

pub mod db;
pub mod env;
pub mod graphql;
pub mod schema;
pub mod users;

pub use db::{db_settings_from_env, parse_port, DbPool, DbSettings, DbSettingsError};
pub use env::{env_files, load_env, load_env_file_if_present, EnvFileOutcome, EnvStep};
pub use graphql::{BaseQuery, Context, MutationRoot, PublishMutation, QueryRoot, SubscriptionRoot};
