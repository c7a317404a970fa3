# api

The core of a GraphQL API server backed by MongoDB, verified with Verus.

- `src/env.rs`: which environment files are loaded, in which order, and what
  the load comes to given what happened to each file (absent, loaded, failed).
- `src/db.rs`: the database settings read from environment values, including
  reading the port as a `u16`, and the errors reported when one is missing.
- `src/graphql.rs`, `src/users.rs`, `src/schema.rs`: the data types of the
  GraphQL schema, the API version and the answer to adding a user.
- `app/`: the server itself: reading the environment and the files, connecting
  to MongoDB, the GraphQL resolvers and the HTTP endpoints.
