# rbac

Role-based access control for a SQL database, verified with Verus: which roles a user must be a
member of, which objects they must own and which privileges they and others must have before a
plan is executed, and what users are told when they may not.

- `src/` is the library. `check.rs` decides whether a session may execute a plan; `membership.rs`,
  `ownership.rs`, `reads.rs`, `usage.rs` and `privileges.rs` say what plans take; `session.rs`
  decides on commands; `server.rs` decides what a server does with a connection before a session
  starts. `laws.rs`, `read_laws.rs` and `privilege_laws.rs` state what holds across functions.
- `app/` is the edge: connections, TLS and error types.
- `tests/` runs the library on examples.

A catalog, a plan or an expression is held as far as access control depends on it. Where a catalog
does not know an object that is looked up for a plan, `try_check_plan` returns `None`; `check_plan`
asks of its callers that this is not so.
