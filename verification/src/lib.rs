//! Access control and abuse throttling for a token-authenticated ban list
//! service.
//!
//! The service keeps two kinds of records: API tokens, each bound to a
//! permission tier and an owner, and bans, each a user identifier with a
//! reason. This library holds what the service decides: who a request acts
//! as, what that token may do, how often it may ask for the whole list, and
//! what creating, revoking, writing and deleting do to the records.
//!
//! - `guards`: the permission tiers, the guard that resolves a bearer secret
//!   to a token, and the antiflood limiter.
//! - `tables`: the content of the store as mathematical values, with the
//!   invariant of the data model and the laws of the lifecycle operations.
//! - `database`: the records, and a store that holds the tables in memory.
//! - `routes`: one function per route, from what the transport read out of a
//!   request to a response or an error.
//! - `errors` and `response`: the error kinds with their HTTP status, and
//!   the answers of the routes.
//! - `utils`: the `Authorization` header and the clock.
//! - `decimal`: numeric ids, read from a path and written to a list.
//! - `settings`: the configuration, as an explicit value.
//!
//! A program that serves the routes over HTTP and keeps the tables in a
//! database makes each decision by a call into this library, and reads,
//! writes and sends in between.

pub mod database;
pub mod decimal;
pub mod errors;
pub mod guards;
pub mod response;
pub mod routes;
pub mod settings;
pub mod tables;
pub mod utils;
