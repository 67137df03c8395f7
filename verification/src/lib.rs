//! Cache-aside ingestion of daily closing prices.
//!
//! The crate holds the decisions of a price cache: which store command to
//! issue next, how a provider payload becomes price points, and what a
//! table of price points answers. Network and storage calls are left to the
//! caller, who performs each action the library asks for and reports the
//! outcome back.
//!
//! - [`model`]: quotes, price points and fetch windows.
//! - [`error`]: the failures of the store, the provider and the resolver.
//! - [`store`]: the store's commands, their statements, and the decoding of
//!   rows.
//! - [`provider`]: the provider's address, its statuses, and the
//!   normalization of its series.
//! - [`table`]: a table of price points in memory.
//! - [`resolver`]: the cache-aside resolver, step by step.
//! - [`worker`]: the prefetch worker, step by step, and its seed.
//! - [`run`]: whole runs of resolver and worker over a store in memory.
//! - [`surface`]: what a request for history asks and what a client is
//!   told.
//! - [`auth`]: tokens that name a user.

pub mod auth;
pub mod error;
pub mod model;
pub mod provider;
pub mod resolver;
pub mod run;
pub mod store;
pub mod surface;
pub mod table;
pub mod worker;
