//! Server-side logic of a route-guide service: a static set of named
//! geographic features, point lookup, range queries, route aggregation,
//! and a location-keyed note relay.

pub mod server;
pub mod types;
pub mod util;
