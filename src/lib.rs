//! Coordination core of a bounded-concurrency, single-domain web crawler.
//!
//! The library holds the shared crawl state (frontier, visited set, active
//! and parsed counters), the decisions each worker takes on a fetched page,
//! and the race that bounds a fetch by a timeout. Threads, sockets and HTML
//! parsing stay with the caller.

pub mod text;
pub mod web_url;
pub mod outcome;
pub mod worker;
pub mod frontier;
pub mod links;
