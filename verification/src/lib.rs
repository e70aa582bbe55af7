//! A verified core for a same-domain web crawler.
//!
//! Starting from one seed URL, the crawler walks the pages of the seed's
//! domain in synchronous rounds and returns the set of distinct in-domain
//! URLs it discovered, capped by a configured limit.  The round driver, the
//! claim-and-visit bookkeeping, the domain scope checks and the result
//! packaging live here and are verified; network transport, the result
//! cache and the HTTP front end are external collaborators.

pub mod config;
pub mod crawler;
pub mod domain;
pub mod error;
pub mod json;
pub mod parsing;
pub mod urls;
