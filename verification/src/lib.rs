//! Domain reconnaissance aggregation engine.
//!
//! The library holds the verified core of a domain reconnaissance tool:
//! the proxy/CDN heuristic over resolved addresses, the CNAME chain walk
//! with its cycle guard, normalization of the records that the historical
//! data sources return, the retry policy for the flaky certificate log,
//! credential gating, and the assembly of the final report. Network and
//! file I/O live outside the library and hand it plain values.

pub mod chain;
pub mod dns_records;
pub mod errors;
pub mod heuristics;
pub mod normalize;
pub mod order;
pub mod records;
pub mod report;
pub mod retry;
pub mod sources;
pub mod text;

use vstd::prelude::*;

verus! {

/// The immutable query a single run works on: the target domain, the
/// optional credentials for the two historical sources, and where the
/// report should go.
pub struct CliArgs {
    pub av_api_key: Option<String>,
    pub st_api_key: Option<String>,
    pub domain: String,
    pub save: bool,
    pub file_name: String,
}

} // verus!
