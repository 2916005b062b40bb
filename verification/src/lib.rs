//! Web search and page-reading toolkit with a verified core.
//!
//! The crate models a small tool service: a search pipeline that turns
//! provider markup into structured results, a page-extraction pipeline that
//! turns fetched HTML into clean text, a keyed response cache with a
//! time-to-live policy, a retry classifier for the outbound HTTP layer, and
//! a request dispatcher for the surrounding protocol. Network transport is
//! left to the embedding application; everything that decides or computes
//! lives here, with contracts.

pub mod cache;
pub mod clock;
pub mod retry;
pub mod server;
pub mod text;
pub mod tools;
pub mod types;

use vstd::prelude::*;

verus! {

/// Name the server reports in the protocol handshake.
pub fn server_name() -> (r: String)
    ensures
        r@ == "daedra"@,
{
    String::from_str("daedra")
}

/// Version the server reports in the protocol handshake.
pub fn server_version() -> (r: String)
    ensures
        r@ == "0.1.0"@,
{
    String::from_str("0.1.0")
}

} // verus!
