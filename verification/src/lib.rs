//! Crawl-queue and snapshot bookkeeping for a URL gateway.
//!
//! The library models the gateway's content store: a table of tracked URLs
//! and an append-only table of content snapshots.  It verifies the three
//! decisions the gateway makes — which URL to crawl next, whether a freshly
//! fetched body is new content or a duplicate of the latest snapshot, and how
//! the URL row is linked to its newest snapshot — together with the store's
//! invariants (unique URLs, valid snapshot references, no two consecutive
//! identical snapshots for one URL).

use vstd::prelude::*;

pub mod embeddings;
pub mod laws;
pub mod model;
pub mod snapshots;
pub mod store;
pub mod urls;

verus! {

/// Whether `url::Url::parse` either accepts the string or rejects it merely
/// as relative.  Names the outcome of the outside parser; its value on a
/// given string is fixed by the parser alone.
pub uninterp spec fn url_wellformed(s: Seq<char>) -> bool;

/// Whether `url::Url::parse` accepts the string as an absolute URL that has
/// a host component.  Names the outcome of the outside parser.
pub uninterp spec fn url_absolute_with_host(s: Seq<char>) -> bool;

/// The URL string was rejected by the parser for a reason other than being
/// relative (for example, an empty host after a scheme).
#[derive(Clone, Copy, Debug, PartialEq, Eq, Structural)]
pub struct UrlParseFault;

/// Relies on `url::Url::parse` and `url::Url::has_host`: `Ok(true)` exactly
/// for absolute URLs with a host, `Ok(false)` for relative URLs, and an error
/// for every other parse failure.
#[verifier::external_body]
pub fn validate_url(url: &str) -> (r: Result<bool, UrlParseFault>)
    ensures
        r is Ok <==> url_wellformed(url@),
        r matches Ok(b) ==> (b <==> url_absolute_with_host(url@)),
        r is Err ==> !url_absolute_with_host(url@),
{
    match url::Url::parse(url) {
        Ok(u) => Ok(u.has_host()),
        Err(url::ParseError::RelativeUrlWithoutBase) => Ok(false),
        Err(_) => Err(UrlParseFault),
    }
}

} // verus!
