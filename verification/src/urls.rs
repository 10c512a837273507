//! Request payload and crawl-bookkeeping metadata for tracked URLs.

use vstd::prelude::*;

verus! {

/// The body of a URL submission or deletion request, as the HTTP layer
/// hands it over: the URL may be missing, which the caller must reject.
pub struct Payload {
    pub url: Option<String>,
}

/// The free-form metadata kept on a URL row: the URL itself and the
/// advisory last-crawl stamp in milliseconds.
pub struct Content {
    pub url: Option<String>,
    pub crawled_at: Option<u64>,
}

/// Relies on `chrono::Utc::now` and `chrono::DateTime::timestamp_millis`:
/// the current wall-clock time in milliseconds.  Nothing is promised of
/// the value read.
#[verifier::external_body]
fn now_millis() -> u64 {
    chrono::Utc::now().timestamp_millis() as u64
}

impl Content {
    /// Fresh metadata for a URL that has not been crawled yet.
    pub fn from_url(url: &str) -> (r: Content)
        ensures
            r.url matches Some(u) && u@ == url@,
            r.crawled_at is None,
    {
        Content { url: Some(url.to_owned()), crawled_at: None }
    }

    /// Stamp the metadata with the current wall-clock time.
    pub fn set_timestamp(&mut self)
        ensures
            final(self).url == old(self).url,
            final(self).crawled_at is Some,
    {
        self.crawled_at = Some(now_millis());
    }
}

} // verus!
