//! Request payload for snapshot submissions.

use vstd::prelude::*;

verus! {

/// The body of a snapshot submission request, as the HTTP layer hands it
/// over: either field may be missing, which the caller must reject.
pub struct Payload {
    pub url: Option<String>,
    pub html: Option<String>,
}

/// The snapshot writer's duplicate test: fresh content that equals the
/// most recent stored content for the URL, byte for byte, must not be
/// stored again.
pub fn is_duplicate(last: Option<&String>, fresh: &str) -> (r: bool)
    ensures
        r <==> (last matches Some(s) && s@ == fresh@),
{
    match last {
        Some(s) => {
            let fresh_s: String = fresh.to_owned();
            *s == fresh_s
        },
        None => false,
    }
}

} // verus!
