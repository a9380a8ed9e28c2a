//! Request authorization: a single static bearer token.
//!
//! The gateway reads the authorization header and asks this module whether
//! the caller may proceed; a request without the header, or with any value
//! other than the configured key, is refused.

use vstd::prelude::*;

verus! {

/// Whether a request carrying `header` (the authorization header, if any)
/// may proceed under the configured key: exactly when the header is present
/// and equals the key.
pub fn is_authorized(header: Option<&String>, api_key: &String) -> (r: bool)
    ensures
        r == (header matches Some(h) && h@ == api_key@),
{
    match header {
        Some(h) => *h == *api_key,
        None => false,
    }
}

} // verus!
