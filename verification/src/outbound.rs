//! The platform's success convention for outbound calls.
//!
//! A channel post or delete succeeds only when the platform's response body
//! carries its success flag; the wire-level HTTP status alone is not enough.
//! The application makes the HTTP call and hands the body here.

use vstd::prelude::*;
use crate::text::{contains_chars, contains_seq, str_to_chars};

verus! {

/// True iff the platform response body asserts success: it contains the
/// literal marker `"ok":true`.
pub fn response_indicates_success(body: &str) -> (r: bool)
    ensures
        r == contains_seq(body@, "\"ok\":true"@),
{
    let b = str_to_chars(body);
    let marker = str_to_chars("\"ok\":true");
    contains_chars(&b, &marker)
}

} // verus!
