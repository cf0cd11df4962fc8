//! Question selection from the content API's two response shapes.
//!
//! The upstream API answers either with a batch envelope (`{questions:
//! [...]}`) or with a single bare question object.  The application performs
//! the HTTP call and the two parse attempts and hands both outcomes here; the
//! ordered fallback, the empty-batch rejection and the uniformly random pick
//! are decided and verified in this module.

use vstd::prelude::*;
use crate::models::SATQuestion;

verus! {

/// Why no question could be obtained.
#[derive(Debug)]
pub enum FetchError {
    /// The content endpoint answered with a non-success HTTP status.
    UpstreamError { status: u16, body: String },
    /// Neither response shape could be parsed; carries the diagnostic of the
    /// first (batch) parse attempt.
    ParseError { detail: String },
    /// The batch parsed but held no questions.
    NoDataError,
}

/// True iff an HTTP status code counts as success.
pub open spec fn status_success(status: u16) -> bool {
    200 <= status < 300
}

/// Exec form of [`status_success`].
pub fn http_status_is_success(status: u16) -> (r: bool)
    ensures
        r == status_success(status),
{
    200 <= status && status < 300
}

/// Relies on `rand::random_range` over `0..n`: a uniformly random index
/// below `n`.  Nothing beyond the bound can be promised of a random value.
#[verifier::external_body]
fn random_below(n: usize) -> (r: usize)
    requires
        n >= 1,
    ensures
        r < n,
{
    rand::random_range(0..n)
}

/// Resolves the two parse attempts into a question or an error.
///
/// The batch shape wins when it parses: a non-empty batch yields one of its
/// questions (picked uniformly at random), an empty batch is `NoDataError`.
/// Only when the batch shape fails does the single-question shape count;
/// when that fails too, the result is `ParseError` carrying the batch
/// diagnostic.
pub fn select_question(
    batch: Result<Vec<SATQuestion>, String>,
    single: Result<SATQuestion, String>,
) -> (r: Result<SATQuestion, FetchError>)
    ensures
        match batch {
            Ok(v) => {
                if v@.len() > 0 {
                    r matches Ok(q) && exists|i: int| 0 <= i < v@.len() && q == v@[i]
                } else {
                    r matches Err(e) && e is NoDataError
                }
            },
            Err(d) => match single {
                Ok(q) => r matches Ok(p) && p == q,
                Err(_) => r matches Err(e) && (e matches FetchError::ParseError { detail }
                    && detail@ == d@),
            },
        },
{
    match batch {
        Ok(mut v) => {
            if v.len() == 0 {
                Err(FetchError::NoDataError)
            } else {
                let idx = random_below(v.len());
                let q = v.remove(idx);
                Ok(q)
            }
        },
        Err(detail) => {
            match single {
                Ok(q) => Ok(q),
                Err(_) => Err(FetchError::ParseError { detail }),
            }
        },
    }
}

} // verus!
