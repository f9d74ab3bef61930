//! The request method.
use vstd::prelude::*;

verus! {

/// Calls `http::Method::from_bytes` on the octets of `method` and compares the result with
/// `http::Method::HEAD`. The contract claims that they are equal for the name `HEAD` in capital
/// letters and for no other text; a text that is no method name is not `HEAD`.
#[verifier::external_body]
pub(crate) fn is_head(method: &str) -> (r: bool)
    ensures
        r == (method@ == "HEAD"@),
{
    match http::Method::from_bytes(method.as_bytes()) {
        Ok(parsed) => parsed == http::Method::HEAD,
        Err(_) => false,
    }
}

} // verus!
