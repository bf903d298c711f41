//! Trusted boundary around the outside format checks: email addresses and
//! URLs. Each check is deterministic in its input, so its result carries a
//! name the contracts can speak of.
use vstd::prelude::*;

use validator::ValidateEmail;
use validator::ValidateUrl;

verus! {

/// What the outside email check accepts: the HTML5 email grammar.
pub uninterp spec fn email_valid(s: Seq<char>) -> bool;

/// Relies on validator's `ValidateEmail` for `&str`: the verdict depends on
/// the characters alone, and an empty string is never a valid address.
#[verifier::external_body]
pub fn check_email(s: &str) -> (r: bool)
    ensures
        r == email_valid(s@),
        s@.len() == 0 ==> !r,
{
    s.validate_email()
}

/// What the outside URL check accepts: a string the URL parser takes.
pub uninterp spec fn url_valid(s: Seq<char>) -> bool;

/// Relies on validator's `ValidateUrl` for `&str`: the verdict depends on
/// the characters alone, and an empty string is never a valid URL.
#[verifier::external_body]
pub fn check_url(s: &str) -> (r: bool)
    ensures
        r == url_valid(s@),
        s@.len() == 0 ==> !r,
{
    s.validate_url()
}

} // verus!
