//! The canonical names of the headers, as the `http` crate registers them.

use vstd::prelude::*;

verus! {

/// The text of `http::header::ACCESS_CONTROL_MAX_AGE`.
///
/// Trusted: the `http` crate registers that standard header under the lower
/// case name stated here, and `HeaderName::as_str` returns the registered
/// name.
#[verifier::external_body]
pub(crate) fn access_control_max_age() -> (n: String)
    ensures
        n@ == "access-control-max-age"@,
{
    http::header::ACCESS_CONTROL_MAX_AGE.as_str().to_string()
}

/// The text of `http::header::AUTHORIZATION`.
///
/// Trusted: the `http` crate registers that standard header under the lower
/// case name stated here, and `HeaderName::as_str` returns the registered
/// name.
#[verifier::external_body]
pub(crate) fn authorization() -> (n: String)
    ensures
        n@ == "authorization"@,
{
    http::header::AUTHORIZATION.as_str().to_string()
}

/// The text of `http::header::PROXY_AUTHORIZATION`.
///
/// Trusted: the `http` crate registers that standard header under the lower
/// case name stated here, and `HeaderName::as_str` returns the registered
/// name.
#[verifier::external_body]
pub(crate) fn proxy_authorization() -> (n: String)
    ensures
        n@ == "proxy-authorization"@,
{
    http::header::PROXY_AUTHORIZATION.as_str().to_string()
}

} // verus!
