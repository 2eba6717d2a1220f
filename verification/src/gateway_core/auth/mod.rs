//! Authentication: API keys, JWTs and the OAuth2 client's token logic.

pub mod apikey;
pub mod jwt;
pub mod oauth2;

use subtle::ConstantTimeEq;
use vstd::prelude::*;

use crate::gateway_core::error::CoreError;

verus! {

/// An authenticator of inbound credentials.
///
/// A rejected credential gives `CoreError::Auth`; the error never tells an
/// unknown credential from a wrong one.
pub trait Authenticator {
    /// Checks a credential: `Ok(())` accepts it, `Err(CoreError::Auth(..))` rejects it.
    fn verify(&self, credential: &str) -> Result<(), CoreError>;
}

/// Compares two byte slices in constant time (`subtle::ConstantTimeEq::ct_eq`).
///
/// Trusted: `subtle` documents the slice comparison as equality of the two
/// slices (slices of different lengths are unequal).
#[verifier::external_body]
pub(crate) fn constant_time_eq(a: &[u8], b: &[u8]) -> (eq: bool)
    ensures
        eq == (a@ == b@),
{
    bool::from(a.ct_eq(b))
}

} // verus!
