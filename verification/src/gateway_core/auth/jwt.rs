//! JWT authentication: HS256 or RS256 bearer tokens, checked for their
//! signature, their expiry and, when one is configured, their issuer.

use jsonwebtoken::{Algorithm, DecodingKey, Validation};
use vstd::prelude::*;
use vstd::slice::slice_to_vec;

use crate::gateway_core::auth::Authenticator;
use crate::gateway_core::error::CoreError;

verus! {

/// The signature algorithm a token must use.
#[derive(Debug, Clone, Copy, PartialEq, Eq, Structural)]
pub enum JwtAlgorithm {
    HS256,
    RS256,
}

/// The checks made on a token besides its signature.
#[derive(Debug, Clone)]
pub struct JwtValidation {
    pub algorithm: JwtAlgorithm,
    /// Whether the `exp` claim is checked against the clock.
    pub validate_exp: bool,
    /// The issuer the `iss` claim must name, when the token has one.
    pub issuer: Option<String>,
    /// Whether the `aud` claim is checked.
    pub validate_aud: bool,
}

/// The text of an optional string.
pub open spec fn text_of(s: Option<String>) -> Option<Seq<char>> {
    match s {
        Some(t) => Some(t@),
        None => None,
    }
}

/// The text of the error `DecodingKey::from_rsa_pem` reports for `pem`, or
/// nothing when `pem` holds an RSA key.
pub uninterp spec fn rsa_pem_error(pem: Seq<u8>) -> Option<Seq<char>>;

/// Reads an RSA public key in PEM form (`DecodingKey::from_rsa_pem`) and
/// gives the error's text, if any.
///
/// Trusted: whether the bytes are accepted, and the error text when they are
/// not, are what jsonwebtoken decides for these bytes, named `rsa_pem_error`;
/// which bytes it accepts is not stated.
#[verifier::external_body]
fn check_rsa_pem_bytes(pem: &[u8]) -> (r: Option<String>)
    ensures
        rsa_pem_error(pem@) == text_of(r),
{
    DecodingKey::from_rsa_pem(pem).err().map(|e| e.to_string())
}

/// The error text `jsonwebtoken::decode` gives for an HS256 `token` under the
/// HMAC `secret`, with the given checks, when the clock reads `now` (seconds
/// since the Unix epoch); nothing when it accepts the token.
pub uninterp spec fn hs256_decode_error(
    token: Seq<char>,
    secret: Seq<u8>,
    validate_exp: bool,
    issuer: Option<Seq<char>>,
    validate_aud: bool,
    now: u64,
) -> Option<Seq<char>>;

/// The error text for an RS256 `token` checked with the RSA public key in
/// `pem`: that of `DecodingKey::from_rsa_pem` when the key cannot be read,
/// else that of `jsonwebtoken::decode` with the given checks when the clock
/// reads `now`; nothing when it accepts the token.
pub uninterp spec fn rs256_decode_error(
    token: Seq<char>,
    pem: Seq<u8>,
    validate_exp: bool,
    issuer: Option<Seq<char>>,
    validate_aud: bool,
    now: u64,
) -> Option<Seq<char>>;

/// Decodes and checks an HS256 token (`DecodingKey::from_secret`, then
/// `jsonwebtoken::decode`, reading the claims as any JSON value) and gives
/// the error's text, if any.
///
/// Trusted: the outcome is what jsonwebtoken decides for these arguments at
/// the clock reading it takes, named `hs256_decode_error`; which tokens pass
/// is not stated.
#[verifier::external_body]
fn decode_hs256(
    token: &str,
    secret: &[u8],
    validate_exp: bool,
    issuer: &Option<String>,
    validate_aud: bool,
) -> (r: Option<String>)
    ensures
        exists|now: u64|
            #[trigger] hs256_decode_error(
                token@,
                secret@,
                validate_exp,
                text_of(*issuer),
                validate_aud,
                now,
            ) == text_of(r),
{
    let mut validation = Validation::new(Algorithm::HS256);
    validation.validate_exp = validate_exp;
    validation.iss = issuer.as_ref().map(|i| std::iter::once(i.clone()).collect());
    validation.validate_aud = validate_aud;
    let key = DecodingKey::from_secret(secret);
    jsonwebtoken::decode::<serde_json::Value>(token, &key, &validation).err().map(|e| e.to_string())
}

/// Decodes and checks an RS256 token (`DecodingKey::from_rsa_pem`, then
/// `jsonwebtoken::decode`, reading the claims as any JSON value) and gives
/// the error's text, if any.
///
/// Trusted: the outcome is what jsonwebtoken decides for these arguments at
/// the clock reading it takes, named `rs256_decode_error`; which tokens pass
/// is not stated.
#[verifier::external_body]
fn decode_rs256(
    token: &str,
    pem: &[u8],
    validate_exp: bool,
    issuer: &Option<String>,
    validate_aud: bool,
) -> (r: Option<String>)
    ensures
        exists|now: u64|
            #[trigger] rs256_decode_error(
                token@,
                pem@,
                validate_exp,
                text_of(*issuer),
                validate_aud,
                now,
            ) == text_of(r),
{
    let mut validation = Validation::new(Algorithm::RS256);
    validation.validate_exp = validate_exp;
    validation.iss = issuer.as_ref().map(|i| std::iter::once(i.clone()).collect());
    validation.validate_aud = validate_aud;
    match DecodingKey::from_rsa_pem(pem) {
        Err(e) => Some(e.to_string()),
        Ok(key) => jsonwebtoken::decode::<serde_json::Value>(token, &key, &validation).err().map(
            |e| e.to_string(),
        ),
    }
}

/// The decoder's verdict on `token` under key bytes `key` and checks `v`
/// when the clock reads `now`: the error text, or nothing when it passes.
pub open spec fn decode_outcome(v: JwtValidation, key: Seq<u8>, token: Seq<char>, now: u64) -> Option<
    Seq<char>,
> {
    match v.algorithm {
        JwtAlgorithm::HS256 => hs256_decode_error(
            token,
            key,
            v.validate_exp,
            text_of(v.issuer),
            v.validate_aud,
            now,
        ),
        JwtAlgorithm::RS256 => rs256_decode_error(
            token,
            key,
            v.validate_exp,
            text_of(v.issuer),
            v.validate_aud,
            now,
        ),
    }
}

/// Verifies bearer tokens signed with one algorithm and key.
pub struct JwtAuthenticator {
    /// The HMAC secret (HS256) or the RSA public key in PEM form (RS256).
    key: Vec<u8>,
    algorithm: JwtAlgorithm,
    issuer: Option<String>,
}

impl JwtAuthenticator {
    /// The algorithm tokens must use.
    pub closed spec fn algorithm(&self) -> JwtAlgorithm {
        self.algorithm
    }

    /// The issuer tokens must name, if any.
    pub closed spec fn issuer(&self) -> Option<String> {
        self.issuer
    }

    /// The key bytes: the HMAC secret, or the RSA public key in PEM form.
    pub closed spec fn key(&self) -> Seq<u8> {
        self.key@
    }

    /// The checks a token goes through: this authenticator's algorithm,
    /// expiry checked, the issuer when one is configured, audience not checked.
    pub open spec fn settings(&self) -> JwtValidation {
        JwtValidation {
            algorithm: self.algorithm(),
            validate_exp: true,
            issuer: self.issuer(),
            validate_aud: false,
        }
    }

    /// An authenticator for HS256 tokens signed with `secret`.
    pub fn new_hs256(secret: &[u8], issuer: Option<String>) -> (a: Self)
        ensures
            a.algorithm() == JwtAlgorithm::HS256,
            a.issuer() == issuer,
            a.key() == secret@,
    {
        JwtAuthenticator { key: slice_to_vec(secret), algorithm: JwtAlgorithm::HS256, issuer }
    }

    /// An authenticator for RS256 tokens checked with the RSA public key in
    /// `pem`. Bytes that hold no RSA key are refused with
    /// `CoreError::Config("invalid RSA key: <error>")`.
    pub fn new_rs256(pem: &[u8], issuer: Option<String>) -> (r: Result<Self, CoreError>)
        ensures
            r is Ok <==> rsa_pem_error(pem@) is None,
            rsa_pem_error(pem@) matches Some(m) ==> (r matches Err(e) && e matches CoreError::Config(
                t,
            ) && t@ == "invalid RSA key: "@ + m),
            r matches Ok(a) ==> a.algorithm() == JwtAlgorithm::RS256 && a.issuer() == issuer
                && a.key() == pem@,
    {
        match check_rsa_pem_bytes(pem) {
            None => Ok(JwtAuthenticator { key: slice_to_vec(pem), algorithm: JwtAlgorithm::RS256, issuer }),
            Some(m) => {
                let mut t = String::from_str("invalid RSA key: ");
                t.append(m.as_str());
                Err(CoreError::Config(t))
            },
        }
    }

    /// The checks a token goes through (see `settings`).
    pub fn validation(&self) -> (v: JwtValidation)
        ensures
            v == self.settings(),
    {
        JwtValidation {
            algorithm: self.algorithm,
            validate_exp: true,
            issuer: self.issuer.clone(),
            validate_aud: false,
        }
    }
}

/// The verdict on a token from the decoder's error, if any: no error accepts
/// the token, an error rejects it with `CoreError::Auth("jwt verify failed: <error>")`.
pub fn verify_outcome(decode_error: Option<String>) -> (r: Result<(), CoreError>)
    ensures
        r is Ok <==> decode_error is None,
        decode_error matches Some(e) ==> (r matches Err(err) && err matches CoreError::Auth(m)
            && m@ == "jwt verify failed: "@ + e@),
{
    match decode_error {
        None => Ok(()),
        Some(e) => {
            let mut m = String::from_str("jwt verify failed: ");
            m.append(e.as_str());
            Err(CoreError::Auth(m))
        },
    }
}

impl Authenticator for JwtAuthenticator {
    /// Decodes the token with this authenticator's key and `settings()`; the
    /// token is accepted exactly when the decoder passes it (at the clock
    /// reading it takes), and otherwise rejected with
    /// `CoreError::Auth("jwt verify failed: <error>")`.
    fn verify(&self, credential: &str) -> (r: Result<(), CoreError>)
        ensures
            exists|now: u64|
                {
                    let o = #[trigger] decode_outcome(self.settings(), self.key(), credential@, now);
                    &&& (r is Ok <==> o is None)
                    &&& (o matches Some(e) ==> (r matches Err(err) && err matches CoreError::Auth(m)
                        && m@ == "jwt verify failed: "@ + e))
                },
    {
        let settings = self.validation();
        let outcome = match settings.algorithm {
            JwtAlgorithm::HS256 => decode_hs256(
                credential,
                self.key.as_slice(),
                settings.validate_exp,
                &settings.issuer,
                settings.validate_aud,
            ),
            JwtAlgorithm::RS256 => decode_rs256(
                credential,
                self.key.as_slice(),
                settings.validate_exp,
                &settings.issuer,
                settings.validate_aud,
            ),
        };
        let ghost seen = outcome;
        let r = verify_outcome(outcome);
        proof {
            let now = if settings.algorithm == JwtAlgorithm::HS256 {
                choose|now: u64|
                    #[trigger] hs256_decode_error(
                        credential@,
                        self.key@,
                        settings.validate_exp,
                        text_of(settings.issuer),
                        settings.validate_aud,
                        now,
                    ) == text_of(seen)
            } else {
                choose|now: u64|
                    #[trigger] rs256_decode_error(
                        credential@,
                        self.key@,
                        settings.validate_exp,
                        text_of(settings.issuer),
                        settings.validate_aud,
                        now,
                    ) == text_of(seen)
            };
            assert(decode_outcome(self.settings(), self.key(), credential@, now) == text_of(seen));
            if let Some(e) = seen {
                assert(r matches Err(err) && err matches CoreError::Auth(m) && m@ == "jwt verify failed: "@
                    + e@);
            }
        }
        r
    }
}

} // verus!
