//! Cookie-based sticky sessions: the same session id always reaches the same upstream.

use std::collections::HashMap;

use rand::Rng;
use vstd::prelude::*;
use vstd::utf8::encode_utf8;

use crate::gateway_core::util::clock::unix_time_millis;
use crate::gateway_core::util::hash::{
    be_u64_prefix, digest_be_u64, hex_digit_lower_exec, hex_lower, sha256, sha256_digest,
};
use crate::gateway_core::util::string_map::{string_map_entries, string_map_get};
use crate::gateway_core::util::text::{chars_of, push_char, push_chars};

verus! {

/// A random `u32` (`rand::random`).
///
/// Trusted: nothing is claimed of the value, which is random.
#[verifier::external_body]
fn random_u32() -> u32 {
    rand::random::<u32>()
}

/// Sticky-session settings.
#[derive(Debug, Clone)]
pub struct StickySession {
    /// The cookie that carries the session id.
    pub cookie_name: String,
    /// Session lifetime in seconds.
    pub ttl_seconds: u64,
    /// Salt mixed into generated session ids.
    pub salt: String,
}

/// Decimal digits of `n`, most significant first.
pub open spec fn decimal(n: nat) -> Seq<char>
    decreases n,
{
    if n < 10 {
        seq![(48 + n) as char]
    } else {
        decimal(n / 10).push((48 + n % 10) as char)
    }
}

/// Whether a session created at `created_at` with lifetime `ttl` (seconds)
/// has expired at `now`.
pub open spec fn session_expired(created_at: u64, ttl: u64, now: u64) -> bool {
    now > created_at + ttl
}

/// The text hashed for a new session id: `salt:ip:timestamp:nonce`.
pub open spec fn session_seed(salt: Seq<char>, client_ip: Seq<char>, timestamp: u64, nonce: u32) -> Seq<char> {
    salt.push(':') + client_ip.push(':') + decimal(timestamp as nat).push(':') + decimal(nonce as nat)
}

/// A session id: the first 16 lower-case hex digits of the SHA-256 digest of the seed.
pub open spec fn session_id_text(salt: Seq<char>, client_ip: Seq<char>, timestamp: u64, nonce: u32) -> Seq<char> {
    hex_lower(sha256_digest(encode_utf8(session_seed(salt, client_ip, timestamp, nonce))).take(8))
}

fn push_decimal(s: &mut String, n: u64)
    ensures
        final(s)@ == old(s)@ + decimal(n as nat),
    decreases n,
{
    if n >= 10 {
        push_decimal(s, n / 10);
    }
    let d = (n % 10) as u8;
    push_char(s, (48 + d) as char);
}

impl StickySession {
    /// Settings with the given cookie and lifetime, and the default salt `rapidgate-sticky`.
    pub fn new(cookie_name: String, ttl_seconds: u64) -> (s: Self)
        ensures
            s.cookie_name@ == cookie_name@,
            s.ttl_seconds == ttl_seconds,
            s.salt@ == "rapidgate-sticky"@,
    {
        StickySession { cookie_name, ttl_seconds, salt: String::from_str("rapidgate-sticky") }
    }

    /// The session id carried by the request's cookies, if any.
    pub fn extract_session_id(&self, cookies: &HashMap<String, String>) -> (r: Option<String>)
        ensures
            r is Some <==> string_map_entries(*cookies).contains_key(self.cookie_name@),
            r matches Some(v) ==> v@ == string_map_entries(*cookies)[self.cookie_name@],
    {
        match string_map_get(cookies, self.cookie_name.as_str()) {
            Some(v) => Some(v.clone()),
            None => None,
        }
    }

    /// The session id for a client at a given time (seconds since the epoch) and nonce.
    pub fn session_id_for(&self, client_ip: &str, timestamp_secs: u64, nonce: u32) -> (id: String)
        ensures
            id@ == session_id_text(self.salt@, client_ip@, timestamp_secs, nonce),
            id@.len() == 16,
    {
        let mut seed = String::new();
        push_chars(&mut seed, &chars_of(self.salt.as_str()));
        push_char(&mut seed, ':');
        push_chars(&mut seed, &chars_of(client_ip));
        push_char(&mut seed, ':');
        push_decimal(&mut seed, timestamp_secs);
        push_char(&mut seed, ':');
        push_decimal(&mut seed, nonce as u64);
        assert(seed@ =~= session_seed(self.salt@, client_ip@, timestamp_secs, nonce));
        let digest = sha256(seed.as_str().as_bytes());
        let mut id = String::new();
        for i in 0..8
            invariant
                id@ == hex_lower(digest@.take(i as int)),
                id@.len() == 2 * i,
        {
            let b = digest[i];
            push_char(&mut id, hex_digit_lower_exec(b / 16));
            push_char(&mut id, hex_digit_lower_exec(b % 16));
            proof {
                let t = digest@.take(i + 1);
                assert(t.drop_last() =~= digest@.take(i as int));
                assert(t.last() == b);
            }
        }
        id
    }

    /// A new session id from the salt, the client IP, the current time and a random nonce.
    pub fn generate_session_id(&self, client_ip: &str) -> (id: String)
        ensures
            id@.len() == 16,
            exists|ts: u64, nonce: u32| id@ == session_id_text(self.salt@, client_ip@, ts, nonce),
    {
        let timestamp = unix_time_millis() / 1000;
        let nonce = random_u32();
        self.session_id_for(client_ip, timestamp, nonce)
    }

    /// The upstream for a session: the first eight bytes of the SHA-256
    /// digest of the session id, big-endian, modulo the upstream count (0
    /// when there are no upstreams).
    pub fn select_upstream(&self, session_id: &str, upstream_count: usize) -> (idx: usize)
        ensures
            upstream_count == 0 ==> idx == 0,
            upstream_count > 0 ==> idx as int == be_u64_prefix(sha256_digest(encode_utf8(session_id@)))
                % (upstream_count as int),
            upstream_count > 0 ==> idx < upstream_count,
    {
        if upstream_count == 0 {
            return 0;
        }
        let digest = sha256(session_id.as_bytes());
        let v = digest_be_u64(&digest);
        (v % (upstream_count as u64)) as usize
    }

    /// Whether a session created at `created_at` (seconds) has expired at `now` (seconds).
    pub fn is_expired_at(&self, created_at: u64, now: u64) -> (b: bool)
        requires
            created_at + self.ttl_seconds <= u64::MAX,
        ensures
            b == session_expired(created_at, self.ttl_seconds, now),
    {
        now > created_at + self.ttl_seconds
    }

    /// Whether a session created at `created_at` (seconds since the epoch) has
    /// expired now: whether the wall clock, read in whole seconds, is past
    /// `created_at + ttl_seconds`.
    pub fn is_expired(&self, created_at: u64) -> (b: bool)
        requires
            created_at + self.ttl_seconds <= u64::MAX,
        ensures
            exists|now: u64| b == #[trigger] session_expired(created_at, self.ttl_seconds, now),
    {
        let now = unix_time_millis() / 1000;
        self.is_expired_at(created_at, now)
    }
}

} // verus!
