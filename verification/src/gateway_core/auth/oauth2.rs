//! OAuth2 client logic: configuration and its endpoint checks, cached
//! tokens, cache keys, the CSRF state check and the choice between a cached
//! token, a refresh and a new fetch.
//!
//! The HTTP exchanges with the provider are made by the application around
//! this module; the decisions they follow are made here.

use vstd::prelude::*;
use vstd::relations::{sorted_by, total_ordering};
use vstd::utf8::encode_utf8;

use crate::gateway_core::auth::constant_time_eq;
use crate::gateway_core::error::CoreError;
use crate::gateway_core::util::clock::unix_time_millis;
use crate::gateway_core::util::path::join_with;
use crate::gateway_core::util::text::{chars_of, push_char, push_chars};

verus! {

broadcast use vstd::seq_lib::group_to_multiset_ensures;

/// OAuth2 client configuration.
#[derive(Debug, Clone)]
pub struct OAuth2Config {
    pub client_id: String,
    pub client_secret: String,
    pub auth_url: String,
    pub token_url: String,
    pub redirect_url: Option<String>,
    /// Scopes used when a request names none.
    pub default_scopes: Vec<String>,
    /// Token cache lifetime in seconds.
    pub cache_ttl_secs: u64,
}

/// The default token cache lifetime: 300 seconds.
pub fn default_cache_ttl_secs() -> (secs: u64)
    ensures
        secs == 300,
{
    300
}

/// The text of the error that `url::Url::parse` reports for `url`, or
/// nothing when `url` parses.
pub uninterp spec fn url_parse_error(url: Seq<char>) -> Option<Seq<char>>;

/// Parses `url` with `url::Url::parse`, the parser behind oauth2's
/// `AuthUrl::new`, `TokenUrl::new` and `RedirectUrl::new`, and gives the
/// parse error's text, if any.
///
/// Trusted: the outcome is what the parser decides for `url`, named
/// `url_parse_error`; which strings parse is not stated.
#[verifier::external_body]
fn parse_url_error(url: &str) -> (r: Option<String>)
    ensures
        url_parse_error(url@) == (match r {
            Some(m) => Some(m@),
            None => None,
        }),
{
    match oauth2::url::Url::parse(url) {
        Ok(_) => None,
        Err(e) => Some(e.to_string()),
    }
}

fn config_error(prefix: &str, detail: String) -> (e: CoreError)
    ensures
        e matches CoreError::Config(m) && m@ == prefix@ + detail@,
{
    let mut m = String::from_str(prefix);
    m.append(detail.as_str());
    CoreError::Config(m)
}

/// Checks the endpoints of an OAuth2 configuration in order (authorization
/// URL, token URL, then the redirect URL when there is one). The first that
/// does not parse is reported as `CoreError::Config("invalid <field>: <error>")`.
pub fn check_endpoints(config: &OAuth2Config) -> (r: Result<(), CoreError>)
    ensures
        r is Ok <==> url_parse_error(config.auth_url@) is None && url_parse_error(
            config.token_url@,
        ) is None && (config.redirect_url matches Some(u) ==> url_parse_error(u@) is None),
        url_parse_error(config.auth_url@) matches Some(m) ==> (r matches Err(e) && e matches CoreError::Config(
            t,
        ) && t@ == "invalid auth_url: "@ + m),
        url_parse_error(config.auth_url@) is None ==> (url_parse_error(config.token_url@) matches Some(m)
            ==> (r matches Err(e) && e matches CoreError::Config(t) && t@ == "invalid token_url: "@
            + m)),
        url_parse_error(config.auth_url@) is None && url_parse_error(config.token_url@) is None ==> (
        config.redirect_url matches Some(u) ==> (url_parse_error(u@) matches Some(m) ==> (r matches Err(
            e,
        ) && e matches CoreError::Config(t) && t@ == "invalid redirect_url: "@ + m))),
{
    if let Some(m) = parse_url_error(config.auth_url.as_str()) {
        return Err(config_error("invalid auth_url: ", m));
    }
    if let Some(m) = parse_url_error(config.token_url.as_str()) {
        return Err(config_error("invalid token_url: ", m));
    }
    if let Some(u) = &config.redirect_url {
        if let Some(m) = parse_url_error(u.as_str()) {
            return Err(config_error("invalid redirect_url: ", m));
        }
    }
    Ok(())
}

/// A cached access token.
#[derive(Debug, Clone)]
pub struct CachedToken {
    pub access_token: String,
    /// When the token expires, in milliseconds of the clock that `now_ms` reads.
    pub expires_at_ms: Option<u64>,
    pub refresh_token: Option<String>,
}

/// Whether a token expiring at `expires_at` has expired at `now`.
pub open spec fn token_expired(expires_at: Option<u64>, now: u64) -> bool {
    match expires_at {
        Some(exp) => now >= exp,
        None => false,
    }
}

impl CachedToken {
    /// Whether the token has expired at `now_ms`; a token without an expiry never does.
    pub fn is_expired_at(&self, now_ms: u64) -> (b: bool)
        ensures
            b == token_expired(self.expires_at_ms, now_ms),
    {
        match self.expires_at_ms {
            Some(exp) => now_ms >= exp,
            None => false,
        }
    }

    /// The cache entry for a token just obtained at `now_ms`: it expires
    /// `expires_in_ms` after `now_ms` when the provider gave a lifetime, and
    /// never otherwise.
    pub fn from_response(
        access_token: String,
        expires_in_ms: Option<u64>,
        refresh_token: Option<String>,
        now_ms: u64,
    ) -> (t: CachedToken)
        requires
            expires_in_ms matches Some(d) ==> now_ms + d <= u64::MAX,
        ensures
            t.access_token == access_token,
            t.refresh_token == refresh_token,
            t.expires_at_ms == (match expires_in_ms {
                Some(d) => Some((now_ms + d) as u64),
                None => None,
            }),
    {
        let expires_at_ms = match expires_in_ms {
            Some(d) => Some(now_ms + d),
            None => None,
        };
        CachedToken { access_token, expires_at_ms, refresh_token }
    }

    /// Whether the token has expired now: `is_expired_at` at the wall clock's
    /// reading in milliseconds.
    pub fn is_expired(&self) -> (b: bool)
        ensures
            exists|now_ms: u64| b == token_expired(self.expires_at_ms, now_ms),
            self.expires_at_ms is None ==> !b,
    {
        let now = unix_time_millis();
        self.is_expired_at(now)
    }
}

/// Lexicographic order on character sequences (the order of `String`'s `Ord`).
pub open spec fn text_le(a: Seq<char>, b: Seq<char>) -> bool
    decreases a.len(),
{
    if a.len() == 0 {
        true
    } else if b.len() == 0 {
        false
    } else if (a[0] as u32) < (b[0] as u32) {
        true
    } else if (a[0] as u32) > (b[0] as u32) {
        false
    } else {
        text_le(a.drop_first(), b.drop_first())
    }
}

proof fn lemma_text_le_reflexive(a: Seq<char>)
    ensures
        text_le(a, a),
    decreases a.len(),
{
    if a.len() > 0 {
        lemma_text_le_reflexive(a.drop_first());
    }
}

proof fn lemma_text_le_antisymmetric(a: Seq<char>, b: Seq<char>)
    requires
        text_le(a, b),
        text_le(b, a),
    ensures
        a == b,
    decreases a.len(),
{
    if a.len() > 0 && b.len() > 0 {
        lemma_text_le_antisymmetric(a.drop_first(), b.drop_first());
        assert(a[0] == b[0]) by {
            vstd::utf8::char_u32_cast(a[0], a[0] as u32);
            vstd::utf8::char_u32_cast(b[0], b[0] as u32);
        }
        assert(a =~= seq![a[0]] + a.drop_first());
        assert(b =~= seq![b[0]] + b.drop_first());
    } else {
        assert(a.len() == 0 && b.len() == 0);
        assert(a =~= b);
    }
}

proof fn lemma_text_le_transitive(a: Seq<char>, b: Seq<char>, c: Seq<char>)
    requires
        text_le(a, b),
        text_le(b, c),
    ensures
        text_le(a, c),
    decreases a.len(),
{
    if a.len() > 0 && b.len() > 0 && c.len() > 0 {
        if a[0] as u32 == b[0] as u32 && b[0] as u32 == c[0] as u32 {
            lemma_text_le_transitive(a.drop_first(), b.drop_first(), c.drop_first());
        }
    }
}

proof fn lemma_text_le_total(a: Seq<char>, b: Seq<char>)
    ensures
        text_le(a, b) || text_le(b, a),
    decreases a.len(),
{
    if a.len() > 0 && b.len() > 0 {
        lemma_text_le_total(a.drop_first(), b.drop_first());
    }
}

/// The lexicographic order is a total order.
pub proof fn lemma_text_le_total_ordering()
    ensures
        total_ordering(|a: Seq<char>, b: Seq<char>| text_le(a, b)),
{
    let leq = |a: Seq<char>, b: Seq<char>| text_le(a, b);
    assert forall|a: Seq<char>| #[trigger] leq(a, a) by {
        lemma_text_le_reflexive(a);
    }
    assert forall|a: Seq<char>, b: Seq<char>| #[trigger] leq(a, b) && #[trigger] leq(b, a) implies a
        == b by {
        lemma_text_le_antisymmetric(a, b);
    }
    assert forall|a: Seq<char>, b: Seq<char>, c: Seq<char>| #[trigger] leq(a, b) && #[trigger] leq(
        b,
        c,
    ) implies leq(a, c) by {
        lemma_text_le_transitive(a, b, c);
    }
    assert forall|a: Seq<char>, b: Seq<char>| #[trigger] leq(a, b) || #[trigger] leq(b, a) by {
        lemma_text_le_total(a, b);
    }
}

/// The scopes in lexicographic order.
pub open spec fn sorted_scopes(scopes: Seq<Seq<char>>) -> Seq<Seq<char>> {
    scopes.sort_by(|a: Seq<char>, b: Seq<char>| text_le(a, b))
}

/// The token cache key: the client id, `:`, then the scopes in
/// lexicographic order joined by `,`.
pub open spec fn cache_key_text(client_id: Seq<char>, scopes: Seq<Seq<char>>) -> Seq<char> {
    client_id.push(':') + join_with(sorted_scopes(scopes), ',')
}

fn text_le_exec(a: &Vec<char>, b: &Vec<char>) -> (r: bool)
    ensures
        r == text_le(a@, b@),
{
    let n = a.len();
    let m = b.len();
    let mut i: usize = 0;
    assert(a@.skip(0) =~= a@);
    assert(b@.skip(0) =~= b@);
    while i < n && i < m
        invariant
            i <= n,
            i <= m,
            n == a@.len(),
            m == b@.len(),
            text_le(a@, b@) == text_le(a@.skip(i as int), b@.skip(i as int)),
        decreases n - i,
    {
        let ca = a[i];
        let cb = b[i];
        assert(a@.skip(i as int)[0] == ca);
        assert(b@.skip(i as int)[0] == cb);
        if (ca as u32) < (cb as u32) {
            return true;
        }
        if (ca as u32) > (cb as u32) {
            return false;
        }
        assert(a@.skip(i as int).drop_first() =~= a@.skip(i + 1));
        assert(b@.skip(i as int).drop_first() =~= b@.skip(i + 1));
        i = i + 1;
    }
    i == n
}

/// Sorts texts in lexicographic order.
fn sort_texts(items: Vec<Vec<char>>) -> (out: Vec<Vec<char>>)
    ensures
        out.deep_view() == sorted_scopes(items.deep_view()),
{
    let ghost leq = |a: Seq<char>, b: Seq<char>| text_le(a, b);
    let ghost input = items.deep_view();
    let mut out: Vec<Vec<char>> = Vec::new();
    let n = items.len();
    let mut rest = items;
    proof {
        lemma_text_le_total_ordering();
    }
    // `rest` is consumed from the back; `taken` counts what has moved to `out`.
    let mut taken: usize = 0;
    while rest.len() > 0
        invariant
            taken + rest@.len() == n,
            n == input.len(),
            rest.deep_view() == input.take(rest@.len() as int),
            sorted_by(out.deep_view(), leq),
            out.deep_view().to_multiset() == input.skip(rest@.len() as int).to_multiset(),
            total_ordering(leq),
            leq == (|a: Seq<char>, b: Seq<char>| text_le(a, b)),
        decreases rest@.len(),
    {
        let ghost before_rest = rest.deep_view();
        let x = rest.pop().unwrap();
        let ghost xv = x@;
        proof {
            assert(rest.deep_view() =~= before_rest.drop_last());
            assert(before_rest.last() == xv);
            let k = rest@.len() as int;
            assert(input.skip(k) =~= seq![xv] + input.skip(k + 1)) by {
                assert(input[k] == before_rest[k]);
            }
            assert(rest.deep_view() =~= input.take(k));
        }
        // Find the first position whose element is greater than `x`.
        let mut p: usize = 0;
        let m = out.len();
        while p < m && text_le_exec(&out[p], &x)
            invariant
                p <= m,
                m == out@.len(),
                forall|j: int| 0 <= j < p ==> leq(#[trigger] out.deep_view()[j], xv),
                x@ == xv,
                leq == (|a: Seq<char>, b: Seq<char>| text_le(a, b)),
            decreases m - p,
        {
            assert(out@[p as int].deep_view() =~= out@[p as int]@);
            assert(out.deep_view()[p as int] == out@[p as int]@);
            p = p + 1;
        }
        let ghost ov = out.deep_view();
        proof {
            if p < m {
                assert(out@[p as int].deep_view() =~= out@[p as int]@);
                assert(ov[p as int] == out@[p as int]@);
                assert(!leq(ov[p as int], xv));
                lemma_text_le_total(ov[p as int], xv);
            }
        }
        assert(x.deep_view() =~= x@);
        out.insert(p, x);
        proof {
            let nv = out.deep_view();
            assert(nv =~= ov.insert(p as int, xv));
            assert forall|i: int, j: int| 0 <= i < j < nv.len() implies #[trigger] leq(nv[i], nv[j]) by {
                if j < p {
                    assert(nv[i] == ov[i] && nv[j] == ov[j]);
                } else if j == p {
                    assert(nv[i] == ov[i]);
                } else if i < p {
                    assert(nv[i] == ov[i] && nv[j] == ov[j - 1]);
                    assert(leq(ov[i], xv));
                    assert(leq(xv, ov[p as int]));
                    if j - 1 > p {
                        assert(leq(ov[p as int], ov[j - 1]));
                    }
                } else if i == p {
                    assert(nv[j] == ov[j - 1]);
                    assert(leq(xv, ov[p as int]));
                    if j - 1 > p {
                        assert(leq(ov[p as int], ov[j - 1]));
                    }
                } else {
                    assert(nv[i] == ov[i - 1] && nv[j] == ov[j - 1]);
                }
            }
            assert(nv.to_multiset() =~= ov.to_multiset().insert(xv));
            let k = rest@.len() as int;
            assert((seq![xv] + input.skip(k + 1)).to_multiset() =~= input.skip(k
                + 1).to_multiset().insert(xv)) by {
                vstd::seq_lib::lemma_multiset_commutative(seq![xv], input.skip(k + 1));
                assert(seq![xv] + input.skip(k + 1) =~= input.skip(k + 1).insert(0, xv));
            }
        }
        taken = taken + 1;
    }
    proof {
        assert(input.skip(0) =~= input);
        input.lemma_sort_by_ensures(leq);
        vstd::seq_lib::lemma_sorted_unique(out.deep_view(), input.sort_by(leq), leq);
    }
    out
}

/// The token cache key for a client and a scope list: the client id, `:`,
/// then the scopes sorted lexicographically and joined by `,`.
pub fn build_cache_key(client_id: &str, scopes: &[String]) -> (key: String)
    ensures
        key@ == cache_key_text(client_id@, scopes@.map_values(|s: String| s@)),
{
    let mut items: Vec<Vec<char>> = Vec::new();
    let n = scopes.len();
    for i in 0..n
        invariant
            n == scopes@.len(),
            items.deep_view() == scopes@.map_values(|s: String| s@).take(i as int),
    {
        let ghost before = items.deep_view();
        let cs = chars_of(scopes[i].as_str());
        assert(cs.deep_view() =~= cs@);
        items.push(cs);
        assert(items.deep_view() =~= before.push(scopes@[i as int]@));
        assert(scopes@.map_values(|s: String| s@).take(i + 1) =~= scopes@.map_values(
            |s: String| s@,
        ).take(i as int).push(scopes@[i as int]@));
    }
    assert(scopes@.map_values(|s: String| s@).take(n as int) =~= scopes@.map_values(
        |s: String| s@,
    ));
    let sorted = sort_texts(items);
    let ghost sv = sorted.deep_view();
    let mut key = String::from_str(client_id);
    push_char(&mut key, ':');
    let ghost prefix = key@;
    let m = sorted.len();
    for k in 0..m
        invariant
            m == sorted@.len(),
            sv == sorted.deep_view(),
            key@ == prefix + join_with(sv.take(k as int), ','),
    {
        if k > 0 {
            push_char(&mut key, ',');
        }
        assert(sv[k as int] == sorted@[k as int]@);
        push_chars(&mut key, &sorted[k]);
        proof {
            let t = sv.take(k + 1);
            assert(t.drop_last() =~= sv.take(k as int));
            assert(t.last() == sv[k as int]);
            if k == 0 {
                assert(join_with(sv.take(0), ',') =~= Seq::<char>::empty());
            }
        }
    }
    assert(sv.take(m as int) =~= sv);
    key
}

/// Two scope lists with the same scopes, in any order, give the same cache key.
pub proof fn lemma_cache_key_ignores_scope_order(
    client_id: Seq<char>,
    scopes_a: Seq<Seq<char>>,
    scopes_b: Seq<Seq<char>>,
)
    requires
        scopes_a.to_multiset() == scopes_b.to_multiset(),
    ensures
        cache_key_text(client_id, scopes_a) == cache_key_text(client_id, scopes_b),
{
    let leq = |a: Seq<char>, b: Seq<char>| text_le(a, b);
    lemma_text_le_total_ordering();
    scopes_a.lemma_sort_by_ensures(leq);
    scopes_b.lemma_sort_by_ensures(leq);
    vstd::seq_lib::lemma_sorted_unique(scopes_a.sort_by(leq), scopes_b.sort_by(leq), leq);
}

/// Checks the `state` returned by the provider against the one issued, in
/// constant time. A mismatch is `CoreError::Auth("oauth2 state mismatch")`.
pub fn check_state(expected_state: &str, actual_state: &str) -> (r: Result<(), CoreError>)
    ensures
        r is Ok <==> expected_state@ == actual_state@,
        r matches Err(e) ==> (e matches CoreError::Auth(m) && m@ == "oauth2 state mismatch"@),
{
    let expected = expected_state.as_bytes();
    let actual = actual_state.as_bytes();
    proof {
        vstd::utf8::encode_utf8_decode_utf8(expected_state@);
        vstd::utf8::encode_utf8_decode_utf8(actual_state@);
    }
    if expected.len() != actual.len() || !constant_time_eq(expected, actual) {
        return Err(CoreError::Auth(String::from_str("oauth2 state mismatch")));
    }
    Ok(())
}

/// How to obtain a token for a scope list.
#[derive(Debug, Clone, PartialEq, Eq)]
pub enum TokenPlan {
    /// Use this cached access token.
    UseCached(String),
    /// Refresh with this refresh token.
    Refresh(String),
    /// Fetch a new token with the client-credentials grant.
    FetchNew,
}

/// The plan for a cache entry at time `now`: a live cached token is used,
/// an expired one with a refresh token is refreshed, anything else fetches.
pub open spec fn token_plan(cached: Option<CachedToken>, now: u64) -> TokenPlan {
    match cached {
        Some(t) => if !token_expired(t.expires_at_ms, now) {
            TokenPlan::UseCached(t.access_token)
        } else {
            match t.refresh_token {
                Some(rt) => TokenPlan::Refresh(rt),
                None => TokenPlan::FetchNew,
            }
        },
        None => TokenPlan::FetchNew,
    }
}

/// Decides how `get_token` obtains a token from what the cache holds.
pub fn plan_token(cached: Option<&CachedToken>, now_ms: u64) -> (plan: TokenPlan)
    ensures
        plan == token_plan(
            match cached {
                Some(t) => Some(*t),
                None => None,
            },
            now_ms,
        ),
{
    match cached {
        Some(t) => {
            if !t.is_expired_at(now_ms) {
                TokenPlan::UseCached(t.access_token.clone())
            } else {
                match &t.refresh_token {
                    Some(rt) => TokenPlan::Refresh(rt.clone()),
                    None => TokenPlan::FetchNew,
                }
            }
        },
        None => TokenPlan::FetchNew,
    }
}

} // verus!
