//! Built-in plugins.

use vstd::prelude::*;
use vstd::utf8::encode_utf8;

use crate::gateway_core::plugins::types::RequestContext;
use crate::gateway_core::util::hash::{encode_lower, hex_lower, sha256, sha256_digest};
use crate::gateway_core::util::ids::{
    is_hyphenated_uuid, is_v4_bytes, new_uuid_v4, uuid_hyphenated, uuid_hyphenated_text,
};
use crate::gateway_core::util::string_map::{string_map_entries, string_map_get, string_map_insert};

verus! {

/// Adds an `x-request-id` header, a fresh UUID, to requests that lack one.
pub struct AddRequestIdPlugin;

impl AddRequestIdPlugin {
    /// Sets `x-request-id` to `request_id` unless the request already has one.
    pub fn ensure_request_id(&self, ctx: &mut RequestContext, request_id: String)
        ensures
            string_map_entries(final(ctx).headers) == if string_map_entries(old(ctx).headers).contains_key(
                "x-request-id"@,
            ) {
                string_map_entries(old(ctx).headers)
            } else {
                string_map_entries(old(ctx).headers).insert("x-request-id"@, request_id@)
            },
            final(ctx).method == old(ctx).method,
            final(ctx).path == old(ctx).path,
            final(ctx).body == old(ctx).body,
            final(ctx).query_params == old(ctx).query_params,
            final(ctx).metadata == old(ctx).metadata,
    {
        let present = string_map_get(&ctx.headers, "x-request-id").is_some();
        if !present {
            string_map_insert(&mut ctx.headers, String::from_str("x-request-id"), request_id);
        }
    }

    /// Runs on an incoming request: a request without `x-request-id` gets a
    /// fresh random version-4 UUID, hyphenated, as one (see `lemma_v4_id_marks`).
    pub fn on_request(&self, ctx: &mut RequestContext)
        ensures
            string_map_entries(old(ctx).headers).contains_key("x-request-id"@) ==> string_map_entries(
                final(ctx).headers,
            ) == string_map_entries(old(ctx).headers),
            !string_map_entries(old(ctx).headers).contains_key("x-request-id"@) ==> exists|id: Seq<char>|
                is_hyphenated_uuid(id) && string_map_entries(final(ctx).headers)
                    == string_map_entries(old(ctx).headers).insert("x-request-id"@, id),
            !string_map_entries(old(ctx).headers).contains_key("x-request-id"@) ==> exists|b: Seq<u8>|
                is_v4_bytes(b) && string_map_entries(final(ctx).headers) == string_map_entries(
                    old(ctx).headers,
                ).insert("x-request-id"@, #[trigger] uuid_hyphenated_text(b)),
            final(ctx).method == old(ctx).method,
            final(ctx).path == old(ctx).path,
            final(ctx).body == old(ctx).body,
            final(ctx).query_params == old(ctx).query_params,
            final(ctx).metadata == old(ctx).metadata,
    {
        let present = string_map_get(&ctx.headers, "x-request-id").is_some();
        if !present {
            let bytes = new_uuid_v4();
            let id = uuid_hyphenated(&bytes);
            self.ensure_request_id(ctx, id);
        }
    }
}

/// The cache key of a request: the SHA-256 digest of its method, path and
/// body (when it has one), one after the other, in lower-case hex.
pub open spec fn request_hash_text(method: Seq<char>, path: Seq<char>, body: Option<Seq<u8>>) -> Seq<
    char,
> {
    let body_bytes = match body {
        Some(b) => b,
        None => Seq::empty(),
    };
    hex_lower(sha256_digest(encode_utf8(method) + encode_utf8(path) + body_bytes))
}

fn append_bytes(out: &mut Vec<u8>, bytes: &[u8])
    ensures
        final(out)@ == old(out)@ + bytes@,
{
    let ghost start = out@;
    let n = bytes.len();
    for i in 0..n
        invariant
            n == bytes@.len(),
            out@ == start + bytes@.take(i as int),
    {
        out.push(bytes[i]);
        assert(out@ =~= start + bytes@.take(i + 1));
    }
    assert(bytes@.take(n as int) =~= bytes@);
}

/// The key under which the response cache stores a request's response:
/// the SHA-256 digest of method, path and body, in lower-case hex (64 digits).
pub fn compute_request_hash(ctx: &RequestContext) -> (h: String)
    ensures
        h@ == request_hash_text(
            ctx.method@,
            ctx.path@,
            match ctx.body {
                Some(b) => Some(b@),
                None => None,
            },
        ),
        h@.len() == 64,
{
    let mut data: Vec<u8> = Vec::new();
    append_bytes(&mut data, ctx.method.as_str().as_bytes());
    append_bytes(&mut data, ctx.path.as_str().as_bytes());
    match &ctx.body {
        Some(b) => append_bytes(&mut data, b.as_slice()),
        None => {},
    }
    let digest = sha256(data.as_slice());
    encode_lower(&digest)
}

} // verus!
