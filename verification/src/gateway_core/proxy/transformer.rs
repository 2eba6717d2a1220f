//! Which response headers pass to the client: all but the hop-by-hop ones.

use vstd::prelude::*;

use crate::gateway_core::util::text::{ascii_lower_seq, chars_eq_str, chars_of, make_ascii_lowercase};

verus! {

/// The hop-by-hop headers, in lower case.
pub open spec fn hop_by_hop_names() -> Set<Seq<char>> {
    set![
        "connection"@,
        "keep-alive"@,
        "proxy-authenticate"@,
        "proxy-authorization"@,
        "te"@,
        "trailers"@,
        "transfer-encoding"@,
        "upgrade"@,
    ]
}

/// Whether a header is hop-by-hop (compared without regard to ASCII case);
/// such headers are not passed on.
pub fn is_hop_by_hop(name: &str) -> (b: bool)
    ensures
        b == hop_by_hop_names().contains(ascii_lower_seq(name@)),
{
    let mut lower = chars_of(name);
    make_ascii_lowercase(&mut lower);
    chars_eq_str(&lower, "connection") || chars_eq_str(&lower, "keep-alive") || chars_eq_str(
        &lower,
        "proxy-authenticate",
    ) || chars_eq_str(&lower, "proxy-authorization") || chars_eq_str(&lower, "te")
        || chars_eq_str(&lower, "trailers") || chars_eq_str(&lower, "transfer-encoding")
        || chars_eq_str(&lower, "upgrade")
}

/// Whether a header (name and value) passes to the client.
pub open spec fn forwardable<V>(h: (String, V)) -> bool {
    !hop_by_hop_names().contains(ascii_lower_seq(h.0@))
}

/// The upstream response headers that pass to the client, in their order:
/// every header but the hop-by-hop ones.
pub fn forwardable_headers<V>(headers: &[(String, V)]) -> (out: Vec<&(String, V)>)
    ensures
        out@.map_values(|h: &(String, V)| *h) == headers@.filter(|h: (String, V)| forwardable(h)),
{
    let mut out: Vec<&(String, V)> = Vec::new();
    let n = headers.len();
    let ghost pred = |h: (String, V)| forwardable(h);
    for i in 0..n
        invariant
            n == headers@.len(),
            pred == (|h: (String, V)| forwardable(h)),
            out@.map_values(|h: &(String, V)| *h) == headers@.take(i as int).filter(pred),
    {
        let h = &headers[i];
        proof {
            reveal_with_fuel(Seq::<_>::filter, 1);
            assert(headers@.take(i + 1).drop_last() =~= headers@.take(i as int));
        }
        if !is_hop_by_hop(h.0.as_str()) {
            out.push(h);
            assert(out@.map_values(|h: &(String, V)| *h) =~= headers@.take(i as int).filter(
                pred,
            ).push(*h));
        } else {
            assert(out@.map_values(|h: &(String, V)| *h) =~= headers@.take(i as int).filter(
                pred,
            ));
        }
    }
    assert(headers@.take(n as int) =~= headers@);
    out
}

} // verus!
