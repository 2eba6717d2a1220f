//! Canary policies: pick the upstream index for a request.

use std::collections::HashMap;

use rand::Rng;
use vstd::prelude::*;

use crate::gateway_core::util::string_map::{string_map_entries, string_map_get};

verus! {

/// A uniformly random number in `low..high` (`rand::Rng::gen_range` on the
/// thread-local generator).
///
/// Trusted: the result lies in the range; which value comes is random.
#[verifier::external_body]
fn random_in_range(low: usize, high: usize) -> (r: usize)
    requires
        low < high,
    ensures
        low <= r < high,
{
    rand::thread_rng().gen_range(low..high)
}

/// A canary policy: chooses the index of the upstream that serves a request.
pub trait CanaryPolicy {
    /// The upstream index for a request with these headers, cookies and client IP.
    fn select_upstream(
        &self,
        headers: &HashMap<String, String>,
        cookies: &HashMap<String, String>,
        client_ip: &str,
        upstream_count: usize,
    ) -> usize;
}

/// Weighted choice: the primary upstream (index 0) with probability
/// `primary_weight` percent, otherwise one of the others uniformly.
#[derive(Debug, Clone)]
pub struct WeightPolicy {
    /// The primary upstream's weight, 0 to 100.
    pub primary_weight: u8,
}

/// Whether a draw `roll` out of 0..100 goes to the primary upstream of
/// weight `weight`: the primary gets the draws below its weight.
pub open spec fn primary_draw(roll: u8, weight: u8) -> bool {
    roll < weight
}

impl WeightPolicy {
    /// A weight policy; weights above 100 count as 100.
    pub fn new(primary_weight: u8) -> (p: Self)
        ensures
            p.primary_weight == if primary_weight < 100 { primary_weight } else { 100 },
    {
        WeightPolicy { primary_weight: if primary_weight < 100 { primary_weight } else { 100 } }
    }

    /// Whether a draw `roll` (0 to 99) goes to the primary upstream.
    pub fn routes_to_primary(&self, roll: u8) -> (b: bool)
        ensures
            b == (roll < self.primary_weight),
            b == primary_draw(roll, self.primary_weight),
    {
        roll < self.primary_weight
    }
}

/// The weight is the primary's share of the draws: of the 100 equally likely
/// draws `0..100`, exactly `weight` (at most all 100) go to the primary.
pub proof fn lemma_primary_share(weight: u8)
    ensures
        Set::new(|r: int| 0 <= r < 100 && primary_draw(r as u8, weight)).finite(),
        Set::new(|r: int| 0 <= r < 100 && primary_draw(r as u8, weight)).len() == (if weight < 100 {
            weight as int
        } else {
            100
        }),
{
    let hi: int = if weight < 100 {
        weight as int
    } else {
        100
    };
    let s = Set::new(|r: int| 0 <= r < 100 && primary_draw(r as u8, weight));
    assert(s =~= vstd::set_lib::set_int_range(0, hi));
    vstd::set_lib::lemma_int_range(0, hi);
}

impl CanaryPolicy for WeightPolicy {
    fn select_upstream(
        &self,
        headers: &HashMap<String, String>,
        cookies: &HashMap<String, String>,
        client_ip: &str,
        upstream_count: usize,
    ) -> (idx: usize)
        ensures
            upstream_count <= 1 ==> idx == 0,
            upstream_count > 1 ==> idx < upstream_count,
            upstream_count > 1 && self.primary_weight >= 100 ==> idx == 0,
            upstream_count > 1 && self.primary_weight == 0 ==> idx >= 1,
            upstream_count > 1 ==> exists|roll: u8|
                roll < 100 && ((idx == 0) <==> #[trigger] primary_draw(roll, self.primary_weight)),
    {
        if upstream_count == 0 {
            return 0;
        }
        if upstream_count == 1 {
            return 0;
        }
        let roll = random_in_range(0, 100) as u8;
        if self.routes_to_primary(roll) {
            0
        } else {
            random_in_range(1, upstream_count)
        }
    }
}

/// Routes requests whose header `header_name` equals `header_value` to `target_index`.
#[derive(Debug, Clone)]
pub struct HeaderPolicy {
    pub header_name: String,
    pub header_value: String,
    pub target_index: usize,
}

/// The index a header or cookie rule picks: the target when the named entry
/// holds the expected value and the target exists, otherwise 0.
pub open spec fn rule_pick(
    entries: Map<Seq<char>, Seq<char>>,
    name: Seq<char>,
    value: Seq<char>,
    target: usize,
    upstream_count: usize,
) -> usize {
    if entries.contains_key(name) && entries[name] == value && target < upstream_count {
        target
    } else {
        0
    }
}

fn pick_by_entry(
    entries: &HashMap<String, String>,
    name: &String,
    value: &String,
    target: usize,
    upstream_count: usize,
) -> (idx: usize)
    ensures
        idx == rule_pick(string_map_entries(*entries), name@, value@, target, upstream_count),
{
    if let Some(v) = string_map_get(entries, name.as_str()) {
        if *v == *value && target < upstream_count {
            return target;
        }
    }
    0
}

impl CanaryPolicy for HeaderPolicy {
    fn select_upstream(
        &self,
        headers: &HashMap<String, String>,
        cookies: &HashMap<String, String>,
        client_ip: &str,
        upstream_count: usize,
    ) -> (idx: usize)
        ensures
            idx == rule_pick(
                string_map_entries(*headers),
                self.header_name@,
                self.header_value@,
                self.target_index,
                upstream_count,
            ),
    {
        pick_by_entry(headers, &self.header_name, &self.header_value, self.target_index, upstream_count)
    }
}

/// Routes requests whose cookie `cookie_name` equals `cookie_value` to `target_index`.
#[derive(Debug, Clone)]
pub struct CookiePolicy {
    pub cookie_name: String,
    pub cookie_value: String,
    pub target_index: usize,
}

impl CanaryPolicy for CookiePolicy {
    fn select_upstream(
        &self,
        headers: &HashMap<String, String>,
        cookies: &HashMap<String, String>,
        client_ip: &str,
        upstream_count: usize,
    ) -> (idx: usize)
        ensures
            idx == rule_pick(
                string_map_entries(*cookies),
                self.cookie_name@,
                self.cookie_value@,
                self.target_index,
                upstream_count,
            ),
    {
        pick_by_entry(cookies, &self.cookie_name, &self.cookie_value, self.target_index, upstream_count)
    }
}

} // verus!
