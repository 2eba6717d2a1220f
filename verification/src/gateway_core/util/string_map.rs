//! Access to `HashMap<String, String>` (request headers, cookies and
//! metadata), whose contents are named here by a map from key text to
//! value text.

use std::collections::HashMap;

use vstd::prelude::*;

verus! {

/// What a `HashMap<String, String>` holds, key text to value text.
pub uninterp spec fn string_map_entries(m: HashMap<String, String>) -> Map<Seq<char>, Seq<char>>;

/// Looks up a key (`HashMap::get`).
///
/// Trusted: the result is the value stored under a key equal to `key`, or
/// `None` when there is none.
#[verifier::external_body]
pub(crate) fn string_map_get<'a>(m: &'a HashMap<String, String>, key: &str) -> (r: Option<&'a String>)
    ensures
        match r {
            Some(v) => string_map_entries(*m).contains_key(key@) && v@ == string_map_entries(*m)[key@],
            None => !string_map_entries(*m).contains_key(key@),
        },
{
    m.get(key)
}

/// Stores a value under a key, replacing any value stored there (`HashMap::insert`).
///
/// Trusted: afterwards the map holds `value` under `key` and is otherwise unchanged.
#[verifier::external_body]
pub(crate) fn string_map_insert(m: &mut HashMap<String, String>, key: String, value: String)
    ensures
        string_map_entries(*final(m)) == string_map_entries(*old(m)).insert(key@, value@),
{
    m.insert(key, value);
}

} // verus!
