//! Random identifiers from the `uuid` crate.

use uuid::Uuid;
use vstd::prelude::*;

use crate::gateway_core::util::hash::{hex_digit_lower, hex_lower};

verus! {

/// A lower-case hexadecimal digit.
pub open spec fn is_lower_hex(c: char) -> bool {
    ('0' <= c && c <= '9') || ('a' <= c && c <= 'f')
}

/// The hyphenated form of a UUID: 36 characters, lower-case hex digits in
/// groups of 8-4-4-4-12 joined by `-`.
pub open spec fn is_hyphenated_uuid(s: Seq<char>) -> bool {
    &&& s.len() == 36
    &&& forall|i: int|
        0 <= i < 36 ==> (if i == 8 || i == 13 || i == 18 || i == 23 {
            s[i] == '-'
        } else {
            is_lower_hex(#[trigger] s[i])
        })
}

/// The bytes of a version-4 UUID: 16 bytes whose version nibble (the high
/// half of byte 6) is 4 and whose variant bits (the top two of byte 8) are
/// `10`.
pub open spec fn is_v4_bytes(b: Seq<u8>) -> bool {
    &&& b.len() == 16
    &&& b[6] / 16 == 4
    &&& b[8] / 64 == 2
}

/// The hyphenated text of UUID bytes: their lower-case hex, split 8-4-4-4-12
/// by `-`.
pub open spec fn uuid_hyphenated_text(b: Seq<u8>) -> Seq<char> {
    let h = hex_lower(b);
    h.subrange(0, 8) + seq!['-'] + h.subrange(8, 12) + seq!['-'] + h.subrange(12, 16) + seq!['-']
        + h.subrange(16, 20) + seq!['-'] + h.subrange(20, 32)
}

/// The bytes of a random version-4 UUID (`uuid::Uuid::new_v4`).
///
/// Trusted: the bytes are random; `new_v4` masks in the version (4) and the
/// RFC 4122 variant (uuid's `v4.rs`), which is all that is claimed.
#[verifier::external_body]
pub(crate) fn new_uuid_v4() -> (b: [u8; 16])
    ensures
        is_v4_bytes(b@),
{
    *Uuid::new_v4().as_bytes()
}

/// The simple form of a UUID (`Uuid::simple`, displayed).
///
/// Trusted: uuid's `format_simple` writes each byte as two lower-case hex
/// digits, high nibble first.
#[verifier::external_body]
pub(crate) fn uuid_simple(b: &[u8; 16]) -> (s: String)
    ensures
        s@ == hex_lower(b@),
        s@.len() == 32,
        forall|i: int| 0 <= i < 32 ==> is_lower_hex(#[trigger] s@[i]),
{
    Uuid::from_bytes(*b).simple().to_string()
}

/// The hyphenated form of a UUID (`Uuid`'s `Display`).
///
/// Trusted: `Uuid`'s `Display` writes the lower-case hyphenated form, the
/// simple form's 32 digits in groups of 8-4-4-4-12 joined by `-` (uuid's
/// `fmt.rs`, `format_hyphenated`).
#[verifier::external_body]
pub(crate) fn uuid_hyphenated(b: &[u8; 16]) -> (s: String)
    ensures
        s@ == uuid_hyphenated_text(b@),
        is_hyphenated_uuid(s@),
{
    Uuid::from_bytes(*b).to_string()
}

proof fn lemma_hex_lower_len(b: Seq<u8>)
    ensures
        hex_lower(b).len() == 2 * b.len(),
    decreases b.len(),
{
    if b.len() > 0 {
        lemma_hex_lower_len(b.drop_last());
    }
}

proof fn lemma_hex_lower_at(b: Seq<u8>, k: int)
    requires
        0 <= k < b.len(),
    ensures
        hex_lower(b).len() == 2 * b.len(),
        hex_lower(b)[2 * k] == hex_digit_lower(b[k] / 16),
        hex_lower(b)[2 * k + 1] == hex_digit_lower(b[k] % 16),
    decreases b.len(),
{
    let t = b.drop_last();
    lemma_hex_lower_len(b);
    lemma_hex_lower_len(t);
    let tail = seq![hex_digit_lower(b.last() / 16), hex_digit_lower(b.last() % 16)];
    assert(hex_lower(b) == hex_lower(t) + tail);
    if k < b.len() - 1 {
        lemma_hex_lower_at(t, k);
        assert(t[k] == b[k]);
        assert(hex_lower(b)[2 * k] == hex_lower(t)[2 * k]);
        assert(hex_lower(b)[2 * k + 1] == hex_lower(t)[2 * k + 1]);
    } else {
        assert(hex_lower(b)[2 * k] == tail[0]);
        assert(hex_lower(b)[2 * k + 1] == tail[1]);
    }
}

/// A request id made from a version-4 UUID shows its version and variant:
/// the 15th character is `4`, and the 20th is one of `8`, `9`, `a`, `b`.
/// So no id made this way is the nil UUID, nor any id lacking these marks.
pub proof fn lemma_v4_id_marks(b: Seq<u8>)
    requires
        is_v4_bytes(b),
    ensures
        uuid_hyphenated_text(b).len() == 36,
        uuid_hyphenated_text(b)[14] == '4',
        uuid_hyphenated_text(b)[19] == '8' || uuid_hyphenated_text(b)[19] == '9'
            || uuid_hyphenated_text(b)[19] == 'a' || uuid_hyphenated_text(b)[19] == 'b',
{
    let h = hex_lower(b);
    lemma_hex_lower_at(b, 6);
    lemma_hex_lower_at(b, 8);
    let s = uuid_hyphenated_text(b);
    assert(s[14] == h[12]);
    assert(s[19] == h[16]);
    assert(8 <= b[8] / 16 <= 11);
}

} // verus!
