//! Trace identifiers and W3C trace context (`traceparent`).
//!
//! A trace id is 32 hexadecimal characters (16 bytes). A `traceparent`
//! header reads `{version}-{trace-id}-{parent-id}-{flags}`, for example
//! `00-4bf92f3577b34da6a3ce929d0e0e4736-00f067aa0ba902b7-01`.

use vstd::prelude::*;
use vstd::string::StringSliceAdditionalSpecFns;
use vstd::utf8::{encode_utf8, is_ascii_chars, is_ascii_chars_encode_utf8};

use crate::gateway_core::util::hash::{hex_digit_lower, hex_digit_lower_exec};
use crate::gateway_core::util::ids::{is_lower_hex, new_uuid_v4, uuid_simple};
use crate::gateway_core::util::text::{
    all_ascii_hexdigits, all_hex, ascii_upper, ascii_upper_seq, chars_of, is_ascii_hexdigit, is_hex_digit,
    lemma_split_concat, lemma_split_no_sep, make_ascii_uppercase, push_char, push_chars,
    split_chars, split_on, string_of_chars,
};

verus! {

fn uuid_v4_simple() -> (s: String)
    ensures
        s@.len() == 32,
        forall|i: int| 0 <= i < 32 ==> is_lower_hex(#[trigger] s@[i]),
{
    uuid_simple(&new_uuid_v4())
}

/// An upper-case hexadecimal digit.
pub open spec fn is_upper_hex(c: char) -> bool {
    ('0' <= c && c <= '9') || ('A' <= c && c <= 'F')
}

/// A trace id: upper-case hex digits.
#[derive(Debug, Clone, PartialEq, Eq)]
pub struct TraceId(pub String);

proof fn lemma_hex_is_ascii(s: Seq<char>)
    requires
        all_hex(s),
    ensures
        encode_utf8(s).len() == s.len(),
{
    assert(is_ascii_chars(s)) by {
        assert forall|i: int| 0 <= i < s.len() implies (#[trigger] s[i]) as u32 <= 127 by {
            assert(is_hex_digit(s[i]));
        }
    }
    is_ascii_chars_encode_utf8(s);
}

impl TraceId {
    /// A fresh random trace id: 32 upper-case hex digits.
    pub fn new() -> (id: Self)
        ensures
            id.0@.len() == 32,
            forall|i: int| 0 <= i < 32 ==> is_upper_hex(#[trigger] id.0@[i]),
    {
        let raw = uuid_v4_simple();
        let mut cs = chars_of(raw.as_str());
        make_ascii_uppercase(&mut cs);
        proof {
            assert forall|i: int| 0 <= i < 32 implies is_upper_hex(#[trigger] cs@[i]) by {
                assert(is_lower_hex(raw@[i]));
                assert(cs@[i] == ascii_upper(raw@[i]));
            }
        }
        TraceId(string_of_chars(&cs))
    }

    /// Parses a trace id of exactly 32 hex digits, upper-casing it.
    pub fn from_hex(s: &str) -> (r: Option<Self>)
        ensures
            r is Some <==> (s@.len() == 32 && all_hex(s@)),
            r matches Some(id) ==> id.0@ == ascii_upper_seq(s@),
    {
        let cs = chars_of(s);
        let n_chars = cs.len();
        if s.len() != 32 {
            proof {
                assert(s.spec_bytes() == encode_utf8(s@));
                if all_hex(s@) {
                    lemma_hex_is_ascii(s@);
                }
            }
            return None;
        }
        if !all_ascii_hexdigits(&cs) {
            return None;
        }
        proof {
            lemma_hex_is_ascii(s@);
            assert(s.spec_bytes() == encode_utf8(s@));
        }
        let mut up = cs;
        make_ascii_uppercase(&mut up);
        Some(TraceId(string_of_chars(&up)))
    }

    /// The id's text.
    pub fn as_str(&self) -> (s: &str)
        ensures
            s@ == self.0@,
    {
        self.0.as_str()
    }
}

impl Default for TraceId {
    /// A fresh random trace id.
    fn default() -> (id: Self)
        ensures
            id.0@.len() == 32,
            forall|i: int| 0 <= i < 32 ==> is_upper_hex(#[trigger] id.0@[i]),
    {
        Self::new()
    }
}

/// The value of one hex digit.
pub open spec fn hex_digit_value(c: char) -> nat {
    if '0' <= c && c <= '9' {
        (c as u32 - '0' as u32) as nat
    } else if 'a' <= c && c <= 'f' {
        (c as u32 - 'a' as u32 + 10) as nat
    } else {
        (c as u32 - 'A' as u32 + 10) as nat
    }
}

/// The `flags` field of a `traceparent`: exactly two hex digits (either
/// case), read as a byte.
pub open spec fn parse_hex_u8(s: Seq<char>) -> Option<u8> {
    if s.len() == 2 && all_hex(s) {
        Some((hex_digit_value(s[0]) * 16 + hex_digit_value(s[1])) as u8)
    } else {
        None
    }
}

/// The fields of a `traceparent` value: version `00`, a 32-digit trace id,
/// a 16-digit parent id and two hex digits of flags, separated by `-`.
pub open spec fn traceparent_fields(s: Seq<char>) -> Option<(Seq<char>, Seq<char>, u8)> {
    let parts = split_on(s, '-');
    if parts.len() != 4 || parts[0] != seq!['0', '0'] || parts[1].len() != 32 || !all_hex(
        parts[1],
    ) || parts[2].len() != 16 || !all_hex(parts[2]) || parse_hex_u8(parts[3]) is None {
        None
    } else {
        Some((parts[1], parts[2], parse_hex_u8(parts[3]).unwrap()))
    }
}

/// `{flags:02x}`: two lower-case hex digits.
pub open spec fn hex2_lower(b: u8) -> Seq<char> {
    seq![hex_digit_lower(b / 16), hex_digit_lower(b % 16)]
}

/// The `traceparent` text for a trace id, a parent id and flags.
pub open spec fn traceparent_text(trace_id: Seq<char>, span_id: Seq<char>, flags: u8) -> Seq<char> {
    seq!['0', '0', '-'] + trace_id + seq!['-'] + span_id + seq!['-'] + hex2_lower(flags)
}

fn hex_digit_value_exec(c: char) -> (v: u32)
    requires
        is_hex_digit(c),
    ensures
        v == hex_digit_value(c),
        v < 16,
{
    if '0' <= c && c <= '9' {
        (c as u32) - ('0' as u32)
    } else if 'a' <= c && c <= 'f' {
        (c as u32) - ('a' as u32) + 10
    } else {
        (c as u32) - ('A' as u32) + 10
    }
}

/// Parses the `flags` field: exactly two hex digits, read as a byte.
pub fn parse_hex_u8_exec(s: &Vec<char>) -> (r: Option<u8>)
    ensures
        r == parse_hex_u8(s@),
{
    if s.len() != 2 || !is_ascii_hexdigit(s[0]) || !is_ascii_hexdigit(s[1]) {
        proof {
            if s@.len() == 2 && all_hex(s@) {
                assert(is_hex_digit(s@[0]) && is_hex_digit(s@[1]));
            }
        }
        return None;
    }
    assert(all_hex(s@)) by {
        assert forall|i: int| 0 <= i < s@.len() implies is_hex_digit(#[trigger] s@[i]) by {
            if i == 0 {
                assert(is_hex_digit(s@[0]));
            } else {
                assert(is_hex_digit(s@[1]));
            }
        }
    }
    let hi = hex_digit_value_exec(s[0]);
    let lo = hex_digit_value_exec(s[1]);
    Some((hi * 16 + lo) as u8)
}

/// A W3C trace context.
#[derive(Debug, Clone)]
pub struct TraceContext {
    pub trace_id: String,
    pub span_id: String,
    pub flags: u8,
}

/// A random 16-digit lower-case hex span id.
fn generate_span_id() -> (s: String)
    ensures
        s@.len() == 16,
        forall|i: int| 0 <= i < 16 ==> is_lower_hex(#[trigger] s@[i]),
{
    let raw = uuid_v4_simple();
    let cs = chars_of(raw.as_str());
    let mut head: Vec<char> = Vec::new();
    for i in 0..16
        invariant
            cs@ == raw@,
            raw@.len() == 32,
            head@ == cs@.take(i as int),
    {
        head.push(cs[i]);
        assert(cs@.take(i + 1) =~= cs@.take(i as int).push(cs@[i as int]));
    }
    string_of_chars(&head)
}

fn traceparent_string(trace_id: &String, span_id: &String, flags: u8) -> (s: String)
    ensures
        s@ == traceparent_text(trace_id@, span_id@, flags),
{
    let mut s = String::new();
    push_char(&mut s, '0');
    push_char(&mut s, '0');
    push_char(&mut s, '-');
    push_chars(&mut s, &chars_of(trace_id.as_str()));
    push_char(&mut s, '-');
    push_chars(&mut s, &chars_of(span_id.as_str()));
    push_char(&mut s, '-');
    push_char(&mut s, hex_digit_lower_exec(flags / 16));
    push_char(&mut s, hex_digit_lower_exec(flags % 16));
    assert(s@ =~= traceparent_text(trace_id@, span_id@, flags));
    s
}

impl TraceContext {
    /// Parses a W3C `traceparent` header value.
    pub fn from_traceparent(value: &str) -> (r: Option<Self>)
        ensures
            r is Some <==> traceparent_fields(value@) is Some,
            r matches Some(ctx) ==> traceparent_fields(value@) == Some(
                (ctx.trace_id@, ctx.span_id@, ctx.flags),
            ),
    {
        let cs = chars_of(value);
        let parts = split_chars(&cs, '-');
        let ghost pv = parts.deep_view();
        if parts.len() != 4 {
            return None;
        }
        proof {
            assert(parts@[0]@ == pv[0]);
            assert(parts@[1]@ == pv[1]);
            assert(parts@[2]@ == pv[2]);
            assert(parts@[3]@ == pv[3]);
        }
        let version = &parts[0];
        if !(version.len() == 2 && version[0] == '0' && version[1] == '0') {
            assert(pv[0] != seq!['0', '0']) by {
                if pv[0] == seq!['0', '0'] {
                    assert(version@ == pv[0]);
                }
            }
            return None;
        }
        assert(version@ =~= seq!['0', '0']);
        let trace = &parts[1];
        let span = &parts[2];
        // The lengths are byte lengths; for hex digits they equal the character counts.
        if trace.len() != 32 || !all_ascii_hexdigits(trace) {
            return None;
        }
        if span.len() != 16 || !all_ascii_hexdigits(span) {
            return None;
        }
        let flags = match parse_hex_u8_exec(&parts[3]) {
            Some(f) => f,
            None => {
                return None;
            },
        };
        Some(TraceContext { trace_id: string_of_chars(trace), span_id: string_of_chars(span), flags })
    }

    /// A child context with a fresh span id, and its `traceparent` text.
    pub fn new_span(&self) -> (r: (Self, String))
        ensures
            r.0.trace_id@ == self.trace_id@,
            r.0.flags == self.flags,
            r.0.span_id@.len() == 16,
            forall|i: int| 0 <= i < 16 ==> is_lower_hex(#[trigger] r.0.span_id@[i]),
            r.1@ == traceparent_text(self.trace_id@, r.0.span_id@, self.flags),
    {
        let new_span = generate_span_id();
        let child = TraceContext {
            trace_id: self.trace_id.clone(),
            span_id: new_span.clone(),
            flags: self.flags,
        };
        let parent = traceparent_string(&self.trace_id, &new_span, self.flags);
        (child, parent)
    }

    /// A fresh root context (sampled, flags `01`) and its `traceparent` text.
    pub fn new_root() -> (r: (Self, String))
        ensures
            r.0.trace_id@.len() == 32,
            forall|i: int| 0 <= i < 32 ==> is_upper_hex(#[trigger] r.0.trace_id@[i]),
            r.0.span_id@.len() == 16,
            forall|i: int| 0 <= i < 16 ==> is_lower_hex(#[trigger] r.0.span_id@[i]),
            r.0.flags == 1,
            r.1@ == traceparent_text(r.0.trace_id@, r.0.span_id@, 1),
    {
        let trace_id = TraceId::new();
        let span_id = generate_span_id();
        let parent = traceparent_string(&trace_id.0, &span_id, 1);
        let ctx = TraceContext { trace_id: trace_id.0.clone(), span_id, flags: 1 };
        (ctx, parent)
    }

    /// The context's `traceparent` text.
    pub fn to_traceparent(&self) -> (s: String)
        ensures
            s@ == traceparent_text(self.trace_id@, self.span_id@, self.flags),
    {
        traceparent_string(&self.trace_id, &self.span_id, self.flags)
    }
}

proof fn lemma_no_dash_in_hex(s: Seq<char>)
    requires
        all_hex(s),
    ensures
        !s.contains('-'),
{
    if s.contains('-') {
        let k = choose|k: int| 0 <= k < s.len() && s[k] == '-';
        assert(is_hex_digit(s[k]));
    }
}

/// Formatting a context and parsing the text back gives the same trace id,
/// parent id and flags, for every trace id of 32 hex digits and parent id
/// of 16.
pub proof fn lemma_traceparent_roundtrip(trace_id: Seq<char>, span_id: Seq<char>, flags: u8)
    requires
        trace_id.len() == 32,
        all_hex(trace_id),
        span_id.len() == 16,
        all_hex(span_id),
    ensures
        traceparent_fields(traceparent_text(trace_id, span_id, flags)) == Some(
            (trace_id, span_id, flags),
        ),
{
    let v = seq!['0', '0'];
    let f = hex2_lower(flags);
    let text = traceparent_text(trace_id, span_id, flags);
    lemma_no_dash_in_hex(trace_id);
    lemma_no_dash_in_hex(span_id);
    assert(!v.contains('-')) by {
        if v.contains('-') {
            let k = choose|k: int| 0 <= k < v.len() && v[k] == '-';
        }
    }
    let d1 = hex_digit_lower(flags / 16);
    let d0 = hex_digit_lower(flags % 16);
    assert(!f.contains('-')) by {
        if f.contains('-') {
            let k = choose|k: int| 0 <= k < f.len() && f[k] == '-';
        }
    }
    let a = v.push('-') + trace_id;
    let b = a.push('-') + span_id;
    assert(text =~= b.push('-') + f);
    lemma_split_concat(b, f, '-');
    lemma_split_concat(a, span_id, '-');
    lemma_split_concat(v, trace_id, '-');
    lemma_split_no_sep(v, '-');
    lemma_split_no_sep(trace_id, '-');
    lemma_split_no_sep(span_id, '-');
    lemma_split_no_sep(f, '-');
    let parts = split_on(text, '-');
    assert(parts =~= seq![v, trace_id, span_id, f]);
    // The flags field parses back to the flags.
    assert(is_hex_digit(d1) && is_hex_digit(d0));
    assert(all_hex(f)) by {
        assert forall|i: int| 0 <= i < f.len() implies is_hex_digit(#[trigger] f[i]) by {
            if i == 0 {
                assert(f[i] == d1);
            } else {
                assert(f[i] == d0);
            }
        }
    }
    assert(f[0] == d1 && f[1] == d0);
    assert(hex_digit_value(d1) == flags / 16);
    assert(hex_digit_value(d0) == flags % 16);
}

/// A trace id of 32 upper-case hex digits parses back to itself.
pub proof fn lemma_trace_id_roundtrip(s: Seq<char>)
    requires
        s.len() == 32,
        forall|i: int| 0 <= i < 32 ==> is_upper_hex(#[trigger] s[i]),
    ensures
        all_hex(s),
        ascii_upper_seq(s) == s,
{
    assert forall|i: int| 0 <= i < s.len() implies is_hex_digit(#[trigger] s[i]) by {
        assert(is_upper_hex(s[i]));
    }
    assert forall|i: int| 0 <= i < s.len() implies #[trigger] ascii_upper_seq(s)[i] == s[i] by {
        assert(is_upper_hex(s[i]));
    }
    assert(ascii_upper_seq(s) =~= s);
}

} // verus!
