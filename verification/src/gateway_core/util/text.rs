//! Text helpers shared by the gateway's string-processing functions.

use vstd::prelude::*;

verus! {

/// Appends one character to a `String` (`String::push`).
///
/// Trusted: the new contents are the old contents followed by `c`.
#[verifier::external_body]
pub(crate) fn push_char(s: &mut String, c: char)
    ensures
        final(s)@ == old(s)@.push(c),
{
    s.push(c)
}

/// Collects the characters of `s` into a vector.
pub fn chars_of(s: &str) -> (v: Vec<char>)
    ensures
        v@ == s@,
{
    let mut v: Vec<char> = Vec::new();
    for c in it: s.chars()
        invariant
            v@ == it.seq().take(it.index() as int),
            it.seq() == s@,
    {
        v.push(c);
    }
    v
}

/// The segments of `s` between occurrences of `sep`, as `str::split` yields
/// them (empty segments included; an empty input gives one empty segment).
pub open spec fn split_on(s: Seq<char>, sep: char) -> Seq<Seq<char>>
    decreases s.len(),
{
    if s.len() == 0 {
        seq![Seq::empty()]
    } else {
        let prev = split_on(s.drop_last(), sep);
        if s.last() == sep {
            prev.push(Seq::empty())
        } else {
            prev.update(prev.len() - 1, prev.last().push(s.last()))
        }
    }
}

pub(crate) proof fn lemma_split_nonempty(s: Seq<char>, sep: char)
    ensures
        split_on(s, sep).len() >= 1,
    decreases s.len(),
{
    if s.len() > 0 {
        lemma_split_nonempty(s.drop_last(), sep);
    }
}

pub(crate) proof fn lemma_split_concat(a: Seq<char>, b: Seq<char>, sep: char)
    ensures
        split_on(a.push(sep) + b, sep) == split_on(a, sep) + split_on(b, sep),
    decreases b.len(),
{
    lemma_split_nonempty(a, sep);
    if b.len() == 0 {
        assert(a.push(sep) + b =~= a.push(sep));
        assert(a.push(sep).drop_last() =~= a);
        assert(split_on(a, sep) + split_on(b, sep) =~= split_on(a, sep).push(Seq::empty()));
    } else {
        let b0 = b.drop_last();
        let whole = a.push(sep) + b;
        assert(whole.drop_last() =~= a.push(sep) + b0);
        assert(whole.last() == b.last());
        lemma_split_concat(a, b0, sep);
        lemma_split_nonempty(b0, sep);
        let pa = split_on(a, sep);
        let pb = split_on(b0, sep);
        if b.last() == sep {
            assert((pa + pb).push(Seq::empty()) =~= pa + pb.push(Seq::empty()));
        } else {
            let joined = pa + pb;
            assert(joined.last() == pb.last());
            assert(joined.update(joined.len() - 1, joined.last().push(b.last())) =~= pa + pb.update(
                pb.len() - 1,
                pb.last().push(b.last()),
            ));
        }
    }
}

pub(crate) proof fn lemma_split_no_sep(s: Seq<char>, sep: char)
    requires
        !s.contains(sep),
    ensures
        split_on(s, sep) == seq![s],
    decreases s.len(),
{
    if s.len() == 0 {
        assert(s =~= Seq::<char>::empty());
    } else {
        let s0 = s.drop_last();
        assert(!s0.contains(sep)) by {
            if s0.contains(sep) {
                let k = choose|k: int| 0 <= k < s0.len() && s0[k] == sep;
                assert(s[k] == sep);
            }
        }
        lemma_split_no_sep(s0, sep);
        assert(s.last() != sep) by {
            assert(s[s.len() - 1] == s.last());
        }
        assert(s0.push(s.last()) =~= s);
        assert(seq![s0].update(0, s0.push(s.last())) =~= seq![s]);
    }
}


/// Splits a character vector on `sep`, as `str::split` does.
pub fn split_chars(s: &Vec<char>, sep: char) -> (parts: Vec<Vec<char>>)
    ensures
        parts.deep_view() == split_on(s@, sep),
{
    let mut parts: Vec<Vec<char>> = Vec::new();
    let mut cur: Vec<char> = Vec::new();
    let n = s.len();
    for i in 0..n
        invariant
            n == s@.len(),
            split_on(s@.take(i as int), sep).len() >= 1,
            parts.deep_view() == split_on(s@.take(i as int), sep).drop_last(),
            cur@ == split_on(s@.take(i as int), sep).last(),
    {
        let c = s[i];
        let ghost pre = s@.take(i as int);
        let ghost sp = split_on(pre, sep);
        proof {
            assert(s@.take(i + 1).drop_last() =~= pre);
            assert(s@.take(i + 1).last() == c);
        }
        if c == sep {
            let ghost pv = parts.deep_view();
            assert(cur.deep_view() =~= cur@);
            parts.push(cur);
            cur = Vec::new();
            proof {
                assert(parts.deep_view() =~= pv.push(sp.last()));
                assert(split_on(s@.take(i + 1), sep) == sp.push(Seq::empty()));
                assert(sp.push(Seq::empty()).drop_last() =~= sp);
                assert(sp =~= sp.drop_last().push(sp.last()));
            }
        } else {
            cur.push(c);
            proof {
                let sp2 = sp.update(sp.len() - 1, sp.last().push(c));
                assert(split_on(s@.take(i + 1), sep) == sp2);
                assert(sp2.drop_last() =~= sp.drop_last());
            }
        }
    }
    let ghost pv = parts.deep_view();
    let ghost sp = split_on(s@, sep);
    assert(s@.take(n as int) =~= s@);
    assert(cur.deep_view() =~= cur@);
    parts.push(cur);
    assert(parts.deep_view() =~= pv.push(sp.last()));
    assert(sp =~= sp.drop_last().push(sp.last()));
    parts
}

/// Appends characters to a `String`.
pub(crate) fn push_chars(s: &mut String, cs: &Vec<char>)
    ensures
        final(s)@ == old(s)@ + cs@,
{
    let n = cs.len();
    for i in 0..n
        invariant
            n == cs@.len(),
            s@ == old(s)@ + cs@.take(i as int),
    {
        push_char(s, cs[i]);
        assert(cs@.take(i + 1) =~= cs@.take(i as int).push(cs@[i as int]));
    }
    assert(cs@.take(n as int) =~= cs@);
}

/// A `String` holding exactly the given characters.
pub fn string_of_chars(cs: &Vec<char>) -> (s: String)
    ensures
        s@ == cs@,
{
    let mut s = String::new();
    push_chars(&mut s, cs);
    s
}

/// ASCII hexadecimal digit: `0`-`9`, `a`-`f` or `A`-`F`.
pub open spec fn is_hex_digit(c: char) -> bool {
    ('0' <= c && c <= '9') || ('a' <= c && c <= 'f') || ('A' <= c && c <= 'F')
}

/// Every character of `s` is a hexadecimal digit.
pub open spec fn all_hex(s: Seq<char>) -> bool {
    forall|i: int| 0 <= i < s.len() ==> is_hex_digit(#[trigger] s[i])
}

/// Whether `c` is an ASCII hexadecimal digit (`char::is_ascii_hexdigit`).
pub fn is_ascii_hexdigit(c: char) -> (b: bool)
    ensures
        b == is_hex_digit(c),
{
    ('0' <= c && c <= '9') || ('a' <= c && c <= 'f') || ('A' <= c && c <= 'F')
}

/// Whether every character of `cs` is an ASCII hexadecimal digit.
pub fn all_ascii_hexdigits(cs: &Vec<char>) -> (b: bool)
    ensures
        b == all_hex(cs@),
{
    let n = cs.len();
    for i in 0..n
        invariant
            n == cs@.len(),
            forall|j: int| 0 <= j < i ==> is_hex_digit(#[trigger] cs@[j]),
    {
        if !is_ascii_hexdigit(cs[i]) {
            return false;
        }
    }
    true
}

/// The ASCII upper-case form of `c` (`char::to_ascii_uppercase`).
pub open spec fn ascii_upper(c: char) -> char {
    if 'a' <= c && c <= 'z' {
        ((c as u32) - 32) as char
    } else {
        c
    }
}

/// The ASCII upper-case form of every character of `s`.
pub open spec fn ascii_upper_seq(s: Seq<char>) -> Seq<char> {
    s.map_values(|c: char| ascii_upper(c))
}

/// Upper-cases the ASCII letters of `cs` in place.
pub fn make_ascii_uppercase(cs: &mut Vec<char>)
    ensures
        final(cs)@ == ascii_upper_seq(old(cs)@),
{
    let n = cs.len();
    for i in 0..n
        invariant
            n == cs@.len(),
            forall|j: int| 0 <= j < i ==> cs@[j] == ascii_upper(#[trigger] old(cs)@[j]),
            forall|j: int| i <= j < n ==> cs@[j] == old(cs)@[j],
    {
        let c = cs[i];
        if 'a' <= c && c <= 'z' {
            let u = ((c as u8) - 32) as char;
            assert(u == ascii_upper(c)) by {
                assert((c as u8) as u32 == c as u32);
            }
            cs.set(i, u);
        }
    }
    assert(cs@ =~= ascii_upper_seq(old(cs)@));
}

/// The ASCII lower-case form of `c` (`char::to_ascii_lowercase`).
pub open spec fn ascii_lower(c: char) -> char {
    if 'A' <= c && c <= 'Z' {
        ((c as u32) + 32) as char
    } else {
        c
    }
}

/// The ASCII lower-case form of every character of `s`.
pub open spec fn ascii_lower_seq(s: Seq<char>) -> Seq<char> {
    s.map_values(|c: char| ascii_lower(c))
}

/// Lower-cases the ASCII letters of `cs` in place.
pub fn make_ascii_lowercase(cs: &mut Vec<char>)
    ensures
        final(cs)@ == ascii_lower_seq(old(cs)@),
{
    let n = cs.len();
    for i in 0..n
        invariant
            n == cs@.len(),
            forall|j: int| 0 <= j < i ==> cs@[j] == ascii_lower(#[trigger] old(cs)@[j]),
            forall|j: int| i <= j < n ==> cs@[j] == old(cs)@[j],
    {
        let c = cs[i];
        if 'A' <= c && c <= 'Z' {
            let l = ((c as u8) + 32) as char;
            assert(l == ascii_lower(c)) by {
                assert((c as u8) as u32 == c as u32);
            }
            cs.set(i, l);
        }
    }
    assert(cs@ =~= ascii_lower_seq(old(cs)@));
}

/// Whether `cs` holds exactly the characters of `lit`.
pub fn chars_eq_str(cs: &Vec<char>, lit: &str) -> (b: bool)
    ensures
        b == (cs@ == lit@),
{
    let other = chars_of(lit);
    if cs.len() != other.len() {
        return false;
    }
    let n = cs.len();
    for i in 0..n
        invariant
            n == cs@.len(),
            n == other@.len(),
            other@ == lit@,
            forall|j: int| 0 <= j < i ==> cs@[j] == other@[j],
    {
        if cs[i] != other[i] {
            return false;
        }
    }
    assert(cs@ =~= other@);
    true
}

} // verus!
