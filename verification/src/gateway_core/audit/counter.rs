//! Token counting from SSE chunks.
//!
//! A chunk is split into lines; each line's payload (after an optional
//! `data: ` prefix) other than `[DONE]` is a JSON document that may carry a
//! `usage` block. Decoding the JSON happens outside the core; the counter
//! adds up what it is handed.

use vstd::prelude::*;

use crate::gateway_core::util::text::{chars_of, split_chars, split_on, string_of_chars};

verus! {

/// Running token counts of a response.
#[derive(Debug, Default)]
pub struct TokenCounter {
    pub prompt_tokens: u64,
    pub completion_tokens: u64,
}

/// `a + b`, capped at `u64::MAX`.
pub open spec fn sat_add(a: u64, b: u64) -> u64 {
    if a + b > u64::MAX {
        u64::MAX
    } else {
        (a + b) as u64
    }
}

/// The lines of `s` as `str::lines` gives them: split at `\n`, a final empty
/// piece dropped, and a `\r` before a `\n` removed.
pub open spec fn text_lines(s: Seq<char>) -> Seq<Seq<char>> {
    let pieces = split_on(s, '\n');
    let body = if pieces.last().len() == 0 {
        pieces.drop_last()
    } else {
        pieces
    };
    Seq::new(
        body.len(),
        |i: int|
            if i < pieces.len() - 1 && body[i].len() > 0 && body[i].last() == '\r' {
                body[i].drop_last()
            } else {
                body[i]
            },
    )
}

/// The payload of an SSE line: the text after `data: `, or the whole line.
pub open spec fn sse_payload(line: Seq<char>) -> Seq<char> {
    let prefix = "data: "@;
    if line.len() >= prefix.len() && line.take(prefix.len() as int) == prefix {
        line.skip(prefix.len() as int)
    } else {
        line
    }
}

/// The payloads of a chunk that can carry usage: every line's payload but `[DONE]`.
pub open spec fn sse_payloads(chunk: Seq<char>) -> Seq<Seq<char>> {
    text_lines(chunk).map_values(|l: Seq<char>| sse_payload(l)).filter(
        |p: Seq<char>| p != "[DONE]"@,
    )
}

impl TokenCounter {
    /// A counter at zero.
    pub fn new() -> (c: Self)
        ensures
            c.prompt_tokens == 0,
            c.completion_tokens == 0,
    {
        TokenCounter { prompt_tokens: 0, completion_tokens: 0 }
    }

    /// Adds one usage block, saturating at `u64::MAX`.
    pub fn add_usage(&mut self, prompt_tokens: u64, completion_tokens: u64)
        ensures
            final(self).prompt_tokens == sat_add(old(self).prompt_tokens, prompt_tokens),
            final(self).completion_tokens == sat_add(old(self).completion_tokens, completion_tokens),
    {
        self.prompt_tokens = self.prompt_tokens.saturating_add(prompt_tokens);
        self.completion_tokens = self.completion_tokens.saturating_add(completion_tokens);
    }

    /// All tokens, saturating at `u64::MAX`.
    pub fn total(&self) -> (t: u64)
        ensures
            t == sat_add(self.prompt_tokens, self.completion_tokens),
    {
        self.prompt_tokens.saturating_add(self.completion_tokens)
    }
}

fn payload_of(line: &Vec<char>) -> (p: Vec<char>)
    ensures
        p@ == sse_payload(line@),
{
    let prefix: Vec<char> = vec!['d', 'a', 't', 'a', ':', ' '];
    proof {
        reveal_strlit("data: ");
        assert(prefix@ =~= "data: "@);
    }
    let n = line.len();
    if n < 6 {
        let same = line.clone();
        assert(same@ =~= line@);
        return same;
    }
    let mut i: usize = 0;
    while i < 6
        invariant
            i <= 6,
            n == line@.len(),
            n >= 6,
            prefix@ == "data: "@,
            prefix@.len() == 6,
            forall|j: int| 0 <= j < i ==> line@[j] == prefix@[j],
        decreases 6 - i,
    {
        if line[i] != prefix[i] {
            assert(line@.take(6) != "data: "@) by {
                assert(line@.take(6)[i as int] != prefix@[i as int]);
            }
            let same = line.clone();
            assert(same@ =~= line@);
            return same;
        }
        i = i + 1;
    }
    assert(line@.take(6) =~= "data: "@);
    let mut out: Vec<char> = Vec::new();
    let mut k: usize = 6;
    while k < n
        invariant
            6 <= k <= n,
            n == line@.len(),
            out@ == line@.subrange(6, k as int),
        decreases n - k,
    {
        out.push(line[k]);
        k = k + 1;
        assert(out@ =~= line@.subrange(6, k as int));
    }
    assert(out@ =~= line@.skip(6));
    out
}

fn is_done_marker(p: &Vec<char>) -> (b: bool)
    ensures
        b == (p@ == "[DONE]"@),
{
    proof {
        reveal_strlit("[DONE]");
    }
    let r = p.len() == 6 && p[0] == '[' && p[1] == 'D' && p[2] == 'O' && p[3] == 'N' && p[4] == 'E'
        && p[5] == ']';
    proof {
        if r {
            assert(p@ =~= "[DONE]"@);
        } else if p@ == "[DONE]"@ {
            assert(p@[0] == '[');
        }
    }
    r
}

/// The payloads of an SSE chunk that can carry usage data: for each line
/// (as `str::lines` splits them), the text after a `data: ` prefix, skipping
/// `[DONE]`.
pub fn sse_payloads_of(chunk: &str) -> (out: Vec<String>)
    ensures
        out@.map_values(|s: String| s@) == sse_payloads(chunk@),
{
    let cs = chars_of(chunk);
    let pieces = split_chars(&cs, '\n');
    let ghost pv = split_on(chunk@, '\n');
    assert(pieces.deep_view() == pv);
    let np = pieces.len();
    let count = if np > 0 && pieces[np - 1].len() == 0 {
        np - 1
    } else {
        np
    };
    proof {
        if np > 0 {
            assert(pieces@[np - 1]@ == pv[np - 1]);
        }
        crate::gateway_core::util::text::lemma_split_nonempty(chunk@, '\n');
    }
    let ghost lines = text_lines(chunk@);
    assert(lines.len() == count);
    let ghost pred = |p: Seq<char>| p != "[DONE]"@;
    let ghost mapped = lines.map_values(|l: Seq<char>| sse_payload(l));
    let mut out: Vec<String> = Vec::new();
    for i in 0..count
        invariant
            count == lines.len(),
            np == pv.len(),
            count <= np,
            pieces.deep_view() == pv,
            lines == text_lines(chunk@),
            pv == split_on(chunk@, '\n'),
            mapped == lines.map_values(|l: Seq<char>| sse_payload(l)),
            pred == (|p: Seq<char>| p != "[DONE]"@),
            out@.map_values(|s: String| s@) == mapped.take(i as int).filter(pred),
    {
        let piece = &pieces[i];
        assert(piece@ == pv[i as int]);
        let m = piece.len();
        let line: Vec<char> = if i + 1 < np && m > 0 && piece[m - 1] == '\r' {
            let mut l = piece.clone();
            l.pop();
            assert(l@ =~= piece@.drop_last());
            l
        } else {
            piece.clone()
        };
        proof {
            let body = if pv.last().len() == 0 { pv.drop_last() } else { pv };
            assert(body[i as int] == pv[i as int]);
            assert(line@ == lines[i as int]);
            reveal_with_fuel(Seq::<_>::filter, 1);
            assert(mapped.take(i + 1).drop_last() =~= mapped.take(i as int));
        }
        let payload = payload_of(&line);
        if !is_done_marker(&payload) {
            let ghost before = out@.map_values(|s: String| s@);
            out.push(string_of_chars(&payload));
            assert(out@.map_values(|s: String| s@) =~= before.push(payload@));
        }
    }
    assert(mapped.take(count as int) =~= mapped);
    out
}

} // verus!
