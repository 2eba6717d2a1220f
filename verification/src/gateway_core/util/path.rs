//! Path normalisation.
//!
//! Collapses repeated `/`, resolves `.` and `..` segments without ever
//! climbing above the root, keeps a leading `/`, and drops a trailing one.

use vstd::prelude::*;

use crate::gateway_core::util::text::{
    chars_of, lemma_split_concat, lemma_split_no_sep, lemma_split_nonempty, push_char, split_on,
};

verus! {

/// The segment `..`.
pub open spec fn is_parent(seg: Seq<char>) -> bool {
    seg == seq!['.', '.']
}

/// A segment that normalisation skips: empty or `.`.
pub open spec fn is_skipped(seg: Seq<char>) -> bool {
    seg.len() == 0 || seg == seq!['.']
}

/// One step of segment resolution on the stack of kept segments.
pub open spec fn resolve_step(stack: Seq<Seq<char>>, seg: Seq<char>) -> Seq<Seq<char>> {
    if is_skipped(seg) {
        stack
    } else if is_parent(seg) {
        if stack.len() > 0 {
            stack.drop_last()
        } else {
            stack
        }
    } else {
        stack.push(seg)
    }
}

/// Resolves `segs` left to right, starting from the stack `stack`.
pub open spec fn resolve_from(stack: Seq<Seq<char>>, segs: Seq<Seq<char>>) -> Seq<Seq<char>>
    decreases segs.len(),
{
    if segs.len() == 0 {
        stack
    } else {
        resolve_step(resolve_from(stack, segs.drop_last()), segs.last())
    }
}

/// `segs` joined with `sep` between neighbours.
pub open spec fn join_with(segs: Seq<Seq<char>>, sep: char) -> Seq<char>
    decreases segs.len(),
{
    if segs.len() == 0 {
        Seq::empty()
    } else if segs.len() == 1 {
        segs[0]
    } else {
        join_with(segs.drop_last(), sep).push(sep) + segs.last()
    }
}

/// Whether `s` starts with `/`.
pub open spec fn has_leading_slash(s: Seq<char>) -> bool {
    s.len() > 0 && s[0] == '/'
}

/// The normalised form of `s`: the kept segments joined by `/`, behind a
/// `/` when `s` starts with one; `/` when that would be empty.
pub open spec fn normalized(s: Seq<char>) -> Seq<char> {
    let kept = resolve_from(Seq::empty(), split_on(s, '/'));
    let body = if has_leading_slash(s) {
        seq!['/'] + join_with(kept, '/')
    } else {
        join_with(kept, '/')
    };
    if body.len() == 0 {
        seq!['/']
    } else {
        body
    }
}

/// A segment that normalisation keeps as it is.
pub open spec fn is_clean_segment(seg: Seq<char>) -> bool {
    &&& !is_skipped(seg)
    &&& !is_parent(seg)
    &&& !seg.contains('/')
}




proof fn lemma_split_segments_free_of_sep(s: Seq<char>, sep: char)
    ensures
        forall|i: int|
            0 <= i < split_on(s, sep).len() ==> !(#[trigger] split_on(s, sep)[i]).contains(sep),
    decreases s.len(),
{
    if s.len() > 0 {
        let s0 = s.drop_last();
        lemma_split_segments_free_of_sep(s0, sep);
        lemma_split_nonempty(s0, sep);
        let prev = split_on(s0, sep);
        if s.last() != sep {
            let seg = prev.last().push(s.last());
            assert(!seg.contains(sep)) by {
                if seg.contains(sep) {
                    let k = choose|k: int| 0 <= k < seg.len() && seg[k] == sep;
                    if k < prev.last().len() {
                        assert(prev[prev.len() - 1][k] == sep);
                        assert(prev[prev.len() - 1].contains(sep));
                    }
                }
            }
            assert forall|i: int| 0 <= i < split_on(s, sep).len() implies !(
            #[trigger] split_on(s, sep)[i]).contains(sep) by {
                if i < prev.len() - 1 {
                    assert(split_on(s, sep)[i] == prev[i]);
                }
            }
        } else {
            assert forall|i: int| 0 <= i < split_on(s, sep).len() implies !(
            #[trigger] split_on(s, sep)[i]).contains(sep) by {
                if i < prev.len() {
                    assert(split_on(s, sep)[i] == prev[i]);
                } else {
                    assert(split_on(s, sep)[i] =~= Seq::<char>::empty());
                }
            }
        }
    }
}

proof fn lemma_split_join(segs: Seq<Seq<char>>, sep: char)
    requires
        segs.len() >= 1,
        forall|i: int| 0 <= i < segs.len() ==> !(#[trigger] segs[i]).contains(sep),
    ensures
        split_on(join_with(segs, sep), sep) == segs,
    decreases segs.len(),
{
    if segs.len() == 1 {
        lemma_split_no_sep(segs[0], sep);
        assert(seq![segs[0]] =~= segs);
    } else {
        let init = segs.drop_last();
        assert forall|i: int| 0 <= i < init.len() implies !(#[trigger] init[i]).contains(sep) by {
            assert(init[i] == segs[i]);
        }
        lemma_split_join(init, sep);
        assert(!segs.last().contains(sep)) by {
            assert(segs[segs.len() - 1] == segs.last());
        }
        lemma_split_concat(join_with(init, sep), segs.last(), sep);
        lemma_split_no_sep(segs.last(), sep);
        assert(init + seq![segs.last()] =~= segs);
    }
}

proof fn lemma_resolve_concat(stack: Seq<Seq<char>>, x: Seq<Seq<char>>, y: Seq<Seq<char>>)
    ensures
        resolve_from(stack, x + y) == resolve_from(resolve_from(stack, x), y),
    decreases y.len(),
{
    if y.len() == 0 {
        assert(x + y =~= x);
    } else {
        assert((x + y).drop_last() =~= x + y.drop_last());
        assert((x + y).last() == y.last());
        lemma_resolve_concat(stack, x, y.drop_last());
    }
}

proof fn lemma_resolve_clean(stack: Seq<Seq<char>>, segs: Seq<Seq<char>>)
    requires
        forall|i: int| 0 <= i < segs.len() ==> is_clean_segment(#[trigger] segs[i]),
    ensures
        resolve_from(stack, segs) == stack + segs,
    decreases segs.len(),
{
    if segs.len() == 0 {
        assert(stack + segs =~= stack);
    } else {
        let init = segs.drop_last();
        assert forall|i: int| 0 <= i < init.len() implies is_clean_segment(#[trigger] init[i]) by {
            assert(init[i] == segs[i]);
        }
        lemma_resolve_clean(stack, init);
        assert(is_clean_segment(segs[segs.len() - 1]));
        assert((stack + init).push(segs.last()) =~= stack + segs);
    }
}

proof fn lemma_resolve_keeps_clean(stack: Seq<Seq<char>>, segs: Seq<Seq<char>>, sep: char)
    requires
        sep == '/',
        forall|i: int| 0 <= i < stack.len() ==> is_clean_segment(#[trigger] stack[i]),
        forall|i: int| 0 <= i < segs.len() ==> !(#[trigger] segs[i]).contains(sep),
    ensures
        forall|i: int|
            0 <= i < resolve_from(stack, segs).len() ==> is_clean_segment(
                #[trigger] resolve_from(stack, segs)[i],
            ),
    decreases segs.len(),
{
    if segs.len() > 0 {
        let init = segs.drop_last();
        assert forall|i: int| 0 <= i < init.len() implies !(#[trigger] init[i]).contains(sep) by {
            assert(init[i] == segs[i]);
        }
        lemma_resolve_keeps_clean(stack, init, sep);
        let r = resolve_from(stack, init);
        let seg = segs.last();
        assert(!seg.contains(sep)) by {
            assert(segs[segs.len() - 1] == seg);
        }
        let r2 = resolve_step(r, seg);
        assert forall|i: int| 0 <= i < r2.len() implies is_clean_segment(#[trigger] r2[i]) by {
            if i < r.len() {
                assert(r2[i] == r[i]);
            }
        }
    }
}

proof fn lemma_join_empty_iff(segs: Seq<Seq<char>>, sep: char)
    requires
        forall|i: int| 0 <= i < segs.len() ==> (#[trigger] segs[i]).len() > 0,
    ensures
        (join_with(segs, sep).len() == 0) <==> (segs.len() == 0),
    decreases segs.len(),
{
    if segs.len() == 1 {
        assert(segs[0].len() > 0);
    } else if segs.len() > 1 {
        let init = segs.drop_last();
        assert forall|i: int| 0 <= i < init.len() implies (#[trigger] init[i]).len() > 0 by {
            assert(init[i] == segs[i]);
        }
        lemma_join_empty_iff(init, sep);
    }
}

proof fn lemma_join_first_char(segs: Seq<Seq<char>>, sep: char)
    requires
        segs.len() >= 1,
        segs[0].len() > 0,
    ensures
        join_with(segs, sep).len() > 0,
        join_with(segs, sep)[0] == segs[0][0],
    decreases segs.len(),
{
    if segs.len() > 1 {
        let init = segs.drop_last();
        lemma_join_first_char(init, sep);
    }
}

/// The output of `normalized` is its own normal form: normalising twice
/// gives what normalising once gives.
pub proof fn lemma_normalized_idempotent(s: Seq<char>)
    ensures
        normalized(normalized(s)) == normalized(s),
{
    let kept = resolve_from(Seq::empty(), split_on(s, '/'));
    lemma_split_segments_free_of_sep(s, '/');
    lemma_resolve_keeps_clean(Seq::empty(), split_on(s, '/'), '/');
    assert forall|i: int| 0 <= i < kept.len() implies (#[trigger] kept[i]).len() > 0 by {
        assert(is_clean_segment(kept[i]));
    }
    assert forall|i: int| 0 <= i < kept.len() implies !(#[trigger] kept[i]).contains('/') by {
        assert(is_clean_segment(kept[i]));
    }
    lemma_join_empty_iff(kept, '/');
    let j = join_with(kept, '/');
    let out = normalized(s);
    if kept.len() == 0 {
        // The output is "/".
        assert(out =~= seq!['/']);
        let e = Seq::<char>::empty();
        assert(seq!['/'] =~= e.push('/') + e);
        lemma_split_concat(e, e, '/');
        assert(split_on(seq!['/'], '/') =~= seq![e, e]);
        assert(resolve_from(Seq::empty(), seq![e, e]) =~= Seq::<Seq<char>>::empty()) by {
            reveal_with_fuel(resolve_from, 3);
            assert(seq![e, e].drop_last() =~= seq![e]);
            assert(seq![e].drop_last() =~= Seq::<Seq<char>>::empty());
            assert(is_skipped(e));
        }
        assert(has_leading_slash(out));
        assert(join_with(Seq::<Seq<char>>::empty(), '/') =~= Seq::<char>::empty());
    } else {
        lemma_split_join(kept, '/');
        lemma_resolve_clean(Seq::empty(), kept);
        assert(Seq::<Seq<char>>::empty() + kept =~= kept);
        lemma_join_first_char(kept, '/');
        assert(kept[0][0] != '/') by {
            assert(!kept[0].contains('/'));
        }
        if has_leading_slash(s) {
            assert(out =~= seq!['/'] + j);
            let e = Seq::<char>::empty();
            assert(seq!['/'] + j =~= e.push('/') + j);
            lemma_split_concat(e, j, '/');
            assert(split_on(e, '/') =~= seq![e]);
            assert(split_on(out, '/') =~= seq![e] + kept);
            lemma_resolve_concat(Seq::empty(), seq![e], kept);
            assert(seq![e].drop_last() =~= Seq::<Seq<char>>::empty());
            assert(resolve_from(Seq::empty(), seq![e]) =~= Seq::<Seq<char>>::empty()) by {
                reveal_with_fuel(resolve_from, 2);
                assert(is_skipped(e));
            }
            assert(has_leading_slash(out));
        } else {
            assert(out =~= j);
            assert(!has_leading_slash(out));
        }
    }
}

/// Whether `seg` is `.` or empty.
fn seg_is_skipped(seg: &Vec<char>) -> (b: bool)
    ensures
        b == is_skipped(seg@),
{
    if seg.len() == 0 {
        true
    } else if seg.len() == 1 {
        let r = seg[0] == '.';
        assert(r ==> seg@ =~= seq!['.']);
        r
    } else {
        false
    }
}

fn seg_is_parent(seg: &Vec<char>) -> (b: bool)
    ensures
        b == is_parent(seg@),
{
    if seg.len() == 2 {
        let r = seg[0] == '.' && seg[1] == '.';
        assert(r ==> seg@ =~= seq!['.', '.']);
        r
    } else {
        false
    }
}

fn apply_step(stack: &mut Vec<Vec<char>>, seg: Vec<char>)
    ensures
        final(stack).deep_view() == resolve_step(old(stack).deep_view(), seg@),
{
    let ghost old_view = stack.deep_view();
    if seg_is_skipped(&seg) {
    } else if seg_is_parent(&seg) {
        if stack.len() > 0 {
            stack.pop();
            assert(stack.deep_view() =~= old_view.drop_last());
        }
    } else {
        assert(seg.deep_view() =~= seg@);
        stack.push(seg);
        assert(stack.deep_view() =~= old_view.push(seg@));
    }
}

/// Normalises a path: handles `.`, `..` and repeated `/`.
///
/// `..` at the root is dropped, a leading `/` is kept, a trailing `/` is
/// removed, and a path that resolves to nothing becomes `/`.
pub fn normalize(input: &str) -> (out: String)
    ensures
        out@ == normalized(input@),
{
    let chars = chars_of(input);
    let n = chars.len();
    let mut stack: Vec<Vec<char>> = Vec::new();
    let mut cur: Vec<char> = Vec::new();
    for i in 0..n
        invariant
            n == chars@.len(),
            chars@ == input@,
            split_on(chars@.take(i as int), '/').len() >= 1,
            stack.deep_view() == resolve_from(
                Seq::empty(),
                split_on(chars@.take(i as int), '/').drop_last(),
            ),
            cur@ == split_on(chars@.take(i as int), '/').last(),
    {
        let c = chars[i];
        let ghost pre = chars@.take(i as int);
        proof {
            assert(chars@.take(i + 1).drop_last() =~= pre);
            assert(chars@.take(i + 1).last() == c);
        }
        if c == '/' {
            let seg = cur;
            cur = Vec::new();
            apply_step(&mut stack, seg);
            proof {
                let sp = split_on(pre, '/');
                assert(split_on(chars@.take(i + 1), '/') == sp.push(Seq::empty()));
                assert(sp.push(Seq::empty()).drop_last() =~= sp);
                assert(sp =~= sp.drop_last().push(sp.last()));
            }
        } else {
            cur.push(c);
            proof {
                let sp = split_on(pre, '/');
                let sp2 = sp.update(sp.len() - 1, sp.last().push(c));
                assert(split_on(chars@.take(i + 1), '/') == sp2);
                assert(sp2.drop_last() =~= sp.drop_last());
            }
        }
    }
    let ghost segs = split_on(chars@, '/');
    proof {
        assert(chars@.take(n as int) =~= chars@);
        assert(segs =~= segs.drop_last().push(segs.last()));
    }
    apply_step(&mut stack, cur);
    let ghost kept = stack.deep_view();
    assert(kept == resolve_from(Seq::empty(), segs));
    let mut result = String::new();
    let leading = n > 0 && chars[0] == '/';
    if leading {
        push_char(&mut result, '/');
    }
    let ghost prefix = result@;
    let m = stack.len();
    for k in 0..m
        invariant
            m == stack.len(),
            kept == stack.deep_view(),
            result@ == prefix + join_with(kept.take(k as int), '/'),
    {
        let seg = &stack[k];
        proof {
            assert(kept[k as int] == seg@);
        }
        if k > 0 {
            push_char(&mut result, '/');
        }
        let ghost before = result@;
        let sl = seg.len();
        for j in 0..sl
            invariant
                sl == seg@.len(),
                result@ == before + seg@.take(j as int),
        {
            push_char(&mut result, seg[j]);
            assert(seg@.take(j + 1) =~= seg@.take(j as int).push(seg@[j as int]));
        }
        proof {
            assert(seg@.take(sl as int) =~= seg@);
            let t = kept.take(k + 1);
            assert(t.drop_last() =~= kept.take(k as int));
            assert(t.last() == seg@);
            if k == 0 {
                assert(join_with(kept.take(0), '/') =~= Seq::<char>::empty());
                assert(join_with(t, '/') == t[0]);
            }
        }
    }
    proof {
        assert(kept.take(m as int) =~= kept);
    }
    if result.as_str().is_empty() {
        let mut root = String::new();
        push_char(&mut root, '/');
        assert(root@ =~= seq!['/']);
        return root;
    }
    result
}

} // verus!
