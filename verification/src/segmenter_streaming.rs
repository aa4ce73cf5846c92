//! Streaming does not change the segmentation: however the input is cut into
//! chunks, the segments returned, with adjacent text merged, are those of the
//! whole input pushed at once.

use vstd::prelude::*;

use crate::segment::{SegmentKind, SegmentView, SegmenterConfig};
use crate::segmenter_laws::{feed, joined, stream_segments};
use crate::segmenter_model::{
    SegmenterModel, ModeModel, push_segment, flush_text, text_segment, model_inv, step,
    lemma_step_ok, process_loop, process_text, process, push, finish, initial, rem_of, append_text,
};
use crate::text::{lemma_utf8_len_concat, utf8_len};

verus! {

// ---------------------------------------------------------------------------
// Merging adjacent text.

/// Segments pushed one by one after `o`, each merged into a directly preceding
/// text segment when both are text.
pub open spec fn pushes(o: Seq<SegmentView>, s: Seq<SegmentView>) -> Seq<SegmentView>
    decreases s.len(),
{
    if s.len() == 0 {
        o
    } else {
        push_segment(pushes(o, s.drop_last()), s.last())
    }
}

/// Segments with every run of adjacent text segments merged into one.
pub open spec fn merged(s: Seq<SegmentView>) -> Seq<SegmentView> {
    pushes(Seq::empty(), s)
}

/// Two adjacent text segments as one.
pub open spec fn join_text(a: SegmentView, b: SegmentView) -> SegmentView {
    SegmentView { kind: SegmentKind::Text, source: a.source + b.source, content: a.content + b.content, start: a.start, end: b.end }
}

proof fn lemma_pushes_concat(o: Seq<SegmentView>, a: Seq<SegmentView>, b: Seq<SegmentView>)
    ensures
        pushes(o, a + b) == pushes(pushes(o, a), b),
    decreases b.len(),
{
    if b.len() == 0 {
        assert(a + b =~= a);
    } else {
        lemma_pushes_concat(o, a, b.drop_last());
        assert((a + b).drop_last() =~= a + b.drop_last());
        assert((a + b).last() == b.last());
    }
}

proof fn lemma_push_join(p: Seq<SegmentView>, a: SegmentView, b: SegmentView)
    requires
        a.kind == SegmentKind::Text,
        b.kind == SegmentKind::Text,
        a.end == b.start,
    ensures
        push_segment(push_segment(p, a), b) == push_segment(p, join_text(a, b)),
{
    let q = push_segment(p, a);
    if p.len() > 0 && p.last().kind == SegmentKind::Text && p.last().end == a.start {
        let l = p.last();
        assert(q.last() == join_text(l, a));
        assert(q.drop_last() =~= p.drop_last());
        assert(join_text(join_text(l, a), b) =~= join_text(l, join_text(a, b)));
    } else {
        assert(q == p.push(a));
        assert(q.drop_last() =~= p);
        assert(q.last() == a);
    }
}

proof fn lemma_pushes_push(o: Seq<SegmentView>, z: Seq<SegmentView>, s: SegmentView)
    ensures
        pushes(o, push_segment(z, s)) == push_segment(pushes(o, z), s),
{
    if z.len() > 0 && z.last().kind == SegmentKind::Text && s.kind == SegmentKind::Text && z.last().end == s.start {
        let y = push_segment(z, s);
        assert(y.drop_last() =~= z.drop_last());
        assert(y.last() == join_text(z.last(), s));
        lemma_push_join(pushes(o, z.drop_last()), z.last(), s);
    } else {
        let y = push_segment(z, s);
        assert(y.drop_last() =~= z);
    }
}

/// Pushing already merged segments is pushing the segments themselves.
proof fn lemma_pushes_pushes(o: Seq<SegmentView>, p: Seq<SegmentView>, y: Seq<SegmentView>)
    ensures
        pushes(o, pushes(p, y)) == pushes(pushes(o, p), y),
    decreases y.len(),
{
    if y.len() > 0 {
        lemma_pushes_pushes(o, p, y.drop_last());
        lemma_pushes_push(o, pushes(p, y.drop_last()), y.last());
    }
}

// ---------------------------------------------------------------------------
// What a step emits does not depend on what was emitted before.

proof fn lemma_push_single(out: Seq<SegmentView>, x: SegmentView)
    ensures
        push_segment(Seq::empty(), x) == seq![x],
        pushes(out, seq![x]) == push_segment(out, x),
        pushes(out, Seq::<SegmentView>::empty()) == out,
{
    assert(push_segment(Seq::<SegmentView>::empty(), x) =~= seq![x]);
    assert(seq![x].drop_last() =~= Seq::<SegmentView>::empty());
    assert(seq![x].last() == x);
    assert(pushes(out, seq![x].drop_last()) == out);
}

proof fn lemma_flush_out(m: SegmenterModel, out: Seq<SegmentView>)
    ensures
        flush_text(m, out).0 == flush_text(m, Seq::empty()).0,
        flush_text(m, out).1 == pushes(out, flush_text(m, Seq::empty()).1),
{
    if m.text.len() > 0 {
        let start = match m.text_start {
            Some(s) => s,
            None => m.offset - utf8_len(m.text),
        };
        lemma_push_single(out, text_segment(m.text, start, m.offset));
    } else {
        lemma_push_single(out, text_segment(m.text, 0, 0));
    }
}

/// A step's decision and state do not depend on the segments emitted before it, and
/// what it emits is pushed after them.
proof fn lemma_step_out(m: SegmenterModel, rem: Seq<char>, finishing: bool, out: Seq<SegmentView>)
    requires
        rem.len() > 0,
    ensures
        ({
            let s = step(m, rem, finishing, Seq::empty());
            let t = step(m, rem, finishing, out);
            t.0 == s.0 && t.1 == s.1 && t.2 == s.2 && t.3 == pushes(out, s.3)
        }),
{
    lemma_flush_out(m, out);
    lemma_push_single(out, text_segment(m.text, 0, 0));
    let mt = SegmenterModel { mode: ModeModel::Text, ..m };
    match m.mode {
        ModeModel::Text => {},
        ModeModel::Math(c) => {
            let closer = rem.take(1);
            assert forall|x: SegmentView| pushes(out, push_segment(Seq::empty(), x)) == push_segment(out, x) by {
                lemma_push_single(out, x);
            }
        },
        ModeModel::Code(c) => {
            assert forall|x: SegmentView| pushes(out, push_segment(Seq::empty(), x)) == push_segment(out, x) by {
                lemma_push_single(out, x);
            }
        },
    }
}

/// The parsing loop's decisions and state do not depend on the segments emitted
/// before it, and what it emits is pushed after them.
pub(crate) proof fn lemma_loop_out(m: SegmenterModel, input: Seq<char>, cursor: int, finishing: bool, out: Seq<SegmentView>)
    ensures
        ({
            let s = process_loop(m, input, cursor, finishing, Seq::empty());
            let t = process_loop(m, input, cursor, finishing, out);
            t.0 == s.0 && t.2 == s.2 && t.1 == pushes(out, s.1)
        }),
    decreases input.len() - cursor,
{
    lemma_push_single(out, text_segment(Seq::empty(), 0, 0));
    if 0 <= cursor < input.len() {
        let rem = input.subrange(cursor, input.len() as int);
        lemma_step_out(m, rem, finishing, out);
        let (cont, n, m1, e) = step(m, rem, finishing, Seq::empty());
        if cont && n > 0 && cursor + n <= input.len() {
            lemma_loop_out(m1, input, cursor + n, finishing, e);
            lemma_loop_out(m1, input, cursor + n, finishing, pushes(out, e));
            let r = process_loop(m1, input, cursor + n, finishing, Seq::empty()).1;
            lemma_pushes_pushes(out, e, r);
        }
    }
}

// ---------------------------------------------------------------------------
// A step that makes progress does not change when more input follows.

proof fn lemma_prefix_extends(p: Seq<char>, rem: Seq<char>, more: Seq<char>)
    ensures
        p.is_prefix_of(rem) ==> p.is_prefix_of(rem + more),
        p.len() <= rem.len() && p.is_prefix_of(rem + more) ==> p.is_prefix_of(rem),
        p.len() > rem.len() && p.is_prefix_of(rem + more) ==> rem.is_prefix_of(p),
        (rem + more).is_prefix_of(p) ==> rem.is_prefix_of(p),
{
    if p.is_prefix_of(rem) {
        assert((rem + more).subrange(0, p.len() as int) =~= rem.subrange(0, p.len() as int));
    }
    if p.len() <= rem.len() && p.is_prefix_of(rem + more) {
        assert((rem + more).subrange(0, p.len() as int) =~= rem.subrange(0, p.len() as int));
    }
    if p.len() > rem.len() && p.is_prefix_of(rem + more) {
        assert(p.subrange(0, rem.len() as int) =~= rem) by {
            assert forall|k: int| 0 <= k < rem.len() implies p.subrange(0, rem.len() as int)[k] == rem[k] by {
                assert(p[k] == (rem + more)[k]);
            }
        }
    }
    if (rem + more).is_prefix_of(p) {
        assert(p.subrange(0, rem.len() as int) =~= rem) by {
            assert forall|k: int| 0 <= k < rem.len() implies p.subrange(0, rem.len() as int)[k] == rem[k] by {
                assert(p[k] == (rem + more)[k]);
            }
        }
    }
}

proof fn lemma_ascii_run_extends(rem: Seq<char>, more: Seq<char>, marker: char)
    requires
        crate::segmenter_model::ascii_run(rem, marker) < rem.len(),
    ensures
        crate::segmenter_model::ascii_run(rem + more, marker) == crate::segmenter_model::ascii_run(rem, marker),
    decreases rem.len(),
{
    if rem.len() > 0 && rem[0] == marker {
        assert((rem + more).drop_first() =~= rem.drop_first() + more);
        lemma_ascii_run_extends(rem.drop_first(), more, marker);
    }
}

/// No environment opener begins another.
proof fn lemma_env_openers_prefix_free(i: int, j: int)
    requires
        0 <= i < crate::segmenter_model::env_count(),
        0 <= j < crate::segmenter_model::env_count(),
        i != j,
    ensures
        !crate::segmenter_model::env_opener(i).is_prefix_of(crate::segmenter_model::env_opener(j)),
{
    let oi = crate::segmenter_model::env_opener(i);
    let oj = crate::segmenter_model::env_opener(j);
    let ni = crate::segmenter_model::env_name(i);
    let nj = crate::segmenter_model::env_name(j);
    assert(oi =~= crate::segmenter_model::begin_prefix() + ni + seq!['}']);
    assert(oj =~= crate::segmenter_model::begin_prefix() + nj + seq!['}']);
    if oi.is_prefix_of(oj) {
        assert(oj.subrange(0, oi.len() as int) == oi);
        assert(oi[7] == ni[0]);
        assert(oj[7] == nj[0]);
        assert(oj.subrange(0, oi.len() as int)[7] == oj[7]);
        if ni[0] == nj[0] {
            let k: int = if i == 0 { 15 } else if i == 2 { 12 } else { 13 };
            assert(oi[k] == '}');
            assert(oj[k] == '*');
            assert(oj.subrange(0, oi.len() as int)[k] == oj[k]);
        }
    }
}

proof fn lemma_first_env_extends(rem: Seq<char>, more: Seq<char>, k: int)
    requires
        0 <= k,
    ensures
        crate::segmenter_model::first_env_match(rem, k) matches Some(i) ==> crate::segmenter_model::first_env_match(
            rem + more,
            k,
        ) == Some(i),
        crate::segmenter_model::first_env_match(rem, k) is None && (forall|j: int|
            k <= j < crate::segmenter_model::env_count() ==> !#[trigger] rem.is_prefix_of(
                crate::segmenter_model::env_opener(j),
            )) ==> crate::segmenter_model::first_env_match(rem + more, k) is None,
    decreases crate::segmenter_model::env_count() - k,
{
    if k < crate::segmenter_model::env_count() {
        let o = crate::segmenter_model::env_opener(k);
        lemma_prefix_extends(o, rem, more);
        lemma_first_env_extends(rem, more, k + 1);
        if !o.is_prefix_of(rem) && o.is_prefix_of(rem + more) {
            if let Some(i) = crate::segmenter_model::first_env_match(rem, k + 1) {
                crate::segmenter_model::lemma_first_env_match_props(rem, k + 1);
                let oi = crate::segmenter_model::env_opener(i);
                // `oi` begins `rem`, which begins `o`: `oi` would begin `o`.
                assert(oi.is_prefix_of(rem));
                assert(rem.is_prefix_of(o));
                assert(oi.is_prefix_of(o)) by {
                    assert(o.subrange(0, oi.len() as int) =~= oi) by {
                        assert forall|t: int| 0 <= t < oi.len() implies o.subrange(0, oi.len() as int)[t] == oi[t] by {
                            assert(rem[t] == o[t]);
                            assert(rem[t] == oi[t]);
                        }
                    }
                }
                lemma_env_openers_prefix_free(i, k);
            }
        }
    }
}

proof fn lemma_env_match_extends(rem: Seq<char>, more: Seq<char>)
    ensures
        crate::segmenter_model::match_environment(rem, false) matches crate::segmenter_model::EnvMatch::Full(i)
            ==> crate::segmenter_model::match_environment(rem + more, false) == crate::segmenter_model::EnvMatch::Full(i),
        crate::segmenter_model::match_environment(rem, false) is NoMatch
            ==> crate::segmenter_model::match_environment(rem + more, false) is NoMatch,
{
    lemma_first_env_extends(rem, more, 0);
    if crate::segmenter_model::match_environment(rem, false) is NoMatch {
        assert forall|j: int| 0 <= j < crate::segmenter_model::env_count() implies !#[trigger] (rem + more).is_prefix_of(
            crate::segmenter_model::env_opener(j),
        ) by {
            lemma_prefix_extends(crate::segmenter_model::env_opener(j), rem, more);
        }
    }
}

proof fn lemma_text_code_extends(m: SegmenterModel, rem: Seq<char>, more: Seq<char>, out: Seq<SegmentView>)
    requires
        rem.len() > 0,
        crate::segmenter_model::text_code_step(m, rem, false, out).0,
    ensures
        crate::segmenter_model::text_code_step(m, rem + more, false, out) == crate::segmenter_model::text_code_step(
            m,
            rem,
            false,
            out,
        ),
{
    let all = rem + more;
    assert(all[0] == rem[0]);
    crate::segmenter_model::lemma_ascii_run_props(rem, '`');
    crate::segmenter_model::lemma_ascii_run_props(rem, '~');
    if rem[0] == '`' {
        lemma_ascii_run_extends(rem, more, '`');
    } else if rem[0] == '~' && crate::segmenter_model::fence_eligible(m) {
        lemma_ascii_run_extends(rem, more, '~');
    }
}

proof fn lemma_text_dollar_extends(m: SegmenterModel, rem: Seq<char>, more: Seq<char>, out: Seq<SegmentView>)
    requires
        rem.len() > 0,
        crate::segmenter_model::text_dollar_step(m, rem, false, out).0,
    ensures
        crate::segmenter_model::text_dollar_step(m, rem + more, false, out)
            == crate::segmenter_model::text_dollar_step(m, rem, false, out),
{
    let all = rem + more;
    assert(all[0] == rem[0]);
    lemma_prefix_extends(crate::segmenter_model::double_dollar(), rem, more);
    if rem[0] == '$' && m.text_tb % 2 == 0 {
        if !crate::segmenter_model::double_dollar().is_prefix_of(rem) {
            if rem.len() > 1 {
                assert(all.drop_first()[0] == rem.drop_first()[0]);
                assert(!crate::segmenter_model::double_dollar().is_prefix_of(all));
                if !crate::segmenter_model::can_open_single_dollar(m, rem.drop_first()) {
                    lemma_text_code_extends(m, rem, more, out);
                }
            }
        }
    } else {
        lemma_text_code_extends(m, rem, more, out);
    }
}

/// A text step that makes progress takes the same decision, with the same result,
/// when more input follows what it saw.
proof fn lemma_text_step_extends(m: SegmenterModel, rem: Seq<char>, more: Seq<char>, out: Seq<SegmentView>)
    requires
        rem.len() > 0,
        process_text(m, rem, false, out).0,
    ensures
        process_text(m, rem + more, false, out) == process_text(m, rem, false, out),
{
    let all = rem + more;
    assert(all[0] == rem[0]);
    lemma_env_match_extends(rem, more);
    lemma_prefix_extends(crate::segmenter_model::inline_opener(), rem, more);
    lemma_prefix_extends(crate::segmenter_model::display_opener(), rem, more);
    if rem[0] == '\\' && m.text_tb % 2 == 0 {
        match crate::segmenter_model::match_environment(rem, false) {
            crate::segmenter_model::EnvMatch::Full(i) => {},
            crate::segmenter_model::EnvMatch::Incomplete => {},
            crate::segmenter_model::EnvMatch::NoMatch => {
                if !crate::segmenter_model::inline_opener().is_prefix_of(rem)
                    && !crate::segmenter_model::display_opener().is_prefix_of(rem) && rem.len() > 1 {
                    assert(rem.take(2) =~= all.take(2));
                    assert(!crate::segmenter_model::inline_opener().is_prefix_of(all));
                    assert(!crate::segmenter_model::display_opener().is_prefix_of(all));
                    lemma_text_dollar_extends(m, rem, more, out);
                }
            },
        }
    } else {
        lemma_text_dollar_extends(m, rem, more, out);
    }
}

proof fn lemma_math_step_extends(
    m: SegmenterModel,
    c: crate::segmenter_model::MathModel,
    rem: Seq<char>,
    more: Seq<char>,
    out: Seq<SegmentView>,
)
    requires
        rem.len() > 0,
        crate::segmenter_model::process_math(m, c, rem, false, out).0,
    ensures
        crate::segmenter_model::process_math(m, c, rem + more, false, out)
            == crate::segmenter_model::process_math(m, c, rem, false, out),
{
    let all = rem + more;
    assert(all[0] == rem[0]);
    assert(all.take(1) =~= rem.take(1));
    if let crate::segmenter_model::CloserModel::Literal(cl) = c.closer {
        lemma_prefix_extends(cl, rem, more);
        if cl.is_prefix_of(rem) {
            assert(all.take(cl.len() as int) =~= rem.take(cl.len() as int));
        }
    }
}

proof fn lemma_code_step_extends(
    m: SegmenterModel,
    c: crate::segmenter_model::CodeModel,
    rem: Seq<char>,
    more: Seq<char>,
    out: Seq<SegmentView>,
)
    requires
        rem.len() > 0,
        crate::segmenter_model::process_code(m, c, rem, false, out).0,
    ensures
        crate::segmenter_model::process_code(m, c, rem + more, false, out)
            == crate::segmenter_model::process_code(m, c, rem, false, out),
{
    let all = rem + more;
    assert(all[0] == rem[0]);
    if rem[0] == c.marker {
        crate::segmenter_model::lemma_ascii_run_props(rem, c.marker);
        lemma_ascii_run_extends(rem, more, c.marker);
        let run = crate::segmenter_model::ascii_run(rem, c.marker);
        assert(all.take(run) =~= rem.take(run));
    }
}

/// A step that makes progress takes the same decision, with the same result, when
/// more input follows what it saw.
proof fn lemma_step_extends(m: SegmenterModel, rem: Seq<char>, more: Seq<char>, out: Seq<SegmentView>)
    requires
        rem.len() > 0,
        step(m, rem, false, out).0,
    ensures
        step(m, rem + more, false, out) == step(m, rem, false, out),
{
    let mt = SegmenterModel { mode: ModeModel::Text, ..m };
    match m.mode {
        ModeModel::Text => lemma_text_step_extends(m, rem, more, out),
        ModeModel::Math(c) => lemma_math_step_extends(mt, c, rem, more, out),
        ModeModel::Code(c) => lemma_code_step_extends(mt, c, rem, more, out),
    }
}

// ---------------------------------------------------------------------------
// The parsing loop.

proof fn lemma_utf8_len_empty()
    ensures
        utf8_len(Seq::<char>::empty()) == 0,
{
    assert(vstd::utf8::encode_utf8(Seq::<char>::empty()) =~= Seq::<u8>::empty());
}

/// The loop keeps the invariant and advances the offset by what it consumed.
proof fn lemma_loop_inv(m: SegmenterModel, input: Seq<char>, cursor: int, finishing: bool, out: Seq<SegmentView>)
    requires
        model_inv(m),
        m.pending.len() == 0,
        0 <= cursor <= input.len(),
        m.offset + utf8_len(rem_of(input, cursor)) <= usize::MAX,
    ensures
        ({
            let (m1, out1, c1) = process_loop(m, input, cursor, finishing, out);
            &&& model_inv(m1)
            &&& m1.pending.len() == 0
            &&& cursor <= c1 <= input.len()
            &&& m1.offset == m.offset + utf8_len(input.subrange(cursor, c1))
            &&& (c1 < input.len() ==> !step(m1, rem_of(input, c1), finishing, out1).0)
        }),
    decreases input.len() - cursor,
{
    lemma_utf8_len_empty();
    assert(input.subrange(cursor, cursor) =~= Seq::<char>::empty());
    if cursor < input.len() {
        let rem = rem_of(input, cursor);
        lemma_step_ok(m, rem, finishing, out);
        let (cont, n, m1, out1) = step(m, rem, finishing, out);
        if cont {
            crate::segmenter_model::lemma_utf8_len_prefix(rem, n);
            assert(rem.skip(n) =~= rem_of(input, cursor + n));
            lemma_loop_inv(m1, input, cursor + n, finishing, out1);
            let c1 = process_loop(m1, input, cursor + n, finishing, out1).2;
            assert(input.subrange(cursor, c1) =~= rem.take(n) + input.subrange(cursor + n, c1));
            lemma_utf8_len_concat(rem.take(n), input.subrange(cursor + n, c1));
        }
    }
}

/// Where the loop stopped on some input, it is reached the same way when more input
/// follows, and the loop over the longer input goes on from there.
proof fn lemma_loop_extends(
    m: SegmenterModel,
    input: Seq<char>,
    more: Seq<char>,
    cursor: int,
    out: Seq<SegmentView>,
)
    requires
        model_inv(m),
        m.pending.len() == 0,
        0 <= cursor <= input.len(),
        m.offset + utf8_len(rem_of(input, cursor)) <= usize::MAX,
    ensures
        ({
            let (m1, out1, c1) = process_loop(m, input, cursor, false, out);
            process_loop(m, input + more, cursor, false, out) == process_loop(m1, input + more, c1, false, out1)
        }),
    decreases input.len() - cursor,
{
    if cursor < input.len() {
        let rem = rem_of(input, cursor);
        assert(rem_of(input + more, cursor) =~= rem + more);
        lemma_step_ok(m, rem, false, out);
        let (cont, n, m1, out1) = step(m, rem, false, out);
        if cont {
            lemma_step_extends(m, rem, more, out);
            crate::segmenter_model::lemma_utf8_len_prefix(rem, n);
            assert(rem.skip(n) =~= rem_of(input, cursor + n));
            lemma_loop_extends(m1, input, more, cursor + n, out1);
        }
    }
}

/// The loop from a cursor is the loop over what follows a skipped prefix.
proof fn lemma_loop_shift(
    m: SegmenterModel,
    input: Seq<char>,
    k: int,
    cursor: int,
    finishing: bool,
    out: Seq<SegmentView>,
)
    requires
        0 <= k <= cursor,
        k <= input.len(),
    ensures
        ({
            let a = process_loop(m, input, cursor, finishing, out);
            let b = process_loop(m, input.skip(k), cursor - k, finishing, out);
            a.0 == b.0 && a.1 == b.1 && a.2 == b.2 + k
        }),
    decreases input.len() - cursor,
{
    if cursor < input.len() {
        assert(rem_of(input.skip(k), cursor - k) =~= rem_of(input, cursor));
        let (cont, n, m1, out1) = step(m, rem_of(input, cursor), finishing, out);
        if cont && n > 0 && cursor + n <= input.len() {
            lemma_loop_shift(m1, input, k, cursor + n, finishing, out1);
        }
    }
}

// ---------------------------------------------------------------------------
// Two runs that differ only in how much of the buffered text they have emitted.

/// The state without its buffered text.
pub open spec fn bare(m: SegmenterModel) -> SegmenterModel {
    SegmenterModel { text: Seq::empty(), text_start: None, ..m }
}

/// The segments emitted so far, merged, followed by the buffered text.
pub open spec fn shown(m: SegmenterModel, out: Seq<SegmentView>) -> Seq<SegmentView> {
    merged(flush_text(m, out).1)
}

/// Two runs in the same state but for the buffered text, and with the same text shown.
pub open spec fn alike(m: SegmenterModel, o: Seq<SegmentView>, m2: SegmenterModel, o2: Seq<SegmentView>) -> bool {
    &&& bare(m) == bare(m2)
    &&& shown(m, o) == shown(m2, o2)
}

proof fn lemma_shown_pushes(m: SegmenterModel, o: Seq<SegmentView>, e: Seq<SegmentView>)
    ensures
        shown(m, pushes(o, e)) == pushes(pushes(merged(o), e), flush_text(m, Seq::empty()).1),
{
    let f = flush_text(m, Seq::empty()).1;
    lemma_flush_out(m, pushes(o, e));
    lemma_pushes_pushes(Seq::empty(), pushes(o, e), f);
    lemma_pushes_pushes(Seq::empty(), o, e);
}

proof fn lemma_flush_core(m: SegmenterModel, o: Seq<SegmentView>)
    requires
        m.text.len() == 0 ==> m.text_start is None,
    ensures
        flush_text(m, o).0 == bare(m),
{
    if m.text.len() == 0 {
        assert(m.text =~= Seq::<char>::empty());
        assert(m =~= bare(m));
    }
}

proof fn lemma_shown_no_text(m: SegmenterModel, o: Seq<SegmentView>)
    requires
        m.text.len() == 0,
    ensures
        shown(m, o) == merged(o),
{
}

/// Text appended to the buffer is shown as a text segment pushed after what was shown.
proof fn lemma_append_shown(m: SegmenterModel, o: Seq<SegmentView>, raw: Seq<char>)
    requires
        model_inv(m),
        raw.len() > 0,
    ensures
        shown(append_text(m, raw), o) == push_segment(
            shown(m, o),
            text_segment(raw, m.offset, m.offset + utf8_len(raw)),
        ),
{
    let a = append_text(m, raw);
    let r = text_segment(raw, m.offset, m.offset + utf8_len(raw));
    if m.text.len() == 0 {
        assert(m.text + raw =~= raw);
        assert(flush_text(m, o).1 == o);
    } else {
        let t = text_segment(m.text, m.offset - utf8_len(m.text), m.offset);
        lemma_push_join(o, t, r);
        assert(join_text(t, r) =~= text_segment(m.text + raw, m.offset - utf8_len(m.text), a.offset));
    }
    assert(flush_text(a, o).1 == push_segment(flush_text(m, o).1, r));
    lemma_pushes_push(Seq::empty(), flush_text(m, o).1, r);
}

proof fn lemma_default_alike(
    m: SegmenterModel,
    o: Seq<SegmentView>,
    m2: SegmenterModel,
    o2: Seq<SegmentView>,
    rem: Seq<char>,
)
    requires
        model_inv(m),
        model_inv(m2),
        alike(m, o, m2, o2),
        rem.len() > 0,
    ensures
        ({
            let s = crate::segmenter_model::text_default_step(m, rem, o);
            let t = crate::segmenter_model::text_default_step(m2, rem, o2);
            s.0 == t.0 && s.1 == t.1 && alike(s.2, s.3, t.2, t.3)
        }),
{
    let raw = seq![rem[0]];
    assert(bare(m).offset == m.offset && bare(m2).offset == m2.offset);
    assert(bare(m).text_tb == m.text_tb && bare(m2).text_tb == m2.text_tb);
    assert(bare(m).line_prefix == m.line_prefix && bare(m2).line_prefix == m2.line_prefix);
    lemma_append_shown(m, o, raw);
    lemma_append_shown(m2, o2, raw);
    let a = SegmenterModel { mode: ModeModel::Text, ..append_text(m, raw) };
    let b = SegmenterModel { mode: ModeModel::Text, ..append_text(m2, raw) };
    assert(flush_text(a, o).1 == flush_text(append_text(m, raw), o).1);
    assert(flush_text(b, o2).1 == flush_text(append_text(m2, raw), o2).1);
    assert(bare(a) =~= bare(b));
}

proof fn lemma_open_math_alike(
    m: SegmenterModel,
    o: Seq<SegmentView>,
    m2: SegmenterModel,
    o2: Seq<SegmentView>,
    opener: Seq<char>,
    closer: crate::segmenter_model::CloserModel,
    display: bool,
)
    requires
        model_inv(m),
        model_inv(m2),
        alike(m, o, m2, o2),
    ensures
        ({
            let s = crate::segmenter_model::open_math_step(m, o, opener, closer, display);
            let t = crate::segmenter_model::open_math_step(m2, o2, opener, closer, display);
            s.0 == t.0 && s.1 == t.1 && alike(s.2, s.3, t.2, t.3)
        }),
{
    lemma_flush_core(m, o);
    lemma_flush_core(m2, o2);
    let s = crate::segmenter_model::open_math_step(m, o, opener, closer, display);
    let t = crate::segmenter_model::open_math_step(m2, o2, opener, closer, display);
    assert(s.2 == t.2);
    lemma_shown_no_text(s.2, s.3);
    lemma_shown_no_text(t.2, t.3);
}

proof fn lemma_open_code_alike(
    m: SegmenterModel,
    o: Seq<SegmentView>,
    m2: SegmenterModel,
    o2: Seq<SegmentView>,
    marker: char,
    run: int,
    flavor: crate::segmenter_model::CodeFlavor,
)
    requires
        model_inv(m),
        model_inv(m2),
        alike(m, o, m2, o2),
    ensures
        ({
            let s = crate::segmenter_model::open_code_step(m, o, marker, run, flavor);
            let t = crate::segmenter_model::open_code_step(m2, o2, marker, run, flavor);
            s.0 == t.0 && s.1 == t.1 && alike(s.2, s.3, t.2, t.3)
        }),
{
    lemma_flush_core(m, o);
    lemma_flush_core(m2, o2);
    let s = crate::segmenter_model::open_code_step(m, o, marker, run, flavor);
    let t = crate::segmenter_model::open_code_step(m2, o2, marker, run, flavor);
    assert(s.2 == t.2);
    lemma_shown_no_text(s.2, s.3);
    lemma_shown_no_text(t.2, t.3);
}

proof fn lemma_text_step_alike(
    m: SegmenterModel,
    o: Seq<SegmentView>,
    m2: SegmenterModel,
    o2: Seq<SegmentView>,
    rem: Seq<char>,
    finishing: bool,
)
    requires
        model_inv(m),
        model_inv(m2),
        alike(m, o, m2, o2),
        rem.len() > 0,
    ensures
        ({
            let s = process_text(m, rem, finishing, o);
            let t = process_text(m2, rem, finishing, o2);
            s.0 == t.0 && s.1 == t.1 && alike(s.2, s.3, t.2, t.3)
        }),
{
    assert(bare(m).text_tb == m.text_tb && bare(m2).text_tb == m2.text_tb);
    assert(bare(m).line_prefix == m.line_prefix && bare(m2).line_prefix == m2.line_prefix);
    assert(bare(m).config == m.config && bare(m2).config == m2.config);
    lemma_default_alike(m, o, m2, o2, rem);
    assert forall|op: Seq<char>, cl: crate::segmenter_model::CloserModel, d: bool| {
        let s = #[trigger] crate::segmenter_model::open_math_step(m, o, op, cl, d);
        let t = crate::segmenter_model::open_math_step(m2, o2, op, cl, d);
        s.0 == t.0 && s.1 == t.1 && alike(s.2, s.3, t.2, t.3)
    } by {
        lemma_open_math_alike(m, o, m2, o2, op, cl, d);
    }
    assert forall|mk: char, run: int, fl: crate::segmenter_model::CodeFlavor| {
        let s = #[trigger] crate::segmenter_model::open_code_step(m, o, mk, run, fl);
        let t = crate::segmenter_model::open_code_step(m2, o2, mk, run, fl);
        s.0 == t.0 && s.1 == t.1 && alike(s.2, s.3, t.2, t.3)
    } by {
        lemma_open_code_alike(m, o, m2, o2, mk, run, fl);
    }
}

/// A step in two alike runs takes the same decision and leaves them alike.
proof fn lemma_step_alike(
    m: SegmenterModel,
    o: Seq<SegmentView>,
    m2: SegmenterModel,
    o2: Seq<SegmentView>,
    rem: Seq<char>,
    finishing: bool,
)
    requires
        model_inv(m),
        model_inv(m2),
        alike(m, o, m2, o2),
        rem.len() > 0,
    ensures
        ({
            let s = step(m, rem, finishing, o);
            let t = step(m2, rem, finishing, o2);
            s.0 == t.0 && s.1 == t.1 && alike(s.2, s.3, t.2, t.3)
        }),
{
    assert(bare(m).mode == m.mode && bare(m2).mode == m2.mode);
    if m.mode is Text {
        lemma_text_step_alike(m, o, m2, o2, rem, finishing);
    } else {
        assert(m.text =~= Seq::<char>::empty());
        assert(m2.text =~= Seq::<char>::empty());
        assert(m =~= bare(m));
        assert(m2 =~= bare(m2));
        lemma_step_out(m, rem, finishing, o);
        lemma_step_out(m, rem, finishing, o2);
        let e = step(m, rem, finishing, Seq::empty());
        lemma_shown_pushes(e.2, o, e.3);
        lemma_shown_pushes(e.2, o2, e.3);
        lemma_shown_no_text(m, o);
        lemma_shown_no_text(m2, o2);
    }
}

/// The loop in two alike runs stops at the same place and leaves them alike.
proof fn lemma_loop_alike(
    m: SegmenterModel,
    o: Seq<SegmentView>,
    m2: SegmenterModel,
    o2: Seq<SegmentView>,
    input: Seq<char>,
    cursor: int,
    finishing: bool,
)
    requires
        model_inv(m),
        model_inv(m2),
        alike(m, o, m2, o2),
        m.pending.len() == 0,
        0 <= cursor <= input.len(),
        m.offset + utf8_len(rem_of(input, cursor)) <= usize::MAX,
    ensures
        ({
            let a = process_loop(m, input, cursor, finishing, o);
            let b = process_loop(m2, input, cursor, finishing, o2);
            a.2 == b.2 && model_inv(a.0) && model_inv(b.0) && alike(a.0, a.1, b.0, b.1)
        }),
    decreases input.len() - cursor,
{
    assert(bare(m).pending == m.pending && bare(m2).pending == m2.pending);
    assert(bare(m).offset == m.offset && bare(m2).offset == m2.offset);
    if cursor < input.len() {
        let rem = rem_of(input, cursor);
        lemma_step_ok(m, rem, finishing, o);
        lemma_step_ok(m2, rem, finishing, o2);
        lemma_step_alike(m, o, m2, o2, rem, finishing);
        let s = step(m, rem, finishing, o);
        let t = step(m2, rem, finishing, o2);
        if s.0 {
            crate::segmenter_model::lemma_utf8_len_prefix(rem, s.1);
            assert(rem.skip(s.1) =~= rem_of(input, cursor + s.1));
            lemma_loop_alike(s.2, s.3, t.2, t.3, input, cursor + s.1, finishing);
        }
    }
}

// ---------------------------------------------------------------------------
// Chunks.

/// What one push leaves: the state and segments of the loop, with the buffered text
/// emitted when no candidate is open.
proof fn lemma_push_parts(m: SegmenterModel, chunk: Seq<char>)
    requires
        model_inv(m),
        m.offset + utf8_len(m.pending + chunk) <= usize::MAX,
    ensures
        ({
            let input = m.pending + chunk;
            let m0 = SegmenterModel { pending: Seq::empty(), ..m };
            let (l, q, k) = process_loop(m0, input, 0, false, Seq::empty());
            let (m1, o1) = push(m, chunk);
            &&& model_inv(m0)
            &&& model_inv(l)
            &&& l.pending.len() == 0
            &&& 0 <= k <= input.len()
            &&& l.offset == m.offset + utf8_len(input.take(k))
            &&& m1 == SegmenterModel { pending: input.subrange(k, input.len() as int), ..flush_text(l, q).0 }
            &&& o1 == flush_text(l, q).1
            &&& model_inv(flush_text(l, q).0)
            &&& flush_text(l, q).0.text.len() == 0
            &&& flush_text(l, q).0 == bare(l)
        }),
{
    let input = m.pending + chunk;
    let m0 = SegmenterModel { pending: Seq::empty(), ..m };
    lemma_utf8_len_empty();
    assert(SegmenterModel { pending: Seq::empty(), ..SegmenterModel { pending: input, ..m } } == m0);
    assert(rem_of(input, 0) =~= input);
    lemma_loop_inv(m0, input, 0, false, Seq::empty());
    let (l, q, k) = process_loop(m0, input, 0, false, Seq::empty());
    assert(input.subrange(0, k) =~= input.take(k));
    lemma_flush_core(l, q);
    if l.mode is Text {
        crate::segmenter_model::lemma_flush_text_inv(l, q);
    } else {
        assert(l.text =~= Seq::<char>::empty());
    }
}

/// Pushing two chunks in turn leaves the state that pushing them joined leaves, and
/// returns the same segments once adjacent text is merged.
proof fn lemma_push_twice(m: SegmenterModel, c1: Seq<char>, c2: Seq<char>)
    requires
        model_inv(m),
        m.offset + utf8_len(m.pending + c1 + c2) <= usize::MAX,
    ensures
        push(push(m, c1).0, c2).0 == push(m, c1 + c2).0,
        merged(push(m, c1).1 + push(push(m, c1).0, c2).1) == merged(push(m, c1 + c2).1),
{
    let e = Seq::<SegmentView>::empty();
    let p = m.pending + c1;
    let w = p + c2;
    assert(m.pending + (c1 + c2) =~= w);
    lemma_utf8_len_concat(p, c2);
    lemma_push_parts(m, c1);
    lemma_push_parts(m, c1 + c2);
    let m0 = SegmenterModel { pending: Seq::empty(), ..m };
    let (l1, q1, k1) = process_loop(m0, p, 0, false, e);
    let (m1, o1) = push(m, c1);
    let r1 = p.subrange(k1, p.len() as int);
    let mm1 = flush_text(l1, q1).0;
    // The whole input is parsed as the first chunk was, up to where the first push stopped.
    assert(rem_of(p, 0) =~= p);
    lemma_loop_extends(m0, p, c2, 0, e);
    // After it, the two runs are alike.
    lemma_shown_no_text(mm1, o1);
    assert(bare(mm1) == bare(l1));
    assert(w == p.take(k1) + rem_of(w, k1));
    lemma_utf8_len_concat(p.take(k1), rem_of(w, k1));
    lemma_loop_alike(l1, q1, mm1, o1, w, k1, false);
    let (lw, qw, kw) = process_loop(l1, w, k1, false, q1);
    // The second push parses what the first left, then the second chunk.
    assert(m1.pending == r1);
    assert(SegmenterModel { pending: Seq::empty(), ..SegmenterModel { pending: r1 + c2, ..m1 } } == mm1);
    assert(w.skip(k1) =~= r1 + c2);
    lemma_loop_shift(mm1, w, k1, k1, false, o1);
    assert(k1 - k1 == 0);
    lemma_loop_out(mm1, r1 + c2, 0, false, o1);
    lemma_utf8_len_concat(m.pending, c1);
    lemma_utf8_len_concat(r1, c2);
    assert(p =~= p.take(k1) + r1);
    lemma_utf8_len_concat(p.take(k1), r1);
    lemma_push_parts(m1, c2);
    let (l2, q2, k2) = process_loop(mm1, r1 + c2, 0, false, e);
    let (m2, o2) = push(m1, c2);
    // Both runs end alike; what remains of the input is the same.
    assert(w.subrange(kw, w.len() as int) =~= (r1 + c2).subrange(k2, (r1 + c2).len() as int));
    lemma_flush_core(lw, qw);
    lemma_flush_core(l2, q2);
    assert(m2 == push(m, c1 + c2).0);
    // The segments: those of the first push, then those of the second.
    let f2 = flush_text(l2, e).1;
    lemma_pushes_concat(e, o1, o2);
    lemma_flush_out(l2, q2);
    lemma_pushes_pushes(merged(o1), q2, f2);
    lemma_shown_pushes(l2, o1, q2);
}

proof fn lemma_initial_model_inv(config: SegmenterConfig)
    ensures
        model_inv(initial(config)),
{
    lemma_utf8_len_empty();
}

proof fn lemma_push_nothing(config: SegmenterConfig)
    ensures
        push(initial(config), Seq::empty()).0 == initial(config),
        push(initial(config), Seq::empty()).1 == Seq::<SegmentView>::empty(),
{
    let m = initial(config);
    let input = m.pending + Seq::<char>::empty();
    assert(input =~= Seq::<char>::empty());
    assert(input.subrange(0, 0) =~= Seq::<char>::empty());
    assert(SegmenterModel { pending: Seq::empty(), ..m } =~= m);
}

/// Feeding the chunks one by one leaves the state that pushing them joined leaves,
/// and returns the same segments once adjacent text is merged.
proof fn lemma_feed_joined(config: SegmenterConfig, chunks: Seq<Seq<char>>)
    requires
        utf8_len(joined(chunks)) <= usize::MAX,
    ensures
        feed(initial(config), chunks).0 == push(initial(config), joined(chunks)).0,
        merged(feed(initial(config), chunks).1) == merged(push(initial(config), joined(chunks)).1),
    decreases chunks.len(),
{
    let m = initial(config);
    if chunks.len() == 0 {
        lemma_push_nothing(config);
    } else {
        let prev = chunks.drop_last();
        let last = chunks.last();
        let j = joined(prev);
        lemma_utf8_len_concat(j, last);
        lemma_feed_joined(config, prev);
        lemma_utf8_len_empty();
        assert(m.pending + j + last =~= joined(chunks));
        lemma_initial_model_inv(config);
        lemma_push_twice(m, j, last);
        let (fm, fo) = feed(m, prev);
        let (pm, po) = push(m, j);
        let o2 = push(pm, last).1;
        lemma_pushes_concat(Seq::empty(), fo, o2);
        lemma_pushes_concat(Seq::empty(), po, o2);
    }
}

/// Streaming does not change the segmentation: however the input is cut into chunks,
/// the segments returned by the pushes and the final `finish`, with each run of
/// adjacent text segments merged into one, are those returned when the whole input
/// is pushed as a single chunk.
pub proof fn law_chunking_does_not_change_segments(config: SegmenterConfig, chunks: Seq<Seq<char>>)
    requires
        utf8_len(joined(chunks)) <= usize::MAX,
    ensures
        merged(stream_segments(config, chunks)) == merged(stream_segments(config, seq![joined(chunks)])),
{
    let j = joined(chunks);
    let one = seq![j];
    assert(one.drop_last() =~= Seq::<Seq<char>>::empty());
    assert(joined(one) =~= j) by {
        assert(joined(one.drop_last()) =~= Seq::<char>::empty());
    }
    lemma_feed_joined(config, chunks);
    lemma_feed_joined(config, one);
    let (fm, fo) = feed(initial(config), chunks);
    let (gm, go) = feed(initial(config), one);
    let f = finish(fm).1;
    lemma_pushes_concat(Seq::empty(), fo, f);
    lemma_pushes_concat(Seq::empty(), go, f);
}

/// An empty chunk changes nothing: pushed after any chunks, it returns no segment and
/// leaves the segmenter as it was.
pub proof fn law_empty_chunk_changes_nothing(config: SegmenterConfig, chunks: Seq<Seq<char>>)
    requires
        utf8_len(joined(chunks)) <= usize::MAX,
    ensures
        push(feed(initial(config), chunks).0, Seq::empty()) == (
            feed(initial(config), chunks).0,
            Seq::<SegmentView>::empty(),
        ),
{
    let e = Seq::<SegmentView>::empty();
    if chunks.len() == 0 {
        lemma_push_nothing(config);
    } else {
        let prev = chunks.drop_last();
        let last = chunks.last();
        lemma_utf8_len_concat(joined(prev), last);
        crate::segmenter_laws::lemma_feed_stream(config, prev);
        let (mp, op) = feed(initial(config), prev);
        crate::segmenter_laws::lemma_stream_offset(mp, op, joined(prev));
        lemma_utf8_len_concat(mp.pending, last);
        lemma_push_parts(mp, last);
        let input = mp.pending + last;
        let m0 = SegmenterModel { pending: Seq::empty(), ..mp };
        let (l, q, k) = process_loop(m0, input, 0, false, e);
        let m = push(mp, last).0;
        let r = input.subrange(k, input.len() as int);
        let mm = flush_text(l, q).0;
        assert(SegmenterModel { pending: Seq::empty(), ..SegmenterModel { pending: m.pending + Seq::<char>::empty(), ..m } } == mm);
        assert(m.pending + Seq::<char>::empty() =~= r);
        assert(input =~= input.take(k) + r);
        lemma_utf8_len_concat(input.take(k), r);
        assert(rem_of(input, 0) =~= input);
        lemma_loop_inv(m0, input, 0, false, e);
        if k < input.len() {
            // The loop stopped at `r` waiting for more input; it stops there again.
            assert(rem_of(input, k) =~= r);
            assert(!step(l, r, false, q).0);
            let o2 = flush_text(l, q).1;
            lemma_shown_no_text(mm, o2);
            lemma_step_alike(l, q, mm, o2, r, false);
            lemma_step_out(mm, r, false, o2);
            lemma_step_out(mm, r, false, e);
            lemma_step_ok(mm, r, false, e);
            assert(rem_of(r, 0) =~= r);
            assert(r.subrange(0, r.len() as int) =~= r);
            assert(process_loop(mm, r, 0, false, e) == (mm, e, 0int));
        } else {
            assert(r =~= Seq::<char>::empty());
            assert(r.subrange(0, 0) =~= r);
        }
        lemma_flush_core(mm, e);
        assert(process_loop(mm, r, 0, false, e) == (mm, e, 0int));
        let m2 = SegmenterModel { pending: r, ..mm };
        assert(m2 == m);
        assert(flush_text(m2, e) == (m2, e));
    }
}

/// A finished stream stays finished: whatever was pushed and finished before, after a
/// `finish` no candidate is open, and finishing again returns no segment and leaves the
/// segmenter as it was.
pub proof fn law_finish_twice_returns_nothing(m: SegmenterModel)
    requires
        model_inv(m),
    ensures
        ({
            let done = finish(m).0;
            &&& crate::segmenter_model::pending_kind(done) is None
            &&& crate::segmenter_model::pending_source(done) is None
            &&& finish(done) == (done, Seq::<SegmentView>::empty())
        }),
{
    crate::segmenter_laws::lemma_process_stream(m, true);
    let m1 = process(m, true).0;
    assert(crate::segmenter_model::consume_unexpected_pending(m1) == m1);
    let done = finish(m).0;
    assert(done.text.len() == 0 && done.pending.len() == 0 && done.mode is Text) by {
        if m1.mode is Text {
            crate::segmenter_model::lemma_flush_text_inv(m1, process(m, true).1);
        }
    }
    let d0 = SegmenterModel { pending: Seq::empty(), ..done };
    assert(d0 =~= done);
    assert(done.pending.subrange(0, 0) =~= done.pending);
}

/// The pending snapshot is exactly the input not yet emitted: after any chunks, a
/// source snapshot is there exactly when a candidate kind is, and the sources of the
/// segments returned so far followed by the snapshot spell the whole input.
pub proof fn law_pending_snapshot_is_the_unemitted_tail(config: SegmenterConfig, chunks: Seq<Seq<char>>)
    requires
        utf8_len(joined(chunks)) <= usize::MAX,
    ensures
        ({
            let (m, out) = feed(initial(config), chunks);
            &&& (crate::segmenter_model::pending_source(m) is Some <==> crate::segmenter_model::pending_kind(m) is Some)
            &&& (crate::segmenter_model::pending_source(m) matches Some(p) ==> crate::segmenter_laws::sources(out) + p
                == joined(chunks))
        }),
{
    crate::segmenter_laws::lemma_feed_stream(config, chunks);
    let (m, out) = feed(initial(config), chunks);
    match m.mode {
        ModeModel::Text => {},
        ModeModel::Math(c) => {
            assert(crate::segmenter_laws::sources(out) + (c.source + m.pending) =~= crate::segmenter_laws::sources(out)
                + c.source + m.pending);
        },
        ModeModel::Code(c) => {
            assert(crate::segmenter_laws::sources(out) + (c.source + m.pending) =~= crate::segmenter_laws::sources(out)
                + c.source + m.pending);
        },
    }
}

/// `w` keeps the segments of `e`: all but the last unchanged, and the last either
/// unchanged or, when it is text, the start of a longer text segment.
pub open spec fn grows_into(e: Seq<SegmentView>, w: Seq<SegmentView>) -> bool {
    &&& e.len() <= w.len()
    &&& forall|i: int| 0 <= i < e.len() - 1 ==> #[trigger] w[i] == e[i]
    &&& e.len() > 0 ==> {
        let a = e.last();
        let b = w[e.len() - 1];
        ||| b == a
        ||| a.kind == SegmentKind::Text && b.kind == SegmentKind::Text && b.start == a.start
            && a.source.is_prefix_of(b.source)
    }
}

proof fn lemma_pushes_grow(o: Seq<SegmentView>, f: Seq<SegmentView>)
    ensures
        grows_into(o, pushes(o, f)),
    decreases f.len(),
{
    if f.len() > 0 {
        lemma_pushes_grow(o, f.drop_last());
        let x = pushes(o, f.drop_last());
        let y = pushes(o, f);
        let sgm = f.last();
        if x.len() > 0 && x.last().kind == SegmentKind::Text && sgm.kind == SegmentKind::Text && x.last().end == sgm.start {
            assert(y == x.drop_last().push(join_text(x.last(), sgm)));
            assert forall|i: int| 0 <= i < o.len() - 1 implies #[trigger] y[i] == o[i] by {
                assert(y[i] == x[i]);
            }
            if o.len() > 0 && x.len() > o.len() {
                assert(y[o.len() - 1] == x[o.len() - 1]);
            }
            if o.len() > 0 && x.len() == o.len() {
                let a = o.last();
                let b = x[o.len() - 1];
                let c = y[o.len() - 1];
                assert(c == join_text(b, sgm));
                if b == a {
                    assert(a.source.is_prefix_of(c.source)) by {
                        assert(c.source.subrange(0, a.source.len() as int) =~= a.source);
                    }
                } else {
                    assert(a.source.is_prefix_of(c.source)) by {
                        assert(c.source.subrange(0, a.source.len() as int) =~= b.source.subrange(0, a.source.len() as int));
                    }
                }
            }
        } else {
            assert(y == x.push(sgm));
            assert forall|i: int| 0 <= i < o.len() - 1 implies #[trigger] y[i] == o[i] by {
                assert(y[i] == x[i]);
            }
            if o.len() > 0 {
                assert(y[o.len() - 1] == x[o.len() - 1]);
            }
        }
    }
}

/// Segments once returned are never revised by later input: after any chunks, the
/// segments returned so far, with adjacent text merged, begin the merged segments of
/// the whole stream, whatever input follows; only a final text segment may grow,
/// from the same start.
pub proof fn law_emitted_segments_are_never_revised(config: SegmenterConfig, chunks: Seq<Seq<char>>, more: Seq<char>)
    requires
        utf8_len(joined(chunks) + more) <= usize::MAX,
    ensures
        grows_into(
            merged(feed(initial(config), chunks).1),
            merged(stream_segments(config, seq![joined(chunks) + more])),
        ),
{
    let all = chunks.push(more);
    assert(all.drop_last() =~= chunks);
    assert(all.last() == more);
    assert(joined(all) == joined(chunks) + more);
    law_chunking_does_not_change_segments(config, all);
    let (fm, fo) = feed(initial(config), chunks);
    let (pm, po) = push(fm, more);
    let rest = po + finish(pm).1;
    assert(stream_segments(config, all) =~= fo + rest);
    lemma_pushes_concat(Seq::empty(), fo, rest);
    lemma_pushes_grow(merged(fo), rest);
}

} // verus!
