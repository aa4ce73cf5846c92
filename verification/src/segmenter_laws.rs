//! What the segmenter promises of every stream: its segments give back the input,
//! tile it by byte offsets, and keep text verbatim.

use vstd::prelude::*;

use crate::segment::{SegmentKind, SegmentView, SegmenterConfig};
use crate::segmenter_model::{
    CodeFlavor, SegmenterModel, ModeModel, MathModel, CodeModel, CloseMatch, CloserModel, EnvMatch,
    StepModel, push_segment, flush_text, text_segment, model_inv, inflight, emitted_end, step,
    step_pre, lemma_step_ok, process_loop, process, push, finish, initial, rem_of,
    consume_unexpected_pending, lemma_finishing_step_continues, lemma_flush_text_inv,
    lemma_utf8_len_prefix, lemma_first_char_prefix, lemma_ascii_run_props, lemma_run_is_prefix,
    lemma_prefix_utf8_len, lemma_first_env_match_props, open_math_step, open_code_step,
    text_default_step, text_code_step, text_dollar_step, process_text, process_math, process_code,
    math_close, match_environment, ascii_run, fence_eligible, double_dollar, single_dollar,
    inline_opener, inline_closer, display_opener, display_closer, env_opener, env_closer,
    code_closes,
};
use crate::text::{lemma_utf8_len_concat, utf8_len};

verus! {

/// The concatenated sources of a sequence of segments.
pub open spec fn sources(segs: Seq<SegmentView>) -> Seq<char>
    decreases segs.len(),
{
    if segs.len() == 0 {
        Seq::empty()
    } else {
        sources(segs.drop_last()) + segs.last().source
    }
}

/// The segments cover the byte range `from..to` one after another, each as long as
/// the UTF-8 encoding of its source.
pub open spec fn tiles(segs: Seq<SegmentView>, from: int, to: int) -> bool
    decreases segs.len(),
{
    if segs.len() == 0 {
        from == to
    } else {
        let l = segs.last();
        &&& l.end == to
        &&& l.end - l.start == utf8_len(l.source)
        &&& tiles(segs.drop_last(), from, l.start)
    }
}

/// Every text segment's content is its source.
pub open spec fn texts_verbatim(segs: Seq<SegmentView>) -> bool {
    forall|i: int| 0 <= i < segs.len() && #[trigger] segs[i].kind == SegmentKind::Text ==> segs[i].content == segs[i].source
}

proof fn lemma_push_segment_stream(out: Seq<SegmentView>, seg: SegmentView, start: int)
    requires
        tiles(out, start, seg.start),
        seg.end - seg.start == utf8_len(seg.source),
        texts_verbatim(out),
        seg.kind == SegmentKind::Text ==> seg.content == seg.source,
    ensures
        sources(push_segment(out, seg)) == sources(out) + seg.source,
        tiles(push_segment(out, seg), start, seg.end),
        texts_verbatim(push_segment(out, seg)),
{
    let r = push_segment(out, seg);
    if out.len() > 0 && out.last().kind == SegmentKind::Text && seg.kind == SegmentKind::Text
        && out.last().end == seg.start {
        let l = out.last();
        let merged = SegmentView {
            kind: SegmentKind::Text,
            source: l.source + seg.source,
            content: l.content + seg.content,
            start: l.start,
            end: seg.end,
        };
        assert(r == out.drop_last().push(merged));
        assert(r.drop_last() =~= out.drop_last());
        assert(r.last() == merged);
        lemma_utf8_len_concat(l.source, seg.source);
        assert(l.content == l.source) by {
            assert(out[out.len() - 1].kind == SegmentKind::Text);
        }
        assert(sources(r) =~= sources(out) + seg.source);
        assert forall|i: int| 0 <= i < r.len() && #[trigger] r[i].kind == SegmentKind::Text implies r[i].content == r[i].source by {
            if i < r.len() - 1 {
                assert(r[i] == out[i]);
            }
        }
    } else {
        assert(r == out.push(seg));
        assert(r.drop_last() =~= out);
        assert(sources(r) =~= sources(out) + seg.source);
        assert forall|i: int| 0 <= i < r.len() && #[trigger] r[i].kind == SegmentKind::Text implies r[i].content == r[i].source by {
            if i < r.len() - 1 {
                assert(r[i] == out[i]);
            }
        }
    }
}

/// What one step does to the stream: the characters it consumes move from the
/// remaining input to the emitted segments or the open candidate.
pub open spec fn step_stream(
    m: SegmenterModel,
    rem: Seq<char>,
    out: Seq<SegmentView>,
    start: int,
    s: StepModel,
) -> bool {
    s.0 ==> {
        &&& sources(s.3) + inflight(s.2) == sources(out) + inflight(m) + rem.take(s.1)
        &&& tiles(s.3, start, emitted_end(s.2))
        &&& texts_verbatim(s.3)
    }
}

/// The emitted segments so far tile the stream up to where the open part begins.
pub open spec fn stream_pre(m: SegmenterModel, out: Seq<SegmentView>, start: int) -> bool {
    &&& tiles(out, start, emitted_end(m))
    &&& texts_verbatim(out)
}

proof fn lemma_flush_stream(m: SegmenterModel, out: Seq<SegmentView>, start: int)
    requires
        model_inv(m),
        m.mode is Text,
        stream_pre(m, out, start),
    ensures
        sources(flush_text(m, out).1) == sources(out) + m.text,
        tiles(flush_text(m, out).1, start, m.offset),
        texts_verbatim(flush_text(m, out).1),
{
    if m.text.len() == 0 {
        assert(sources(out) + m.text =~= sources(out));
    } else {
        let seg = text_segment(m.text, m.offset - utf8_len(m.text), m.offset);
        lemma_push_segment_stream(out, seg, start);
    }
}

proof fn lemma_open_stream(
    m: SegmenterModel,
    rem: Seq<char>,
    out: Seq<SegmentView>,
    start: int,
    s: StepModel,
    opener: Seq<char>,
)
    requires
        step_pre(m, rem),
        m.mode is Text,
        stream_pre(m, out, start),
        s.0,
        opener == rem.take(s.1),
        s.3 == flush_text(m, out).1,
        inflight(s.2) == opener,
        emitted_end(s.2) == m.offset,
    ensures
        step_stream(m, rem, out, start, s),
{
    lemma_flush_stream(m, out, start);
    assert(sources(s.3) + inflight(s.2) =~= sources(out) + inflight(m) + rem.take(s.1));
}

proof fn lemma_open_math_stream(
    m: SegmenterModel,
    rem: Seq<char>,
    out: Seq<SegmentView>,
    start: int,
    opener: Seq<char>,
    closer: CloserModel,
    display: bool,
)
    requires
        step_pre(m, rem),
        m.mode is Text,
        stream_pre(m, out, start),
        opener.len() > 0,
        opener.is_prefix_of(rem),
        closer matches CloserModel::Literal(cl) ==> cl.len() > 0,
    ensures
        step_stream(m, rem, out, start, open_math_step(m, out, opener, closer, display)),
{
    lemma_prefix_utf8_len(opener, rem);
    let s = open_math_step(m, out, opener, closer, display);
    lemma_open_stream(m, rem, out, start, s, opener);
}

proof fn lemma_open_code_stream(
    m: SegmenterModel,
    rem: Seq<char>,
    out: Seq<SegmentView>,
    start: int,
    marker: char,
    run: int,
    flavor: CodeFlavor,
)
    requires
        step_pre(m, rem),
        m.mode is Text,
        stream_pre(m, out, start),
        rem[0] == marker,
        run == ascii_run(rem, marker),
    ensures
        step_stream(m, rem, out, start, open_code_step(m, out, marker, run, flavor)),
{
    lemma_ascii_run_props(rem, marker);
    lemma_run_is_prefix(rem, marker);
    let s = open_code_step(m, out, marker, run, flavor);
    lemma_open_stream(m, rem, out, start, s, rem.take(run));
}

proof fn lemma_text_default_stream(m: SegmenterModel, rem: Seq<char>, out: Seq<SegmentView>, start: int)
    requires
        step_pre(m, rem),
        m.mode is Text,
        stream_pre(m, out, start),
    ensures
        step_stream(m, rem, out, start, text_default_step(m, rem, out)),
{
    lemma_first_char_prefix(rem);
    let s = text_default_step(m, rem, out);
    lemma_utf8_len_concat(m.text, seq![rem[0]]);
    assert(sources(s.3) + inflight(s.2) =~= sources(out) + inflight(m) + rem.take(s.1));
}

proof fn lemma_text_code_stream(
    m: SegmenterModel,
    rem: Seq<char>,
    finishing: bool,
    out: Seq<SegmentView>,
    start: int,
)
    requires
        step_pre(m, rem),
        m.mode is Text,
        stream_pre(m, out, start),
    ensures
        step_stream(m, rem, out, start, text_code_step(m, rem, finishing, out)),
{
    lemma_text_default_stream(m, rem, out, start);
    if rem[0] == '`' {
        let run = ascii_run(rem, '`');
        let flavor = if run >= 3 && fence_eligible(m) {
            CodeFlavor::Fence
        } else {
            CodeFlavor::Inline
        };
        lemma_open_code_stream(m, rem, out, start, '`', run, flavor);
    } else if rem[0] == '~' {
        lemma_open_code_stream(m, rem, out, start, '~', ascii_run(rem, '~'), CodeFlavor::Fence);
    }
}

proof fn lemma_text_dollar_stream(
    m: SegmenterModel,
    rem: Seq<char>,
    finishing: bool,
    out: Seq<SegmentView>,
    start: int,
)
    requires
        step_pre(m, rem),
        m.mode is Text,
        stream_pre(m, out, start),
    ensures
        step_stream(m, rem, out, start, text_dollar_step(m, rem, finishing, out)),
{
    lemma_text_code_stream(m, rem, finishing, out, start);
    if rem[0] == '$' && m.text_tb % 2 == 0 {
        if double_dollar().is_prefix_of(rem) {
            lemma_open_math_stream(m, rem, out, start, double_dollar(), CloserModel::Literal(double_dollar()), true);
        } else {
            assert(single_dollar().is_prefix_of(rem)) by {
                assert(single_dollar() =~= rem.take(1));
            }
            lemma_open_math_stream(m, rem, out, start, single_dollar(), CloserModel::SingleDollar, false);
        }
    }
}

proof fn lemma_process_text_stream(
    m: SegmenterModel,
    rem: Seq<char>,
    finishing: bool,
    out: Seq<SegmentView>,
    start: int,
)
    requires
        step_pre(m, rem),
        m.mode is Text,
        stream_pre(m, out, start),
    ensures
        step_stream(m, rem, out, start, process_text(m, rem, finishing, out)),
{
    lemma_text_dollar_stream(m, rem, finishing, out, start);
    if rem[0] == '\\' && m.text_tb % 2 == 0 {
        match match_environment(rem, finishing) {
            EnvMatch::Full(i) => {
                lemma_first_env_match_props(rem, 0);
                assert(env_closer(i).len() > 0) by {
                    assert(env_closer(i)[0] == '\\');
                }
                assert(env_opener(i).len() > 0) by {
                    assert(env_opener(i)[0] == '\\');
                }
                lemma_open_math_stream(m, rem, out, start, env_opener(i), CloserModel::Literal(env_closer(i)), true);
            },
            _ => {
                if inline_opener().is_prefix_of(rem) {
                    lemma_open_math_stream(m, rem, out, start, inline_opener(), CloserModel::Literal(inline_closer()), false);
                } else if display_opener().is_prefix_of(rem) {
                    lemma_open_math_stream(m, rem, out, start, display_opener(), CloserModel::Literal(display_closer()), true);
                }
            },
        }
    }
}

proof fn lemma_process_math_stream(
    m: SegmenterModel,
    c: MathModel,
    rem: Seq<char>,
    finishing: bool,
    out: Seq<SegmentView>,
    start: int,
)
    requires
        step_pre(SegmenterModel { mode: ModeModel::Math(c), ..m }, rem),
        stream_pre(SegmenterModel { mode: ModeModel::Math(c), ..m }, out, start),
        m.mode is Text,
    ensures
        step_stream(
            SegmenterModel { mode: ModeModel::Math(c), ..m },
            rem,
            out,
            start,
            process_math(m, c, rem, finishing, out),
        ),
{
    let mm = SegmenterModel { mode: ModeModel::Math(c), ..m };
    let s = process_math(m, c, rem, finishing, out);
    match math_close(c, rem, finishing) {
        CloseMatch::Full(n) => {
            assert(1 <= n <= rem.len()) by {
                match c.closer {
                    CloserModel::Literal(cl) => {
                        assert(cl.is_prefix_of(rem));
                    },
                    CloserModel::SingleDollar => {},
                }
            }
            let closer = rem.take(n);
            lemma_utf8_len_prefix(rem, n);
            lemma_utf8_len_concat(c.source, closer);
            let seg = SegmentView {
                kind: c.kind,
                source: c.source + closer,
                content: c.content,
                start: c.start,
                end: m.offset + utf8_len(closer),
            };
            lemma_push_segment_stream(out, seg, start);
            assert(s.3 == push_segment(out, seg));
            assert(sources(s.3) + inflight(s.2) =~= sources(out) + inflight(mm) + rem.take(s.1));
        },
        CloseMatch::Incomplete => {},
        CloseMatch::NoMatch => {
            lemma_first_char_prefix(rem);
            lemma_utf8_len_concat(c.source, seq![rem[0]]);
            assert(sources(s.3) + inflight(s.2) =~= sources(out) + inflight(mm) + rem.take(s.1));
        },
    }
}

proof fn lemma_process_code_stream(
    m: SegmenterModel,
    c: CodeModel,
    rem: Seq<char>,
    finishing: bool,
    out: Seq<SegmentView>,
    start: int,
)
    requires
        step_pre(SegmenterModel { mode: ModeModel::Code(c), ..m }, rem),
        stream_pre(SegmenterModel { mode: ModeModel::Code(c), ..m }, out, start),
        m.mode is Text,
    ensures
        step_stream(
            SegmenterModel { mode: ModeModel::Code(c), ..m },
            rem,
            out,
            start,
            process_code(m, c, rem, finishing, out),
        ),
{
    let mm = SegmenterModel { mode: ModeModel::Code(c), ..m };
    let s = process_code(m, c, rem, finishing, out);
    lemma_first_char_prefix(rem);
    lemma_utf8_len_concat(c.source, seq![rem[0]]);
    if rem[0] == c.marker {
        let run = ascii_run(rem, c.marker);
        lemma_ascii_run_props(rem, c.marker);
        if !(!finishing && run == rem.len()) && code_closes(m, c, run) {
            let closer = rem.take(run);
            lemma_utf8_len_prefix(rem, run);
            lemma_utf8_len_concat(c.source, closer);
            let seg = SegmentView {
                kind: SegmentKind::Code,
                source: c.source + closer,
                content: c.content,
                start: c.start,
                end: m.offset + utf8_len(closer),
            };
            lemma_push_segment_stream(out, seg, start);
            assert(s.3 == push_segment(out, seg));
            assert(sources(s.3) + inflight(s.2) =~= sources(out) + inflight(mm) + rem.take(s.1));
            return ;
        }
    }
    if s.0 {
        assert(sources(s.3) + inflight(s.2) =~= sources(out) + inflight(mm) + rem.take(s.1));
    }
}

/// Every step moves the characters it consumes into the segments or the open part.
pub proof fn lemma_step_stream(
    m: SegmenterModel,
    rem: Seq<char>,
    finishing: bool,
    out: Seq<SegmentView>,
    start: int,
)
    requires
        step_pre(m, rem),
        stream_pre(m, out, start),
    ensures
        step_stream(m, rem, out, start, step(m, rem, finishing, out)),
{
    match m.mode {
        ModeModel::Text => lemma_process_text_stream(m, rem, finishing, out, start),
        ModeModel::Math(c) => {
            let mt = SegmenterModel { mode: ModeModel::Text, ..m };
            assert(SegmenterModel { mode: ModeModel::Math(c), ..mt } == m);
            lemma_process_math_stream(mt, c, rem, finishing, out, start);
        },
        ModeModel::Code(c) => {
            let mt = SegmenterModel { mode: ModeModel::Text, ..m };
            assert(SegmenterModel { mode: ModeModel::Code(c), ..mt } == m);
            lemma_process_code_stream(mt, c, rem, finishing, out, start);
        },
    }
}

/// The parsing loop keeps the invariant and moves the consumed input into the
/// segments or the open part; a finishing loop consumes everything.
pub proof fn lemma_process_loop(
    m: SegmenterModel,
    input: Seq<char>,
    cursor: int,
    finishing: bool,
    out: Seq<SegmentView>,
    base: Seq<char>,
    start: int,
)
    requires
        model_inv(m),
        m.pending.len() == 0,
        0 <= cursor <= input.len(),
        m.offset + utf8_len(rem_of(input, cursor)) <= usize::MAX,
        sources(out) + inflight(m) == base + input.take(cursor),
        stream_pre(m, out, start),
    ensures
        ({
            let (m1, out1, c1) = process_loop(m, input, cursor, finishing, out);
            &&& model_inv(m1)
            &&& m1.pending.len() == 0
            &&& cursor <= c1 <= input.len()
            &&& m1.offset + utf8_len(rem_of(input, c1)) <= usize::MAX
            &&& sources(out1) + inflight(m1) == base + input.take(c1)
            &&& stream_pre(m1, out1, start)
            &&& (finishing ==> c1 == input.len())
        }),
    decreases input.len() - cursor,
{
    if cursor < input.len() {
        let rem = rem_of(input, cursor);
        lemma_step_ok(m, rem, finishing, out);
        lemma_step_stream(m, rem, finishing, out, start);
        if finishing {
            lemma_finishing_step_continues(m, rem, out);
        }
        let (cont, n, m1, out1) = step(m, rem, finishing, out);
        if cont {
            lemma_utf8_len_prefix(rem, n);
            assert(rem.skip(n) =~= rem_of(input, cursor + n));
            assert(base + input.take(cursor + n) =~= base + input.take(cursor) + rem.take(n));
            lemma_process_loop(m1, input, cursor + n, finishing, out1, base, start);
        }
    }
}

proof fn lemma_tiles_len(segs: Seq<SegmentView>, from: int, to: int)
    requires
        tiles(segs, from, to),
    ensures
        to - from == utf8_len(sources(segs)),
    decreases segs.len(),
{
    if segs.len() == 0 {
        assert(sources(segs) =~= Seq::<char>::empty());
        lemma_utf8_len_concat(Seq::<char>::empty(), Seq::<char>::empty());
    } else {
        lemma_tiles_len(segs.drop_last(), from, segs.last().start);
        lemma_utf8_len_concat(sources(segs.drop_last()), segs.last().source);
    }
}

proof fn lemma_concat_stream(a: Seq<SegmentView>, b: Seq<SegmentView>, x: int, y: int, z: int)
    requires
        tiles(a, x, y),
        tiles(b, y, z),
        texts_verbatim(a),
        texts_verbatim(b),
    ensures
        tiles(a + b, x, z),
        sources(a + b) == sources(a) + sources(b),
        texts_verbatim(a + b),
    decreases b.len(),
{
    if b.len() == 0 {
        assert(a + b =~= a);
        assert(sources(a) + sources(b) =~= sources(a));
    } else {
        let bl = b.drop_last();
        assert forall|i: int| 0 <= i < bl.len() && #[trigger] bl[i].kind == SegmentKind::Text implies bl[i].content == bl[i].source by {
            assert(bl[i] == b[i]);
        }
        lemma_concat_stream(a, bl, x, y, b.last().start);
        assert((a + b).drop_last() =~= a + bl);
        assert((a + b).last() == b.last());
        assert(sources(a + b) =~= sources(a) + sources(b));
        assert forall|i: int| 0 <= i < (a + b).len() && #[trigger] (a + b)[i].kind == SegmentKind::Text implies (a + b)[i].content == (a + b)[i].source by {
            if i < a.len() {
                assert((a + b)[i] == a[i]);
            } else {
                assert((a + b)[i] == b[i - a.len()]);
            }
        }
    }
}

/// One call of the parser: the state keeps its invariant, the buffered input moves into
/// the segments or the open part, and the new segments tile the stream from where the
/// open part began.
pub proof fn lemma_process_stream(m: SegmenterModel, finishing: bool)
    requires
        model_inv(m),
    ensures
        ({
            let (m1, out) = process(m, finishing);
            &&& model_inv(m1)
            &&& sources(out) + inflight(m1) + m1.pending == inflight(m) + m.pending
            &&& tiles(out, emitted_end(m), emitted_end(m1))
            &&& texts_verbatim(out)
            &&& (finishing ==> m1.pending.len() == 0)
        }),
{
    let input = m.pending;
    let m0 = SegmenterModel { pending: Seq::empty(), ..m };
    let empty = Seq::<SegmentView>::empty();
    assert(rem_of(input, 0) =~= input);
    assert(sources(empty) + inflight(m0) =~= inflight(m) + input.take(0));
    lemma_process_loop(m0, input, 0, finishing, empty, inflight(m), emitted_end(m));
    let (m1, out, cursor) = process_loop(m0, input, 0, finishing, empty);
    let m2 = SegmenterModel { pending: input.subrange(cursor, input.len() as int), ..m1 };
    assert(input.take(cursor) + input.subrange(cursor, input.len() as int) =~= input);
    if m2.mode is Text {
        lemma_flush_text_inv(m2, out);
        lemma_flush_stream(m2, out, emitted_end(m));
        let (m3, out3) = flush_text(m2, out);
        assert(sources(out3) + inflight(m3) + m3.pending =~= sources(out) + m2.text + m2.pending);
    }
}

/// The stream so far: `emitted` are the segments returned, `consumed` the characters pushed.
pub open spec fn stream_inv(m: SegmenterModel, emitted: Seq<SegmentView>, consumed: Seq<char>) -> bool {
    &&& model_inv(m)
    &&& sources(emitted) + inflight(m) + m.pending == consumed
    &&& tiles(emitted, 0, emitted_end(m))
    &&& texts_verbatim(emitted)
}

pub(crate) proof fn lemma_stream_offset(m: SegmenterModel, emitted: Seq<SegmentView>, consumed: Seq<char>)
    requires
        stream_inv(m, emitted, consumed),
    ensures
        utf8_len(consumed) == m.offset + utf8_len(m.pending),
{
    lemma_tiles_len(emitted, 0, emitted_end(m));
    lemma_utf8_len_concat(sources(emitted), inflight(m));
    lemma_utf8_len_concat(sources(emitted) + inflight(m), m.pending);
}

/// Pushing a chunk keeps the stream invariant.
pub proof fn lemma_push_stream(m: SegmenterModel, emitted: Seq<SegmentView>, consumed: Seq<char>, chunk: Seq<char>)
    requires
        stream_inv(m, emitted, consumed),
        utf8_len(consumed + chunk) <= usize::MAX,
    ensures
        stream_inv(push(m, chunk).0, emitted + push(m, chunk).1, consumed + chunk),
        m.offset + utf8_len(m.pending) + utf8_len(chunk) <= usize::MAX,
{
    lemma_stream_offset(m, emitted, consumed);
    lemma_utf8_len_concat(consumed, chunk);
    lemma_utf8_len_concat(m.pending, chunk);
    let mp = SegmenterModel { pending: m.pending + chunk, ..m };
    lemma_process_stream(mp, false);
    let (m1, out) = process(mp, false);
    lemma_concat_stream(emitted, out, 0, emitted_end(m), emitted_end(m1));
    assert(inflight(mp) == inflight(m));
    let so = sources(out) + inflight(m1) + m1.pending;
    assert(so == inflight(m) + (m.pending + chunk));
    assert(sources(emitted + out) + inflight(m1) + m1.pending =~= sources(emitted) + so);
    assert(sources(emitted) + so =~= consumed + chunk);
}

/// Finishing consumes everything: the stream invariant holds with nothing open.
pub proof fn lemma_finish_stream(m: SegmenterModel, emitted: Seq<SegmentView>, consumed: Seq<char>)
    requires
        stream_inv(m, emitted, consumed),
    ensures
        ({
            let (m1, out) = finish(m);
            &&& stream_inv(m1, emitted + out, consumed)
            &&& inflight(m1).len() == 0
            &&& m1.pending.len() == 0
            &&& m1.mode is Text
        }),
{
    lemma_process_stream(m, true);
    let (m1, out) = process(m, true);
    let m2 = consume_unexpected_pending(m1);
    assert(m2 == m1);
    lemma_concat_stream(emitted, out, 0, emitted_end(m), emitted_end(m1));
    let all = emitted + out;
    assert(sources(all) + inflight(m1) =~= consumed) by {
        assert(m1.pending =~= Seq::<char>::empty());
        assert(sources(out) + inflight(m1) + m1.pending =~= sources(out) + inflight(m1));
        assert(sources(all) + inflight(m1) =~= sources(emitted) + (sources(out) + inflight(m1)));
        assert(sources(emitted) + (inflight(m) + m.pending) =~= consumed);
    }
    match m2.mode {
        ModeModel::Text => {
            lemma_flush_text_inv(m2, all);
            lemma_flush_stream(m2, all, 0);
            lemma_flush_stream(m2, out, emitted_end(m));
            let (m3, out3) = flush_text(m2, out);
            assert(flush_text(m2, out).1 =~= out3);
            lemma_concat_stream(emitted, out3, 0, emitted_end(m), m3.offset);
            assert(sources(emitted + out3) + inflight(m3) + m3.pending =~= consumed);
        },
        ModeModel::Math(c) => {
            let seg = text_segment(c.source, c.start, m2.offset);
            lemma_push_segment_stream(out, seg, emitted_end(m));
            let out3 = push_segment(out, seg);
            lemma_concat_stream(emitted, out3, 0, emitted_end(m), m2.offset);
            assert(sources(emitted + out3) =~= consumed);
        },
        ModeModel::Code(c) => {
            let seg = text_segment(c.source, c.start, m2.offset);
            lemma_push_segment_stream(out, seg, emitted_end(m));
            let out3 = push_segment(out, seg);
            lemma_concat_stream(emitted, out3, 0, emitted_end(m), m2.offset);
            assert(sources(emitted + out3) =~= consumed);
        },
    }
}

/// The state after pushing each chunk in turn, and every segment those pushes returned.
pub open spec fn feed(m: SegmenterModel, chunks: Seq<Seq<char>>) -> (SegmenterModel, Seq<SegmentView>)
    decreases chunks.len(),
{
    if chunks.len() == 0 {
        (m, Seq::empty())
    } else {
        let (m1, o1) = feed(m, chunks.drop_last());
        let (m2, o2) = push(m1, chunks.last());
        (m2, o1 + o2)
    }
}

/// The chunks of a stream joined in order.
pub open spec fn joined(chunks: Seq<Seq<char>>) -> Seq<char>
    decreases chunks.len(),
{
    if chunks.len() == 0 {
        Seq::empty()
    } else {
        joined(chunks.drop_last()) + chunks.last()
    }
}

/// Every segment of a stream in the order returned: those of each push, then those of
/// the final `finish`.
pub open spec fn stream_segments(config: SegmenterConfig, chunks: Seq<Seq<char>>) -> Seq<SegmentView> {
    let (m, out) = feed(initial(config), chunks);
    out + finish(m).1
}

proof fn lemma_initial_stream(config: SegmenterConfig)
    ensures
        stream_inv(initial(config), Seq::empty(), Seq::empty()),
{
    assert(utf8_len(Seq::<char>::empty()) == 0) by {
        assert(vstd::utf8::encode_utf8(Seq::<char>::empty()) =~= Seq::<u8>::empty());
    }
    let m = initial(config);
    assert(sources(Seq::<SegmentView>::empty()) + inflight(m) + m.pending =~= Seq::<char>::empty());
}

pub(crate) proof fn lemma_feed_stream(config: SegmenterConfig, chunks: Seq<Seq<char>>)
    requires
        utf8_len(joined(chunks)) <= usize::MAX,
    ensures
        stream_inv(feed(initial(config), chunks).0, feed(initial(config), chunks).1, joined(chunks)),
    decreases chunks.len(),
{
    if chunks.len() == 0 {
        lemma_initial_stream(config);
    } else {
        let prev = chunks.drop_last();
        lemma_utf8_len_concat(joined(prev), chunks.last());
        lemma_feed_stream(config, prev);
        let (m1, o1) = feed(initial(config), prev);
        lemma_push_stream(m1, o1, joined(prev), chunks.last());
    }
}

/// Segmentation loses nothing, however the stream is cut into chunks: the sources of
/// all segments returned by the pushes and the final `finish`, in order, spell the
/// whole input; their spans tile its UTF-8 bytes from 0 to its length, each span as
/// long as its source; and every text segment carries its source as its content.
pub proof fn law_segments_reassemble_the_stream(config: SegmenterConfig, chunks: Seq<Seq<char>>)
    requires
        utf8_len(joined(chunks)) <= usize::MAX,
    ensures
        sources(stream_segments(config, chunks)) == joined(chunks),
        tiles(stream_segments(config, chunks), 0, utf8_len(joined(chunks)) as int),
        texts_verbatim(stream_segments(config, chunks)),
{
    lemma_feed_stream(config, chunks);
    let (m, out) = feed(initial(config), chunks);
    lemma_finish_stream(m, out, joined(chunks));
    let (m1, out1) = finish(m);
    lemma_stream_offset(m1, out + out1, joined(chunks));
    assert(sources(out + out1) + inflight(m1) + m1.pending =~= sources(out + out1));
    assert(utf8_len(m1.pending) == 0) by {
        assert(vstd::utf8::encode_utf8(m1.pending) =~= Seq::<u8>::empty());
    }
    assert(utf8_len(inflight(m1)) == 0) by {
        assert(vstd::utf8::encode_utf8(inflight(m1)) =~= Seq::<u8>::empty());
    }
}

} // verus!
