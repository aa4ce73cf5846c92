//! The shape of every segment: text carries its source as its content, and math and
//! code carry their content between an opening and a matching closing delimiter.

use vstd::prelude::*;

use crate::segment::{SegmentKind, SegmentView, SegmenterConfig};
use crate::segmenter_laws::{feed, stream_segments};
use crate::segmenter_model::{
    CloserModel, CodeFlavor, CodeModel, MathModel, ModeModel, SegmenterModel, ascii_run, display_closer,
    display_opener, double_dollar, env_closer, env_count, env_opener, finish, flush_text, inline_closer,
    inline_opener, initial, process, process_loop, push, push_segment, repeat_char, single_dollar, step,
};
use crate::segmenter_streaming::pushes;

verus! {

/// An opening and closing delimiter that belong together for the kind of segment.
pub open spec fn delimiters(kind: SegmentKind, opener: Seq<char>, closer: Seq<char>) -> bool {
    ||| kind == SegmentKind::InlineMath && opener == inline_opener() && closer == inline_closer()
    ||| kind == SegmentKind::InlineMath && opener == single_dollar() && closer == single_dollar()
    ||| kind == SegmentKind::DisplayMath && opener == display_opener() && closer == display_closer()
    ||| kind == SegmentKind::DisplayMath && opener == double_dollar() && closer == double_dollar()
    ||| kind == SegmentKind::DisplayMath && exists|i: int|
        0 <= i < env_count() && opener == #[trigger] env_opener(i) && closer == env_closer(i)
    ||| kind == SegmentKind::Code && code_fences(opener, closer)
}

/// A run of backticks or tildes opens code, and a run of the same marker at least as
/// long closes it.
pub open spec fn code_fences(opener: Seq<char>, closer: Seq<char>) -> bool {
    exists|marker: char|
        (marker == '`' || marker == '~') && opener.len() >= 1 && closer.len() >= opener.len()
            && opener == #[trigger] repeat_char(marker, opener.len()) && closer == repeat_char(marker, closer.len())
}

/// A segment's shape: text is its own content, never empty; math and code are their
/// content between matching delimiters.
pub open spec fn segment_shaped(s: SegmentView) -> bool {
    if s.kind == SegmentKind::Text {
        s.content == s.source && s.source.len() > 0
    } else {
        exists|o: Seq<char>, k: Seq<char>| #[trigger] delimiters(s.kind, o, k) && s.source == o + s.content + k
    }
}

pub open spec fn all_shaped(segs: Seq<SegmentView>) -> bool {
    forall|i: int| 0 <= i < segs.len() ==> segment_shaped(#[trigger] segs[i])
}

/// The opener of an open math candidate: its source before its content.
pub open spec fn math_opener(c: MathModel) -> Seq<char> {
    c.source.take(c.source.len() - c.content.len())
}

/// An open math candidate is its opener followed by its content, and its closer belongs
/// to its opener.
pub open spec fn math_shaped(c: MathModel) -> bool {
    &&& c.source.len() > c.content.len()
    &&& c.source == math_opener(c) + c.content
    &&& match c.closer {
        CloserModel::Literal(cl) => delimiters(c.kind, math_opener(c), cl),
        CloserModel::SingleDollar => c.kind == SegmentKind::InlineMath && math_opener(c) == single_dollar(),
    }
}

/// An open code candidate is its run of markers followed by its content.
pub open spec fn code_shaped(c: CodeModel) -> bool {
    &&& c.marker == '`' || c.marker == '~'
    &&& c.marker_len >= 1
    &&& c.source == repeat_char(c.marker, c.marker_len as nat) + c.content
}

pub open spec fn candidate_shaped(m: SegmenterModel) -> bool {
    match m.mode {
        ModeModel::Text => true,
        ModeModel::Math(c) => math_shaped(c),
        ModeModel::Code(c) => code_shaped(c),
    }
}

proof fn lemma_push_shaped(out: Seq<SegmentView>, s: SegmentView)
    requires
        all_shaped(out),
        segment_shaped(s),
    ensures
        all_shaped(push_segment(out, s)),
{
    let r = push_segment(out, s);
    if out.len() > 0 && out.last().kind == SegmentKind::Text && s.kind == SegmentKind::Text && out.last().end == s.start {
        assert(segment_shaped(out.last()));
        assert forall|i: int| 0 <= i < r.len() implies segment_shaped(#[trigger] r[i]) by {
            if i < r.len() - 1 {
                assert(r[i] == out[i]);
            }
        }
    } else {
        assert forall|i: int| 0 <= i < r.len() implies segment_shaped(#[trigger] r[i]) by {
            if i < out.len() {
                assert(r[i] == out[i]);
            }
        }
    }
}

proof fn lemma_pushes_shaped(o: Seq<SegmentView>, f: Seq<SegmentView>)
    requires
        all_shaped(o),
        all_shaped(f),
    ensures
        all_shaped(pushes(o, f)),
    decreases f.len(),
{
    if f.len() > 0 {
        assert(all_shaped(f.drop_last())) by {
            assert forall|i: int| 0 <= i < f.drop_last().len() implies segment_shaped(#[trigger] f.drop_last()[i]) by {
                assert(f.drop_last()[i] == f[i]);
            }
        }
        lemma_pushes_shaped(o, f.drop_last());
        assert(segment_shaped(f[f.len() - 1]));
        lemma_push_shaped(pushes(o, f.drop_last()), f.last());
    }
}

proof fn lemma_flush_shaped(m: SegmenterModel, out: Seq<SegmentView>)
    requires
        all_shaped(out),
    ensures
        all_shaped(flush_text(m, out).1),
        flush_text(m, out).0.mode == m.mode,
{
    if m.text.len() > 0 {
        let start = match m.text_start {
            Some(s) => s,
            None => m.offset - crate::text::utf8_len(m.text),
        };
        lemma_push_shaped(out, crate::segmenter_model::text_segment(m.text, start, m.offset));
    }
}

proof fn lemma_open_math_shaped(m: SegmenterModel, opener: Seq<char>, closer: CloserModel, display: bool)
    requires
        match closer {
            CloserModel::Literal(cl) => delimiters(
                if display { SegmentKind::DisplayMath } else { SegmentKind::InlineMath },
                opener,
                cl,
            ),
            CloserModel::SingleDollar => !display && opener == single_dollar(),
        },
    ensures
        candidate_shaped(crate::segmenter_model::open_math_step(m, Seq::empty(), opener, closer, display).2),
        all_shaped(crate::segmenter_model::open_math_step(m, Seq::empty(), opener, closer, display).3),
{
    lemma_flush_shaped(m, Seq::empty());
    let s = crate::segmenter_model::open_math_step(m, Seq::empty(), opener, closer, display);
    if let ModeModel::Math(c) = s.2.mode {
        assert(c.source == opener);
        assert(c.content =~= Seq::<char>::empty());
        assert(math_opener(c) =~= opener);
        assert(c.source =~= math_opener(c) + c.content);
    }
}

proof fn lemma_open_code_shaped(m: SegmenterModel, marker: char, run: int, flavor: CodeFlavor)
    requires
        marker == '`' || marker == '~',
        run >= 1,
    ensures
        candidate_shaped(crate::segmenter_model::open_code_step(m, Seq::empty(), marker, run, flavor).2),
        all_shaped(crate::segmenter_model::open_code_step(m, Seq::empty(), marker, run, flavor).3),
{
    lemma_flush_shaped(m, Seq::empty());
    let s = crate::segmenter_model::open_code_step(m, Seq::empty(), marker, run, flavor);
    if let ModeModel::Code(c) = s.2.mode {
        assert(c.source =~= repeat_char(c.marker, c.marker_len as nat) + c.content);
    }
}

proof fn lemma_text_step_shaped(m: SegmenterModel, rem: Seq<char>, finishing: bool)
    requires
        m.mode is Text,
        rem.len() > 0,
    ensures
        candidate_shaped(crate::segmenter_model::process_text(m, rem, finishing, Seq::empty()).2),
        all_shaped(crate::segmenter_model::process_text(m, rem, finishing, Seq::empty()).3),
{
    let e = Seq::<SegmentView>::empty();
    crate::segmenter_model::lemma_ascii_run_props(rem, '`');
    crate::segmenter_model::lemma_ascii_run_props(rem, '~');
    assert forall|i: int| 0 <= i < env_count() implies delimiters(SegmentKind::DisplayMath, #[trigger] env_opener(i), env_closer(i)) by {}
    assert forall|op: Seq<char>, cl: CloserModel, d: bool|
        (match cl {
            CloserModel::Literal(k) => delimiters(if d { SegmentKind::DisplayMath } else { SegmentKind::InlineMath }, op, k),
            CloserModel::SingleDollar => !d && op == single_dollar(),
        }) implies candidate_shaped(#[trigger] crate::segmenter_model::open_math_step(m, e, op, cl, d).2) && all_shaped(
        crate::segmenter_model::open_math_step(m, e, op, cl, d).3,
    ) by {
        lemma_open_math_shaped(m, op, cl, d);
    }
    assert forall|mk: char, run: int, fl: CodeFlavor| (mk == '`' || mk == '~') && run >= 1 implies candidate_shaped(
        #[trigger] crate::segmenter_model::open_code_step(m, e, mk, run, fl).2,
    ) && all_shaped(crate::segmenter_model::open_code_step(m, e, mk, run, fl).3) by {
        lemma_open_code_shaped(m, mk, run, fl);
    }
    let r = crate::segmenter_model::process_text(m, rem, finishing, e);
    if rem[0] == '\\' && m.text_tb % 2 == 0 {
        match crate::segmenter_model::match_environment(rem, finishing) {
            crate::segmenter_model::EnvMatch::Full(i) => {
                crate::segmenter_model::lemma_first_env_match_props(rem, 0);
                assert(delimiters(SegmentKind::DisplayMath, env_opener(i), env_closer(i)));
                assert(candidate_shaped(r.2));
            },
            crate::segmenter_model::EnvMatch::Incomplete => {
                assert(candidate_shaped(r.2));
            },
            crate::segmenter_model::EnvMatch::NoMatch => {
                assert(candidate_shaped(r.2));
            },
        }
    } else {
        assert(candidate_shaped(crate::segmenter_model::text_dollar_step(m, rem, finishing, e).2));
    }
}

proof fn lemma_math_step_shaped(m: SegmenterModel, c: MathModel, rem: Seq<char>, finishing: bool)
    requires
        math_shaped(c),
        rem.len() > 0,
    ensures
        candidate_shaped(crate::segmenter_model::process_math(m, c, rem, finishing, Seq::empty()).2),
        all_shaped(crate::segmenter_model::process_math(m, c, rem, finishing, Seq::empty()).3),
{
    let e = Seq::<SegmentView>::empty();
    let o = math_opener(c);
    match crate::segmenter_model::math_close(c, rem, finishing) {
        crate::segmenter_model::CloseMatch::Full(n) => {
            let closer = rem.take(n);
            match c.closer {
                CloserModel::Literal(cl) => {
                    assert(closer =~= cl);
                },
                CloserModel::SingleDollar => {
                    assert(closer =~= single_dollar());
                },
            }
            let seg = crate::segmenter_model::process_math(m, c, rem, finishing, e).3[0];
            assert(crate::segmenter_model::process_math(m, c, rem, finishing, e).3 =~= seq![seg]);
            assert(seg.source =~= o + seg.content + closer);
            assert(delimiters(seg.kind, o, closer));
            assert(segment_shaped(seg));
        },
        crate::segmenter_model::CloseMatch::Incomplete => {},
        crate::segmenter_model::CloseMatch::NoMatch => {
            let raw = seq![rem[0]];
            let c1 = MathModel {
                source: c.source + raw,
                content: c.content + raw,
                tb: crate::segmenter_model::backslashes_after(c.tb, raw),
                ..c
            };
            assert(c1.source.take(c1.source.len() - c1.content.len()) =~= o);
            assert(c1.source =~= o + c1.content);
        },
    }
}

proof fn lemma_code_step_shaped(m: SegmenterModel, c: CodeModel, rem: Seq<char>, finishing: bool)
    requires
        code_shaped(c),
        rem.len() > 0,
    ensures
        candidate_shaped(crate::segmenter_model::process_code(m, c, rem, finishing, Seq::empty()).2),
        all_shaped(crate::segmenter_model::process_code(m, c, rem, finishing, Seq::empty()).3),
{
    let e = Seq::<SegmentView>::empty();
    let raw = seq![rem[0]];
    let c1 = CodeModel { source: c.source + raw, content: c.content + raw, ..c };
    assert(c1.source =~= repeat_char(c.marker, c.marker_len as nat) + c1.content);
    if rem[0] == c.marker {
        let run = ascii_run(rem, c.marker);
        crate::segmenter_model::lemma_ascii_run_props(rem, c.marker);
        crate::segmenter_model::lemma_run_is_prefix(rem, c.marker);
        if crate::segmenter_model::code_closes(m, c, run) && !(!finishing && run == rem.len()) {
            let closer = rem.take(run);
            let o = repeat_char(c.marker, c.marker_len as nat);
            let seg = crate::segmenter_model::process_code(m, c, rem, finishing, e).3[0];
            assert(crate::segmenter_model::process_code(m, c, rem, finishing, e).3 =~= seq![seg]);
            assert(seg.source =~= o + seg.content + closer);
            assert(code_fences(o, closer)) by {
                assert(o == repeat_char(c.marker, o.len()));
                assert(closer == repeat_char(c.marker, closer.len()));
            }
            assert(delimiters(seg.kind, o, closer));
        }
    }
}

/// Every step from a shaped state keeps it shaped and emits shaped segments.
proof fn lemma_step_shaped(m: SegmenterModel, rem: Seq<char>, finishing: bool)
    requires
        candidate_shaped(m),
        rem.len() > 0,
    ensures
        candidate_shaped(step(m, rem, finishing, Seq::empty()).2),
        all_shaped(step(m, rem, finishing, Seq::empty()).3),
{
    let mt = SegmenterModel { mode: ModeModel::Text, ..m };
    match m.mode {
        ModeModel::Text => lemma_text_step_shaped(m, rem, finishing),
        ModeModel::Math(c) => lemma_math_step_shaped(mt, c, rem, finishing),
        ModeModel::Code(c) => lemma_code_step_shaped(mt, c, rem, finishing),
    }
}

proof fn lemma_loop_shaped(m: SegmenterModel, input: Seq<char>, cursor: int, finishing: bool)
    requires
        candidate_shaped(m),
    ensures
        candidate_shaped(process_loop(m, input, cursor, finishing, Seq::empty()).0),
        all_shaped(process_loop(m, input, cursor, finishing, Seq::empty()).1),
    decreases input.len() - cursor,
{
    if 0 <= cursor < input.len() {
        let rem = input.subrange(cursor, input.len() as int);
        lemma_step_shaped(m, rem, finishing);
        let (cont, n, m1, e) = step(m, rem, finishing, Seq::empty());
        if cont && n > 0 && cursor + n <= input.len() {
            lemma_loop_shaped(m1, input, cursor + n, finishing);
            crate::segmenter_streaming::lemma_loop_out(m1, input, cursor + n, finishing, e);
            lemma_pushes_shaped(e, process_loop(m1, input, cursor + n, finishing, Seq::empty()).1);
        }
    }
}

proof fn lemma_process_shaped(m: SegmenterModel, finishing: bool)
    requires
        candidate_shaped(m),
    ensures
        candidate_shaped(process(m, finishing).0),
        all_shaped(process(m, finishing).1),
{
    let m0 = SegmenterModel { pending: Seq::empty(), ..m };
    lemma_loop_shaped(m0, m.pending, 0, finishing);
    let (m1, out, cursor) = process_loop(m0, m.pending, 0, finishing, Seq::empty());
    let m2 = SegmenterModel { pending: m.pending.subrange(cursor, m.pending.len() as int), ..m1 };
    lemma_flush_shaped(m2, out);
}

proof fn lemma_finish_shaped(m: SegmenterModel)
    requires
        candidate_shaped(m),
    ensures
        all_shaped(finish(m).1),
{
    lemma_process_shaped(m, true);
    let (m1, out) = process(m, true);
    let m2 = crate::segmenter_model::consume_unexpected_pending(m1);
    match m2.mode {
        ModeModel::Text => lemma_flush_shaped(m2, out),
        ModeModel::Math(c) => lemma_push_shaped(out, crate::segmenter_model::text_segment(c.source, c.start, m2.offset)),
        ModeModel::Code(c) => lemma_push_shaped(out, crate::segmenter_model::text_segment(c.source, c.start, m2.offset)),
    }
}

proof fn lemma_concat_shaped(a: Seq<SegmentView>, b: Seq<SegmentView>)
    requires
        all_shaped(a),
        all_shaped(b),
    ensures
        all_shaped(a + b),
{
    assert forall|i: int| 0 <= i < (a + b).len() implies segment_shaped(#[trigger] (a + b)[i]) by {
        if i < a.len() {
            assert((a + b)[i] == a[i]);
        } else {
            assert((a + b)[i] == b[i - a.len()]);
        }
    }
}

proof fn lemma_feed_shaped(config: SegmenterConfig, chunks: Seq<Seq<char>>)
    ensures
        candidate_shaped(feed(initial(config), chunks).0),
        all_shaped(feed(initial(config), chunks).1),
    decreases chunks.len(),
{
    if chunks.len() > 0 {
        lemma_feed_shaped(config, chunks.drop_last());
        let (m, o) = feed(initial(config), chunks.drop_last());
        let mp = SegmenterModel { pending: m.pending + chunks.last(), ..m };
        lemma_process_shaped(mp, false);
        lemma_concat_shaped(o, push(m, chunks.last()).1);
    }
}

/// Every segment of a stream has its shape: a text segment carries its source as its
/// content; a math segment is its content between `\(` and `\)`, `$` and `$`, `\[`
/// and `\]`, `$$` and `$$`, or `\begin{e}` and `\end{e}` for a supported environment
/// `e`; a code segment is its content between a run of backticks or tildes and a run of
/// the same marker at least as long.
pub proof fn law_segments_have_their_delimiters(config: SegmenterConfig, chunks: Seq<Seq<char>>)
    ensures
        all_shaped(stream_segments(config, chunks)),
{
    lemma_feed_shaped(config, chunks);
    let (m, o) = feed(initial(config), chunks);
    lemma_finish_shaped(m);
    lemma_concat_shaped(o, finish(m).1);
}

proof fn lemma_sources_empty(segs: Seq<SegmentView>)
    requires
        all_shaped(segs),
    ensures
        crate::segmenter_laws::sources(segs).len() == 0 <==> segs.len() == 0,
    decreases segs.len(),
{
    if segs.len() > 0 {
        assert(segment_shaped(segs[segs.len() - 1]));
        let last = segs.last();
        if last.kind != SegmentKind::Text {
            let (o, k) = choose|o: Seq<char>, k: Seq<char>| #[trigger] delimiters(last.kind, o, k) && last.source == o + last.content + k;
            if exists|i: int| 0 <= i < env_count() && o == #[trigger] env_opener(i) && k == env_closer(i) {
                let i = choose|i: int| 0 <= i < env_count() && o == #[trigger] env_opener(i) && k == env_closer(i);
                assert(o.len() > 0);
            }
            assert(o.len() > 0);
            assert(last.source.len() > 0);
        }
    }
}

/// A stream yields segments exactly when it has input: no segment for an empty
/// stream, and at least one for any other.
pub proof fn law_segments_exactly_for_input(config: SegmenterConfig, chunks: Seq<Seq<char>>)
    requires
        crate::text::utf8_len(crate::segmenter_laws::joined(chunks)) <= usize::MAX,
    ensures
        stream_segments(config, chunks).len() == 0 <==> crate::segmenter_laws::joined(chunks).len() == 0,
{
    law_segments_have_their_delimiters(config, chunks);
    crate::segmenter_laws::law_segments_reassemble_the_stream(config, chunks);
    lemma_sources_empty(stream_segments(config, chunks));
}

} // verus!
