//! Single dollar delimiters: which bodies a pair of dollars encloses as inline math.

use vstd::prelude::*;

use crate::segment::{InlineDollarMode, SegmentKind, SegmentView, SegmenterConfig};
use crate::segmenter_laws::{feed, stream_segments};
use crate::segmenter_model::{
    CloseMatch, CloserModel, MathModel, ModeModel, SegmenterModel, backslashes_after,
    can_open_single_dollar, consume_unexpected_pending, double_dollar, finish, flush_text, initial,
    inline_opener, math_close, open_math_step, process, process_code, process_loop, process_math,
    process_text, push, push_segment, single_dollar, step, text_default_step, text_dollar_step,
    text_segment,
};
use crate::segmenter_streaming::{lemma_loop_out, pushes};
use crate::text::{lemma_utf8_len_concat, spec_is_ascii_digit, spec_is_whitespace, utf8_len};

verus! {

/// A body between two dollars: the text `$body$`.
pub open spec fn dollar_enclosed(body: Seq<char>) -> Seq<char> {
    seq!['$'] + body + seq!['$']
}

/// Whether a single dollar may open inline math before this character: never with
/// dollars off, before any character but whitespace when they are always on, and before
/// any character but whitespace and ASCII digits when they are smart.
pub open spec fn dollar_opens_before(mode: InlineDollarMode, next: char) -> bool {
    match mode {
        InlineDollarMode::Off => false,
        InlineDollarMode::Smart => !spec_is_whitespace(next) && !spec_is_ascii_digit(next),
        InlineDollarMode::Always => !spec_is_whitespace(next),
    }
}

/// A body that a single dollar closes: it is not empty, holds no dollar, and ends with
/// a character that is not whitespace and is not escaped by an odd run of backslashes.
pub open spec fn single_dollar_body(body: Seq<char>) -> bool {
    &&& body.len() > 0
    &&& forall|i: int| 0 <= i < body.len() ==> body[i] != '$'
    &&& !spec_is_whitespace(body.last())
    &&& backslashes_after(0, body) % 2 == 0
}

proof fn lemma_backslashes_step(tb: int, s: Seq<char>, k: int)
    requires
        0 <= k < s.len(),
        tb == backslashes_after(0, s.take(k)),
    ensures
        backslashes_after(tb, seq![s[k]]) == backslashes_after(0, s.take(k + 1)),
{
    let raw = seq![s[k]];
    assert(raw.drop_last() =~= Seq::<char>::empty());
    assert(backslashes_after(tb, raw.drop_last()) == tb);
    assert(s.take(k + 1).drop_last() =~= s.take(k));
    assert(s.take(k + 1).last() == s[k]);
    assert(backslashes_after(0, s.take(k + 1).drop_last()) == tb);
}

/// Inside an open single dollar candidate, the rest of `$body$` is taken into the
/// candidate until the closing dollar emits one inline math segment.
proof fn lemma_single_dollar_body(m: SegmenterModel, body: Seq<char>, k: int)
    requires
        single_dollar_body(body),
        0 <= k <= body.len(),
        m.text.len() == 0,
        m.offset == utf8_len(seq!['$'] + body.take(k)),
        m.mode matches ModeModel::Math(c) && c.kind == SegmentKind::InlineMath && c.source == seq!['$']
            + body.take(k) && c.content == body.take(k) && c.closer == CloserModel::SingleDollar && c.start == 0
            && c.tb == backslashes_after(0, body.take(k)),
    ensures
        ({
            let r = process_loop(m, dollar_enclosed(body), 1 + k, false, Seq::empty());
            &&& r.0.mode is Text
            &&& r.0.text.len() == 0
            &&& r.2 == dollar_enclosed(body).len()
            &&& r.1 == seq![
                SegmentView {
                    kind: SegmentKind::InlineMath,
                    source: dollar_enclosed(body),
                    content: body,
                    start: 0,
                    end: utf8_len(dollar_enclosed(body)) as int,
                },
            ]
        }),
    decreases body.len() - k,
{
    let input = dollar_enclosed(body);
    let rem = input.subrange(1 + k, input.len() as int);
    let c = m.mode->Math_0;
    let e = Seq::<SegmentView>::empty();
    if k < body.len() {
        assert(rem[0] == body[k]);
        assert(math_close(c, rem, false) is NoMatch);
        let s = step(m, rem, false, e);
        let raw = seq![body[k]];
        lemma_backslashes_step(c.tb, body, k);
        assert(seq!['$'] + body.take(k) + raw =~= seq!['$'] + body.take(k + 1));
        assert(body.take(k) + raw =~= body.take(k + 1));
        lemma_utf8_len_concat(seq!['$'] + body.take(k), raw);
        assert(s.0 && s.1 == 1 && s.3 == e);
        assert(s.2.text.len() == 0);
        assert(s.2.offset == utf8_len(seq!['$'] + body.take(k + 1)));
        assert(s.2.mode matches ModeModel::Math(c1) && c1.kind == SegmentKind::InlineMath);
        lemma_single_dollar_body(s.2, body, k + 1);
        assert(process_loop(m, input, 1 + k, false, e) == process_loop(s.2, input, 1 + k + 1, false, e));
    } else {
        assert(body.take(k) =~= body);
        assert(rem =~= seq!['$']);
        assert(math_close(c, rem, false) == CloseMatch::Full(1));
        assert(rem.take(1) =~= seq!['$']);
        assert(c.source + rem.take(1) =~= input);
        lemma_utf8_len_concat(seq!['$'] + body, seq!['$']);
        let s = step(m, rem, false, e);
        assert(s.0 && s.1 == 1);
        assert(s.2.mode is Text);
        assert(s.2.text.len() == 0);
        assert(process_loop(m, input, 1 + k, false, e) == process_loop(s.2, input, 1 + k + 1, false, s.3));
        assert(s.3 =~= seq![
            SegmentView {
                kind: SegmentKind::InlineMath,
                source: input,
                content: body,
                start: 0,
                end: utf8_len(input) as int,
            },
        ]);
    }
}

/// A single dollar opens inline math before every character that its mode lets it
/// open before (with smart dollars, any character but whitespace and ASCII digits):
/// `$body$`, for every such first character of a body that holds no dollar and ends in
/// a character that is neither whitespace nor escaped, is one inline math segment whose
/// content is the body and whose source is the whole input.
pub proof fn law_single_dollars_enclose_inline_math(config: SegmenterConfig, body: Seq<char>)
    requires
        single_dollar_body(body),
        dollar_opens_before(config.inline_dollars, body[0]),
    ensures
        stream_segments(config, seq![dollar_enclosed(body)]) == seq![
            SegmentView {
                kind: SegmentKind::InlineMath,
                source: dollar_enclosed(body),
                content: body,
                start: 0,
                end: utf8_len(dollar_enclosed(body)) as int,
            },
        ],
{
    let input = dollar_enclosed(body);
    let chunks = seq![input];
    let m0 = initial(config);
    let e = Seq::<SegmentView>::empty();
    assert(chunks.drop_last() =~= Seq::<Seq<char>>::empty());
    assert(feed(m0, chunks.drop_last()) == (m0, e));
    let mp = SegmenterModel { pending: m0.pending + input, ..m0 };
    assert(mp.pending =~= input);
    let ml = SegmenterModel { pending: Seq::empty(), ..mp };
    let rem = input.subrange(0, input.len() as int);
    assert(rem =~= input);
    assert(rem[1] == body[0]);
    assert(!double_dollar().is_prefix_of(rem)) by {
        if double_dollar().is_prefix_of(rem) {
            assert(rem.subrange(0, 2)[1] == double_dollar()[1]);
        }
    }
    assert(rem.drop_first()[0] == body[0]);
    let s = step(ml, rem, false, e);
    assert(single_dollar() =~= seq!['$'] + body.take(0));
    assert(body.take(0) =~= Seq::<char>::empty());
    assert(utf8_len(Seq::<char>::empty()) == 0) by {
        assert(vstd::utf8::encode_utf8(Seq::<char>::empty()) =~= Seq::<u8>::empty());
    }
    assert(s.0 && s.1 == 1 && s.3 == e);
    lemma_single_dollar_body(s.2, body, 0);
    let r = process_loop(ml, input, 0, false, e);
    assert(r == process_loop(s.2, input, 1, false, e));
    let (m1, o1) = push(m0, input);
    assert(o1 == r.1);
    assert(m1.mode is Text && m1.text.len() == 0);
    assert(m1.pending.len() == 0);
    assert(feed(m0, chunks) == (m1, e + o1));
    let (m2, o2) = finish(m1);
    assert(process(m1, true).1 == e);
    assert(o2 =~= e);
    assert(e + o1 + o2 =~= o1);
}

/// A segment that is inline math begins with `\(`: no single dollar opened it.
pub open spec fn not_dollar_math(s: SegmentView) -> bool {
    s.kind == SegmentKind::InlineMath ==> inline_opener().is_prefix_of(s.source)
}

pub open spec fn none_dollar_math(segs: Seq<SegmentView>) -> bool {
    forall|i: int| 0 <= i < segs.len() ==> not_dollar_math(#[trigger] segs[i])
}

/// A state with dollars off, whose open inline math candidate began with `\(`.
pub open spec fn dollars_off(m: SegmenterModel) -> bool {
    &&& m.config.inline_dollars == InlineDollarMode::Off
    &&& m.mode matches ModeModel::Math(c) ==> (c.kind == SegmentKind::InlineMath ==> inline_opener().is_prefix_of(
        c.source,
    ))
}

proof fn lemma_prefix_extends(p: Seq<char>, a: Seq<char>, b: Seq<char>)
    requires
        p.is_prefix_of(a),
    ensures
        p.is_prefix_of(a + b),
{
    assert((a + b).subrange(0, p.len() as int) =~= a.subrange(0, p.len() as int));
}

proof fn lemma_push_not_dollar(out: Seq<SegmentView>, s: SegmentView)
    requires
        none_dollar_math(out),
        not_dollar_math(s),
    ensures
        none_dollar_math(push_segment(out, s)),
{
    let r = push_segment(out, s);
    assert forall|i: int| 0 <= i < r.len() implies not_dollar_math(#[trigger] r[i]) by {
        if i < out.len() && i < r.len() - 1 {
            assert(r[i] == out[i]);
        }
    }
}

proof fn lemma_pushes_not_dollar(o: Seq<SegmentView>, f: Seq<SegmentView>)
    requires
        none_dollar_math(o),
        none_dollar_math(f),
    ensures
        none_dollar_math(pushes(o, f)),
    decreases f.len(),
{
    if f.len() > 0 {
        assert(none_dollar_math(f.drop_last())) by {
            assert forall|i: int| 0 <= i < f.drop_last().len() implies not_dollar_math(#[trigger] f.drop_last()[i]) by {
                assert(f.drop_last()[i] == f[i]);
            }
        }
        lemma_pushes_not_dollar(o, f.drop_last());
        assert(not_dollar_math(f[f.len() - 1]));
        lemma_push_not_dollar(pushes(o, f.drop_last()), f.last());
    }
}

proof fn lemma_concat_not_dollar(a: Seq<SegmentView>, b: Seq<SegmentView>)
    requires
        none_dollar_math(a),
        none_dollar_math(b),
    ensures
        none_dollar_math(a + b),
{
    assert forall|i: int| 0 <= i < (a + b).len() implies not_dollar_math(#[trigger] (a + b)[i]) by {
        if i < a.len() {
            assert((a + b)[i] == a[i]);
        } else {
            assert((a + b)[i] == b[i - a.len()]);
        }
    }
}

proof fn lemma_flush_not_dollar(m: SegmenterModel, out: Seq<SegmentView>)
    requires
        none_dollar_math(out),
    ensures
        none_dollar_math(flush_text(m, out).1),
        flush_text(m, out).0.mode == m.mode,
        flush_text(m, out).0.config == m.config,
{
    if m.text.len() > 0 {
        let start = match m.text_start {
            Some(s) => s,
            None => m.offset - utf8_len(m.text),
        };
        lemma_push_not_dollar(out, text_segment(m.text, start, m.offset));
    }
}

proof fn lemma_text_step_not_dollar(m: SegmenterModel, rem: Seq<char>, finishing: bool)
    requires
        dollars_off(m),
        m.mode is Text,
        rem.len() > 0,
    ensures
        dollars_off(process_text(m, rem, finishing, Seq::empty()).2),
        none_dollar_math(process_text(m, rem, finishing, Seq::empty()).3),
{
    let e = Seq::<SegmentView>::empty();
    lemma_flush_not_dollar(m, e);
    assert(!can_open_single_dollar(m, rem.drop_first()));
    assert forall|op: Seq<char>, cl: CloserModel, d: bool|
        (d || op == inline_opener()) implies dollars_off(#[trigger] open_math_step(m, e, op, cl, d).2) && none_dollar_math(
        open_math_step(m, e, op, cl, d).3,
    ) by {
        let s = open_math_step(m, e, op, cl, d);
        if !d {
            assert(s.2.mode->Math_0.source == op);
            assert(inline_opener().is_prefix_of(op));
        }
    }
    let r = process_text(m, rem, finishing, e);
    assert(dollars_off(text_dollar_step(m, rem, finishing, e).2));
    assert(dollars_off(r.2));
}

proof fn lemma_math_step_not_dollar(m: SegmenterModel, c: MathModel, rem: Seq<char>, finishing: bool)
    requires
        dollars_off(SegmenterModel { mode: ModeModel::Math(c), ..m }),
        m.mode is Text,
        rem.len() > 0,
    ensures
        dollars_off(process_math(m, c, rem, finishing, Seq::empty()).2),
        none_dollar_math(process_math(m, c, rem, finishing, Seq::empty()).3),
{
    let e = Seq::<SegmentView>::empty();
    match math_close(c, rem, finishing) {
        CloseMatch::Full(n) => {
            let closer = rem.take(n);
            if c.kind == SegmentKind::InlineMath {
                lemma_prefix_extends(inline_opener(), c.source, closer);
            }
            let r = process_math(m, c, rem, finishing, e);
            assert(r.3 =~= seq![r.3[0]]);
        },
        CloseMatch::Incomplete => {},
        CloseMatch::NoMatch => {
            if c.kind == SegmentKind::InlineMath {
                lemma_prefix_extends(inline_opener(), c.source, seq![rem[0]]);
            }
        },
    }
}

proof fn lemma_step_not_dollar(m: SegmenterModel, rem: Seq<char>, finishing: bool)
    requires
        dollars_off(m),
        rem.len() > 0,
    ensures
        dollars_off(step(m, rem, finishing, Seq::empty()).2),
        none_dollar_math(step(m, rem, finishing, Seq::empty()).3),
{
    let mt = SegmenterModel { mode: ModeModel::Text, ..m };
    let e = Seq::<SegmentView>::empty();
    match m.mode {
        ModeModel::Text => lemma_text_step_not_dollar(m, rem, finishing),
        ModeModel::Math(c) => {
            assert(SegmenterModel { mode: ModeModel::Math(c), ..mt } == m);
            lemma_math_step_not_dollar(mt, c, rem, finishing);
        },
        ModeModel::Code(c) => {
            let r = process_code(mt, c, rem, finishing, e);
            if r.3.len() > 0 {
                assert(r.3 =~= seq![r.3[0]]);
            }
        },
    }
}

proof fn lemma_loop_not_dollar(m: SegmenterModel, input: Seq<char>, cursor: int, finishing: bool)
    requires
        dollars_off(m),
    ensures
        dollars_off(process_loop(m, input, cursor, finishing, Seq::empty()).0),
        none_dollar_math(process_loop(m, input, cursor, finishing, Seq::empty()).1),
    decreases input.len() - cursor,
{
    if 0 <= cursor < input.len() {
        let rem = input.subrange(cursor, input.len() as int);
        lemma_step_not_dollar(m, rem, finishing);
        let (cont, n, m1, e) = step(m, rem, finishing, Seq::empty());
        if cont && n > 0 && cursor + n <= input.len() {
            lemma_loop_not_dollar(m1, input, cursor + n, finishing);
            lemma_loop_out(m1, input, cursor + n, finishing, e);
            lemma_pushes_not_dollar(e, process_loop(m1, input, cursor + n, finishing, Seq::empty()).1);
        }
    }
}

proof fn lemma_process_not_dollar(m: SegmenterModel, finishing: bool)
    requires
        dollars_off(m),
    ensures
        dollars_off(process(m, finishing).0),
        none_dollar_math(process(m, finishing).1),
{
    let m0 = SegmenterModel { pending: Seq::empty(), ..m };
    lemma_loop_not_dollar(m0, m.pending, 0, finishing);
    let (m1, out, cursor) = process_loop(m0, m.pending, 0, finishing, Seq::empty());
    let m2 = SegmenterModel { pending: m.pending.subrange(cursor, m.pending.len() as int), ..m1 };
    lemma_flush_not_dollar(m2, out);
}

proof fn lemma_finish_not_dollar(m: SegmenterModel)
    requires
        dollars_off(m),
    ensures
        none_dollar_math(finish(m).1),
{
    lemma_process_not_dollar(m, true);
    let (m1, out) = process(m, true);
    let m2 = consume_unexpected_pending(m1);
    match m2.mode {
        ModeModel::Text => lemma_flush_not_dollar(m2, out),
        ModeModel::Math(c) => lemma_push_not_dollar(out, text_segment(c.source, c.start, m2.offset)),
        ModeModel::Code(c) => lemma_push_not_dollar(out, text_segment(c.source, c.start, m2.offset)),
    }
}

proof fn lemma_feed_not_dollar(config: SegmenterConfig, chunks: Seq<Seq<char>>)
    requires
        config.inline_dollars == InlineDollarMode::Off,
    ensures
        dollars_off(feed(initial(config), chunks).0),
        none_dollar_math(feed(initial(config), chunks).1),
    decreases chunks.len(),
{
    if chunks.len() > 0 {
        lemma_feed_not_dollar(config, chunks.drop_last());
        let (m, o) = feed(initial(config), chunks.drop_last());
        let mp = SegmenterModel { pending: m.pending + chunks.last(), ..m };
        lemma_process_not_dollar(mp, false);
        lemma_concat_not_dollar(o, push(m, chunks.last()).1);
    }
}

/// With single dollars off, no dollar opens inline math, however the stream is cut
/// into chunks: every inline math segment begins with `\(`.
pub proof fn law_dollars_off_open_no_inline_math(config: SegmenterConfig, chunks: Seq<Seq<char>>)
    requires
        config.inline_dollars == InlineDollarMode::Off,
    ensures
        none_dollar_math(stream_segments(config, chunks)),
{
    lemma_feed_not_dollar(config, chunks);
    let (m, o) = feed(initial(config), chunks);
    lemma_finish_not_dollar(m);
    lemma_concat_not_dollar(o, finish(m).1);
}

/// A character that opens nothing in text: no dollar, backslash, backtick or tilde.
pub open spec fn plain_char(ch: char) -> bool {
    ch != '$' && ch != '\\' && ch != '`' && ch != '~'
}

/// Every segment is text.
pub open spec fn all_text(segs: Seq<SegmentView>) -> bool {
    forall|i: int| 0 <= i < segs.len() ==> (#[trigger] segs[i]).kind == SegmentKind::Text
}

proof fn lemma_flush_all_text(m: SegmenterModel)
    ensures
        all_text(flush_text(m, Seq::empty()).1),
        flush_text(m, Seq::empty()).0.mode == m.mode,
        flush_text(m, Seq::empty()).0.text_tb == m.text_tb,
        flush_text(m, Seq::empty()).0.pending == m.pending,
        flush_text(m, Seq::empty()).0.text.len() == 0,
{
}

/// In text, plain characters are only buffered, up to a closing dollar that waits for
/// more input.
proof fn lemma_plain_text_loop(m: SegmenterModel, input: Seq<char>, k: int)
    requires
        m.mode is Text,
        m.text_tb == 0,
        1 <= k < input.len(),
        input.last() == '$',
        forall|i: int| k <= i < input.len() - 1 ==> plain_char(#[trigger] input[i]),
    ensures
        ({
            let r = process_loop(m, input, k, false, Seq::empty());
            &&& r.0.mode is Text
            &&& r.0.text_tb == 0
            &&& r.1 == Seq::<SegmentView>::empty()
            &&& r.2 == input.len() - 1
        }),
    decreases input.len() - k,
{
    let rem = input.subrange(k, input.len() as int);
    let e = Seq::<SegmentView>::empty();
    if k < input.len() - 1 {
        assert(rem[0] == input[k]);
        assert(plain_char(input[k]));
        let s = step(m, rem, false, e);
        assert(s == text_default_step(m, rem, e));
        let raw = seq![rem[0]];
        assert(raw.last() == rem[0]);
        assert(backslashes_after(0, raw) == 0);
        lemma_plain_text_loop(s.2, input, k + 1);
    } else {
        assert(rem =~= seq!['$']);
        assert(!double_dollar().is_prefix_of(rem));
    }
}

/// A single dollar before a character that its mode does not let it open before is
/// text (with smart dollars, a dollar before a digit is an amount): `$body$`, for every
/// such first character of a body that holds only characters that open nothing, is
/// text alone.
pub proof fn law_dollars_that_cannot_open_stay_text(config: SegmenterConfig, body: Seq<char>)
    requires
        body.len() > 0,
        !dollar_opens_before(config.inline_dollars, body[0]),
        forall|i: int| 0 <= i < body.len() ==> plain_char(#[trigger] body[i]),
    ensures
        all_text(stream_segments(config, seq![dollar_enclosed(body)])),
{
    let input = dollar_enclosed(body);
    let chunks = seq![input];
    let m0 = initial(config);
    let e = Seq::<SegmentView>::empty();
    assert(chunks.drop_last() =~= Seq::<Seq<char>>::empty());
    assert(feed(m0, chunks.drop_last()) == (m0, e));
    let mp = SegmenterModel { pending: m0.pending + input, ..m0 };
    assert(mp.pending =~= input);
    let ml = SegmenterModel { pending: Seq::empty(), ..mp };
    let rem = input.subrange(0, input.len() as int);
    assert(rem =~= input);
    assert(rem[1] == body[0]);
    assert(!double_dollar().is_prefix_of(rem)) by {
        if double_dollar().is_prefix_of(rem) {
            assert(rem.subrange(0, 2)[1] == double_dollar()[1]);
        }
    }
    assert(rem.drop_first()[0] == body[0]);
    assert(!can_open_single_dollar(ml, rem.drop_first()));
    let s = step(ml, rem, false, e);
    assert(s == text_default_step(ml, rem, e));
    assert(seq![rem[0]].last() == '$');
    assert(backslashes_after(0, seq![rem[0]]) == 0);
    assert forall|i: int| 1 <= i < input.len() - 1 implies plain_char(#[trigger] input[i]) by {
        assert(input[i] == body[i - 1]);
    }
    lemma_plain_text_loop(s.2, input, 1);
    let r = process_loop(ml, input, 0, false, e);
    assert(r == process_loop(s.2, input, 1, false, e));
    let m2 = SegmenterModel { pending: input.subrange(r.2, input.len() as int), ..r.0 };
    lemma_flush_all_text(m2);
    let (m3, o1) = push(m0, input);
    assert((m3, o1) == flush_text(m2, e));
    assert(m3.pending =~= seq!['$']);
    assert(feed(m0, chunks) == (m3, e + o1));
    let ml2 = SegmenterModel { pending: Seq::empty(), ..m3 };
    let rem2 = m3.pending.subrange(0, 1);
    assert(rem2 =~= seq!['$']);
    assert(!double_dollar().is_prefix_of(rem2));
    assert(!can_open_single_dollar(ml2, rem2.drop_first()));
    let s2 = step(ml2, rem2, true, e);
    assert(s2 == text_default_step(ml2, rem2, e));
    let r2 = process_loop(ml2, m3.pending, 0, true, e);
    assert(r2 == process_loop(s2.2, m3.pending, 1, true, e));
    let m5 = SegmenterModel { pending: m3.pending.subrange(1, 1), ..s2.2 };
    lemma_flush_all_text(m5);
    let (m6, o6) = process(m3, true);
    assert((m6, o6) == flush_text(m5, e));
    assert(consume_unexpected_pending(m6) == m6);
    assert(flush_text(m6, o6) == (m6, o6));
    let o2 = finish(m3).1;
    assert(o2 == o6);
    assert(stream_segments(config, chunks) == e + o1 + o2);
    assert forall|i: int| 0 <= i < (e + o1 + o2).len() implies (#[trigger] (e + o1 + o2)[i]).kind == SegmentKind::Text by {
        if i < o1.len() {
            assert((e + o1 + o2)[i] == o1[i]);
        } else {
            assert((e + o1 + o2)[i] == o2[i - o1.len()]);
        }
    }
}

} // verus!
