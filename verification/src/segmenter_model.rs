//! Mathematical model of the streaming segmenter: its state and every transition.

use vstd::prelude::*;

use crate::segment::{InlineDollarMode, SegmentKind, SegmentView, SegmenterConfig};
use crate::text::{lemma_utf8_len_concat, spec_is_ascii_digit, spec_is_whitespace, utf8_len};

verus! {

/// How a math candidate is closed.
#[verifier::ext_equal]
pub enum CloserModel {
    /// A fixed closing delimiter.
    Literal(Seq<char>),
    /// A single dollar that follows non-whitespace content.
    SingleDollar,
}

/// Whether an open code span is inline or a fenced block.
#[derive(Clone, Copy, Debug, PartialEq, Eq, Structural)]
pub enum CodeFlavor {
    Inline,
    Fence,
}

/// An open math candidate.
#[verifier::ext_equal]
pub struct MathModel {
    pub kind: SegmentKind,
    pub source: Seq<char>,
    pub content: Seq<char>,
    pub closer: CloserModel,
    pub start: int,
    pub tb: int,
}

/// An open code candidate.
#[verifier::ext_equal]
pub struct CodeModel {
    pub source: Seq<char>,
    pub content: Seq<char>,
    pub marker: char,
    pub marker_len: int,
    pub flavor: CodeFlavor,
    pub start: int,
}

/// What the segmenter is currently inside of.
#[verifier::ext_equal]
pub enum ModeModel {
    Text,
    Math(MathModel),
    Code(CodeModel),
}

/// The complete state of a segmenter.
#[verifier::ext_equal]
pub struct SegmenterModel {
    pub config: SegmenterConfig,
    pub mode: ModeModel,
    pub pending: Seq<char>,
    pub text: Seq<char>,
    pub text_start: Option<int>,
    pub offset: int,
    pub line_prefix: Option<int>,
    pub text_tb: int,
}

/// Result of one parsing step: whether to continue, characters consumed, new state, output.
pub type StepModel = (bool, int, SegmenterModel, Seq<SegmentView>);

pub open spec fn line_prefix_step(lp: Option<int>, c: char) -> Option<int> {
    if c == '\n' {
        Some(0)
    } else if c == ' ' {
        match lp {
            Some(n) => if n < 3 {
                Some(n + 1)
            } else {
                None
            },
            None => None,
        }
    } else {
        None
    }
}

/// Count of leading spaces on the current line (at most three), after `raw`.
pub open spec fn line_prefix_after(lp: Option<int>, raw: Seq<char>) -> Option<int>
    decreases raw.len(),
{
    if raw.len() == 0 {
        lp
    } else {
        line_prefix_step(line_prefix_after(lp, raw.drop_last()), raw.last())
    }
}

/// Number of consecutive backslashes that end the text, after `raw`.
pub open spec fn backslashes_after(tb: int, raw: Seq<char>) -> int
    decreases raw.len(),
{
    if raw.len() == 0 {
        tb
    } else if raw.last() == '\\' {
        backslashes_after(tb, raw.drop_last()) + 1
    } else {
        0
    }
}

pub open spec fn advance(m: SegmenterModel, raw: Seq<char>) -> SegmenterModel {
    SegmenterModel {
        offset: m.offset + utf8_len(raw),
        line_prefix: line_prefix_after(m.line_prefix, raw),
        ..m
    }
}

pub open spec fn fence_eligible(m: SegmenterModel) -> bool {
    m.line_prefix is Some
}

/// Appends a segment, merging it into a directly preceding text segment.
pub open spec fn push_segment(out: Seq<SegmentView>, seg: SegmentView) -> Seq<SegmentView> {
    if out.len() > 0 && out.last().kind == SegmentKind::Text && seg.kind == SegmentKind::Text
        && out.last().end == seg.start {
        out.drop_last().push(
            SegmentView {
                kind: SegmentKind::Text,
                source: out.last().source + seg.source,
                content: out.last().content + seg.content,
                start: out.last().start,
                end: seg.end,
            },
        )
    } else {
        out.push(seg)
    }
}

pub open spec fn text_segment(source: Seq<char>, start: int, end: int) -> SegmentView {
    SegmentView { kind: SegmentKind::Text, source, content: source, start, end }
}

pub open spec fn flush_text(m: SegmenterModel, out: Seq<SegmentView>) -> (
    SegmenterModel,
    Seq<SegmentView>,
) {
    if m.text.len() == 0 {
        (m, out)
    } else {
        let start = match m.text_start {
            Some(s) => s,
            None => m.offset - utf8_len(m.text),
        };
        (
            SegmenterModel { text: Seq::empty(), text_start: None, ..m },
            push_segment(out, text_segment(m.text, start, m.offset)),
        )
    }
}

pub open spec fn open_math(
    m: SegmenterModel,
    out: Seq<SegmentView>,
    opener: Seq<char>,
    closer: CloserModel,
    display: bool,
) -> (SegmenterModel, Seq<SegmentView>) {
    let (m1, out1) = flush_text(m, out);
    let m2 = advance(m1, opener);
    (
        SegmenterModel {
            text_tb: 0,
            mode: ModeModel::Math(
                MathModel {
                    kind: if display {
                        SegmentKind::DisplayMath
                    } else {
                        SegmentKind::InlineMath
                    },
                    source: opener,
                    content: Seq::empty(),
                    closer,
                    start: m1.offset,
                    tb: 0,
                },
            ),
            ..m2
        },
        out1,
    )
}

pub open spec fn repeat_char(c: char, n: nat) -> Seq<char> {
    Seq::new(n, |i: int| c)
}

pub open spec fn open_code(
    m: SegmenterModel,
    out: Seq<SegmentView>,
    marker: char,
    len: nat,
    flavor: CodeFlavor,
) -> (SegmenterModel, Seq<SegmentView>) {
    let (m1, out1) = flush_text(m, out);
    let opener = repeat_char(marker, len);
    let m2 = advance(m1, opener);
    (
        SegmenterModel {
            text_tb: 0,
            mode: ModeModel::Code(
                CodeModel {
                    source: opener,
                    content: Seq::empty(),
                    marker,
                    marker_len: len as int,
                    flavor,
                    start: m1.offset,
                },
            ),
            ..m2
        },
        out1,
    )
}

pub open spec fn append_text(m: SegmenterModel, raw: Seq<char>) -> SegmenterModel {
    let ts = if m.text.len() == 0 {
        Some(m.offset)
    } else {
        m.text_start
    };
    let m1 = advance(m, raw);
    SegmenterModel {
        text: m.text + raw,
        text_start: ts,
        text_tb: backslashes_after(m.text_tb, raw),
        ..m1
    }
}

pub open spec fn begin_prefix() -> Seq<char> {
    seq!['\\', 'b', 'e', 'g', 'i', 'n', '{']
}

pub open spec fn end_prefix() -> Seq<char> {
    seq!['\\', 'e', 'n', 'd', '{']
}

/// The number of supported display environments.
pub open spec fn env_count() -> int {
    7
}

/// Names of the supported display environments, in matching order.
pub open spec fn env_name(i: int) -> Seq<char> {
    if i == 0 {
        seq!['e', 'q', 'u', 'a', 't', 'i', 'o', 'n']
    } else if i == 1 {
        seq!['e', 'q', 'u', 'a', 't', 'i', 'o', 'n', '*']
    } else if i == 2 {
        seq!['a', 'l', 'i', 'g', 'n']
    } else if i == 3 {
        seq!['a', 'l', 'i', 'g', 'n', '*']
    } else if i == 4 {
        seq!['g', 'a', 't', 'h', 'e', 'r']
    } else if i == 5 {
        seq!['g', 'a', 't', 'h', 'e', 'r', '*']
    } else {
        seq!['m', 'u', 'l', 't', 'l', 'i', 'n', 'e']
    }
}

pub open spec fn env_opener(i: int) -> Seq<char> {
    begin_prefix() + env_name(i) + seq!['}']
}

pub open spec fn env_closer(i: int) -> Seq<char> {
    end_prefix() + env_name(i) + seq!['}']
}

pub open spec fn inline_opener() -> Seq<char> {
    seq!['\\', '(']
}

pub open spec fn inline_closer() -> Seq<char> {
    seq!['\\', ')']
}

pub open spec fn display_opener() -> Seq<char> {
    seq!['\\', '[']
}

pub open spec fn display_closer() -> Seq<char> {
    seq!['\\', ']']
}

pub open spec fn double_dollar() -> Seq<char> {
    seq!['$', '$']
}

pub open spec fn single_dollar() -> Seq<char> {
    seq!['$']
}

/// Outcome of matching a display environment opener.
pub enum EnvMatch {
    /// The environment with this index opens here.
    Full(int),
    /// More input is needed to decide.
    Incomplete,
    /// No environment opens here.
    NoMatch,
}

pub open spec fn first_env_match(rem: Seq<char>, i: int) -> Option<int>
    decreases env_count() - i,
{
    if i >= env_count() || i < 0 {
        None
    } else if env_opener(i).is_prefix_of(rem) {
        Some(i)
    } else {
        first_env_match(rem, i + 1)
    }
}

pub open spec fn match_environment(rem: Seq<char>, finishing: bool) -> EnvMatch {
    match first_env_match(rem, 0) {
        Some(i) => EnvMatch::Full(i),
        None => if !finishing && exists|i: int|
            0 <= i < env_count() && #[trigger] rem.is_prefix_of(env_opener(i)) {
            EnvMatch::Incomplete
        } else {
            EnvMatch::NoMatch
        },
    }
}

/// Length of the run of `marker` characters that begins `rem`.
pub open spec fn ascii_run(rem: Seq<char>, marker: char) -> int
    decreases rem.len(),
{
    if rem.len() == 0 || rem[0] != marker {
        0
    } else {
        1 + ascii_run(rem.drop_first(), marker)
    }
}

pub open spec fn can_open_single_dollar(m: SegmenterModel, remainder: Seq<char>) -> bool {
    if remainder.len() == 0 {
        false
    } else {
        let next = remainder[0];
        if spec_is_whitespace(next) {
            false
        } else {
            match m.config.inline_dollars {
                InlineDollarMode::Off => false,
                InlineDollarMode::Smart => !spec_is_ascii_digit(next),
                InlineDollarMode::Always => true,
            }
        }
    }
}

pub open spec fn open_math_step(
    m: SegmenterModel,
    out: Seq<SegmentView>,
    opener: Seq<char>,
    closer: CloserModel,
    display: bool,
) -> StepModel {
    let (m1, out1) = open_math(m, out, opener, closer, display);
    (true, opener.len() as int, m1, out1)
}

pub open spec fn open_code_step(
    m: SegmenterModel,
    out: Seq<SegmentView>,
    marker: char,
    run: int,
    flavor: CodeFlavor,
) -> StepModel {
    let (m1, out1) = open_code(m, out, marker, run as nat, flavor);
    (true, run, m1, out1)
}

/// Appends the first character of `rem` to the text buffer.
pub open spec fn text_default_step(m: SegmenterModel, rem: Seq<char>, out: Seq<SegmentView>) -> StepModel {
    (true, 1, SegmenterModel { mode: ModeModel::Text, ..append_text(m, seq![rem[0]]) }, out)
}

pub open spec fn text_code_step(
    m: SegmenterModel,
    rem: Seq<char>,
    finishing: bool,
    out: Seq<SegmentView>,
) -> StepModel {
    if rem[0] == '`' {
        let run = ascii_run(rem, '`');
        if !finishing && run == rem.len() {
            (false, 0, m, out)
        } else {
            let flavor = if run >= 3 && fence_eligible(m) {
                CodeFlavor::Fence
            } else {
                CodeFlavor::Inline
            };
            open_code_step(m, out, '`', run, flavor)
        }
    } else if rem[0] == '~' && fence_eligible(m) {
        let run = ascii_run(rem, '~');
        if !finishing && run == rem.len() {
            (false, 0, m, out)
        } else if run >= 3 {
            open_code_step(m, out, '~', run, CodeFlavor::Fence)
        } else {
            text_default_step(m, rem, out)
        }
    } else {
        text_default_step(m, rem, out)
    }
}

pub open spec fn text_dollar_step(
    m: SegmenterModel,
    rem: Seq<char>,
    finishing: bool,
    out: Seq<SegmentView>,
) -> StepModel {
    if rem[0] == '$' && m.text_tb % 2 == 0 {
        if double_dollar().is_prefix_of(rem) {
            open_math_step(m, out, double_dollar(), CloserModel::Literal(double_dollar()), true)
        } else if !finishing && rem.len() == 1 {
            (false, 0, m, out)
        } else if can_open_single_dollar(m, rem.drop_first()) {
            open_math_step(m, out, single_dollar(), CloserModel::SingleDollar, false)
        } else {
            text_code_step(m, rem, finishing, out)
        }
    } else {
        text_code_step(m, rem, finishing, out)
    }
}

/// One step in text mode over the nonempty remaining input `rem`.
pub open spec fn process_text(
    m: SegmenterModel,
    rem: Seq<char>,
    finishing: bool,
    out: Seq<SegmentView>,
) -> StepModel {
    if rem[0] == '\\' && m.text_tb % 2 == 0 {
        match match_environment(rem, finishing) {
            EnvMatch::Full(i) => open_math_step(
                m,
                out,
                env_opener(i),
                CloserModel::Literal(env_closer(i)),
                true,
            ),
            EnvMatch::Incomplete => (false, 0, m, out),
            EnvMatch::NoMatch => if inline_opener().is_prefix_of(rem) {
                open_math_step(m, out, inline_opener(), CloserModel::Literal(inline_closer()), false)
            } else if display_opener().is_prefix_of(rem) {
                open_math_step(
                    m,
                    out,
                    display_opener(),
                    CloserModel::Literal(display_closer()),
                    true,
                )
            } else if !finishing && rem.len() == 1 {
                (false, 0, m, out)
            } else {
                text_dollar_step(m, rem, finishing, out)
            },
        }
    } else {
        text_dollar_step(m, rem, finishing, out)
    }
}

/// Outcome of matching the closer of a math candidate.
pub enum CloseMatch {
    Full(int),
    Incomplete,
    NoMatch,
}

pub open spec fn math_close(c: MathModel, rem: Seq<char>, finishing: bool) -> CloseMatch {
    if c.tb % 2 != 0 {
        CloseMatch::NoMatch
    } else {
        match c.closer {
            CloserModel::SingleDollar => if rem.len() > 0 && rem[0] == '$' && c.content.len() > 0
                && !spec_is_whitespace(c.content.last()) {
                CloseMatch::Full(1)
            } else {
                CloseMatch::NoMatch
            },
            CloserModel::Literal(cl) => if cl.is_prefix_of(rem) {
                CloseMatch::Full(cl.len() as int)
            } else if !finishing && rem.is_prefix_of(cl) {
                CloseMatch::Incomplete
            } else {
                CloseMatch::NoMatch
            },
        }
    }
}

/// One step inside an open math candidate `c`.
pub open spec fn process_math(
    m: SegmenterModel,
    c: MathModel,
    rem: Seq<char>,
    finishing: bool,
    out: Seq<SegmentView>,
) -> StepModel {
    match math_close(c, rem, finishing) {
        CloseMatch::Full(n) => {
            let closer = rem.take(n);
            let m1 = advance(m, closer);
            let seg = SegmentView {
                kind: c.kind,
                source: c.source + closer,
                content: c.content,
                start: c.start,
                end: m1.offset,
            };
            (true, n, SegmenterModel { text_tb: 0, mode: ModeModel::Text, ..m1 }, push_segment(out, seg))
        },
        CloseMatch::Incomplete => (false, 0, SegmenterModel { mode: ModeModel::Math(c), ..m }, out),
        CloseMatch::NoMatch => {
            let raw = seq![rem[0]];
            let c1 = MathModel {
                source: c.source + raw,
                content: c.content + raw,
                tb: backslashes_after(c.tb, raw),
                ..c
            };
            (true, 1, SegmenterModel { mode: ModeModel::Math(c1), ..advance(m, raw) }, out)
        },
    }
}

pub open spec fn code_closes(m: SegmenterModel, c: CodeModel, run: int) -> bool {
    match c.flavor {
        CodeFlavor::Inline => run == c.marker_len,
        CodeFlavor::Fence => run >= c.marker_len && fence_eligible(m),
    }
}

/// Appends the first character of `rem` to an open code candidate.
pub open spec fn code_default_step(
    m: SegmenterModel,
    c: CodeModel,
    rem: Seq<char>,
    out: Seq<SegmentView>,
) -> StepModel {
    let raw = seq![rem[0]];
    let c1 = CodeModel { source: c.source + raw, content: c.content + raw, ..c };
    (true, 1, SegmenterModel { mode: ModeModel::Code(c1), ..advance(m, raw) }, out)
}

/// One step inside an open code candidate `c`.
pub open spec fn process_code(
    m: SegmenterModel,
    c: CodeModel,
    rem: Seq<char>,
    finishing: bool,
    out: Seq<SegmentView>,
) -> StepModel {
    if rem[0] == c.marker {
        let run = ascii_run(rem, c.marker);
        if !finishing && run == rem.len() {
            (false, 0, SegmenterModel { mode: ModeModel::Code(c), ..m }, out)
        } else if code_closes(m, c, run) {
            let closer = rem.take(run);
            let m1 = advance(m, closer);
            let seg = SegmentView {
                kind: SegmentKind::Code,
                source: c.source + closer,
                content: c.content,
                start: c.start,
                end: m1.offset,
            };
            (true, run, SegmenterModel { text_tb: 0, mode: ModeModel::Text, ..m1 }, push_segment(out, seg))
        } else {
            code_default_step(m, c, rem, out)
        }
    } else {
        code_default_step(m, c, rem, out)
    }
}

/// One step over the nonempty remaining input, dispatched on the current mode.
pub open spec fn step(m: SegmenterModel, rem: Seq<char>, finishing: bool, out: Seq<SegmentView>) -> StepModel {
    match m.mode {
        ModeModel::Text => process_text(m, rem, finishing, out),
        ModeModel::Math(c) => process_math(SegmenterModel { mode: ModeModel::Text, ..m }, c, rem, finishing, out),
        ModeModel::Code(c) => process_code(SegmenterModel { mode: ModeModel::Text, ..m }, c, rem, finishing, out),
    }
}

/// Repeated steps from `cursor` until the input ends or more input is needed.
pub open spec fn process_loop(
    m: SegmenterModel,
    input: Seq<char>,
    cursor: int,
    finishing: bool,
    out: Seq<SegmentView>,
) -> (SegmenterModel, Seq<SegmentView>, int)
    decreases input.len() - cursor,
{
    if cursor < 0 || cursor >= input.len() {
        (m, out, cursor)
    } else {
        let (cont, n, m1, out1) = step(m, input.subrange(cursor, input.len() as int), finishing, out);
        if !cont {
            (m1, out1, cursor)
        } else if n > 0 && cursor + n <= input.len() {
            process_loop(m1, input, cursor + n, finishing, out1)
        } else {
            (m1, out1, cursor)
        }
    }
}

pub open spec fn process(m: SegmenterModel, finishing: bool) -> (SegmenterModel, Seq<SegmentView>) {
    let input = m.pending;
    let (m1, out, cursor) = process_loop(
        SegmenterModel { pending: Seq::empty(), ..m },
        input,
        0,
        finishing,
        Seq::empty(),
    );
    let m2 = SegmenterModel { pending: input.subrange(cursor, input.len() as int), ..m1 };
    if m2.mode is Text {
        flush_text(m2, out)
    } else {
        (m2, out)
    }
}

/// The state and output after pushing one chunk.
pub open spec fn push(m: SegmenterModel, chunk: Seq<char>) -> (SegmenterModel, Seq<SegmentView>) {
    process(SegmenterModel { pending: m.pending + chunk, ..m }, false)
}

pub open spec fn consume_unexpected_pending(m: SegmenterModel) -> SegmenterModel {
    if m.pending.len() == 0 {
        m
    } else {
        let p = m.pending;
        let m0 = SegmenterModel { pending: Seq::empty(), ..m };
        match m.mode {
            ModeModel::Text => append_text(m0, p),
            ModeModel::Math(c) => advance(
                SegmenterModel {
                    mode: ModeModel::Math(MathModel { source: c.source + p, content: c.content + p, ..c }),
                    ..m0
                },
                p,
            ),
            ModeModel::Code(c) => advance(
                SegmenterModel {
                    mode: ModeModel::Code(CodeModel { source: c.source + p, content: c.content + p, ..c }),
                    ..m0
                },
                p,
            ),
        }
    }
}

/// The state and output after finishing the stream.
pub open spec fn finish(m: SegmenterModel) -> (SegmenterModel, Seq<SegmentView>) {
    let (m1, out) = process(m, true);
    let m2 = consume_unexpected_pending(m1);
    match m2.mode {
        ModeModel::Text => flush_text(m2, out),
        ModeModel::Math(c) => (
            SegmenterModel { mode: ModeModel::Text, ..m2 },
            push_segment(out, text_segment(c.source, c.start, m2.offset)),
        ),
        ModeModel::Code(c) => (
            SegmenterModel { mode: ModeModel::Text, ..m2 },
            push_segment(out, text_segment(c.source, c.start, m2.offset)),
        ),
    }
}

/// The state of a new segmenter.
pub open spec fn rem_of(input: Seq<char>, cursor: int) -> Seq<char> {
    input.subrange(cursor, input.len() as int)
}

pub open spec fn initial(config: SegmenterConfig) -> SegmenterModel {
    SegmenterModel {
        config,
        mode: ModeModel::Text,
        pending: Seq::empty(),
        text: Seq::empty(),
        text_start: None,
        offset: 0,
        line_prefix: Some(0),
        text_tb: 0,
    }
}

/// The source of the open candidate together with the unprocessed input, if a candidate is open.
pub open spec fn pending_source(m: SegmenterModel) -> Option<Seq<char>> {
    match m.mode {
        ModeModel::Text => None,
        ModeModel::Math(c) => Some(c.source + m.pending),
        ModeModel::Code(c) => Some(c.source + m.pending),
    }
}

pub open spec fn pending_kind(m: SegmenterModel) -> Option<SegmentKind> {
    match m.mode {
        ModeModel::Text => None,
        ModeModel::Math(c) => Some(c.kind),
        ModeModel::Code(_) => Some(SegmentKind::Code),
    }
}

} // verus!

verus! {

/// The characters of the open candidate, or of the buffered text.
pub open spec fn inflight(m: SegmenterModel) -> Seq<char> {
    match m.mode {
        ModeModel::Text => m.text,
        ModeModel::Math(c) => c.source,
        ModeModel::Code(c) => c.source,
    }
}

/// Byte position up to which segments have been emitted.
pub open spec fn emitted_end(m: SegmenterModel) -> int {
    m.offset - utf8_len(inflight(m))
}

/// The invariant of every reachable segmenter state.
pub open spec fn model_inv(m: SegmenterModel) -> bool {
    &&& 0 <= m.offset
    &&& m.offset + utf8_len(m.pending) <= usize::MAX
    &&& 0 <= m.text_tb <= m.offset
    &&& (m.line_prefix matches Some(n) ==> 0 <= n <= 3)
    &&& 0 <= emitted_end(m)
    &&& if m.text.len() == 0 {
        m.text_start is None
    } else {
        m.text_start == Some(m.offset - utf8_len(m.text))
    }
    &&& match m.mode {
        ModeModel::Text => true,
        ModeModel::Math(c) => {
            &&& m.text.len() == 0
            &&& c.start == emitted_end(m)
            &&& c.kind != SegmentKind::Text
            &&& 0 <= c.tb <= m.offset
            &&& (c.closer matches CloserModel::Literal(cl) ==> cl.len() > 0)
        },
        ModeModel::Code(c) => {
            &&& m.text.len() == 0
            &&& c.start == emitted_end(m)
            &&& 0 <= c.marker_len
        },
    }
}

pub proof fn lemma_take_push<A>(s: Seq<A>, i: int)
    requires
        0 <= i < s.len(),
    ensures
        s.take(i + 1) == s.take(i).push(s[i]),
        s.take(i + 1).drop_last() == s.take(i),
        s.take(i + 1).last() == s[i],
{
    assert(s.take(i + 1) =~= s.take(i).push(s[i]));
    assert(s.take(i + 1).drop_last() =~= s.take(i));
}

pub proof fn lemma_utf8_len_prefix(s: Seq<char>, i: int)
    requires
        0 <= i <= s.len(),
    ensures
        utf8_len(s.take(i)) <= utf8_len(s),
        utf8_len(s) == utf8_len(s.take(i)) + utf8_len(s.skip(i)),
{
    assert(s =~= s.take(i) + s.skip(i));
    lemma_utf8_len_concat(s.take(i), s.skip(i));
}

pub proof fn lemma_prefix_utf8_len(p: Seq<char>, s: Seq<char>)
    requires
        p.is_prefix_of(s),
    ensures
        utf8_len(p) <= utf8_len(s),
        p == s.take(p.len() as int),
{
    assert(p =~= s.take(p.len() as int));
    lemma_utf8_len_prefix(s, p.len() as int);
}

pub proof fn lemma_ascii_run_props(rem: Seq<char>, marker: char)
    ensures
        0 <= ascii_run(rem, marker) <= rem.len(),
        forall|j: int| 0 <= j < ascii_run(rem, marker) ==> rem[j] == marker,
        rem.len() > 0 && rem[0] == marker ==> ascii_run(rem, marker) >= 1,
    decreases rem.len(),
{
    if rem.len() > 0 && rem[0] == marker {
        let tail = rem.drop_first();
        lemma_ascii_run_props(tail, marker);
        assert forall|j: int| 0 <= j < ascii_run(rem, marker) implies rem[j] == marker by {
            if j > 0 {
                assert(rem[j] == tail[j - 1]);
            }
        }
    }
}

pub proof fn lemma_run_is_prefix(rem: Seq<char>, marker: char)
    ensures
        repeat_char(marker, ascii_run(rem, marker) as nat) == rem.take(ascii_run(rem, marker)),
        utf8_len(rem.take(ascii_run(rem, marker))) <= utf8_len(rem),
{
    lemma_ascii_run_props(rem, marker);
    assert(repeat_char(marker, ascii_run(rem, marker) as nat) =~= rem.take(ascii_run(rem, marker)));
    lemma_utf8_len_prefix(rem, ascii_run(rem, marker));
}

pub proof fn lemma_first_char_prefix(rem: Seq<char>)
    requires
        rem.len() > 0,
    ensures
        seq![rem[0]] == rem.take(1),
        utf8_len(seq![rem[0]]) <= utf8_len(rem),
{
    assert(seq![rem[0]] =~= rem.take(1));
    lemma_utf8_len_prefix(rem, 1);
}


/// What every step guarantees: progress and the invariant when it continues,
/// an unchanged state when it stops.
pub open spec fn step_ok(m: SegmenterModel, rem: Seq<char>, out: Seq<SegmentView>, s: StepModel) -> bool {
    if s.0 {
        &&& 1 <= s.1 <= rem.len()
        &&& s.2.offset == m.offset + utf8_len(rem.take(s.1))
        &&& model_inv(s.2)
        &&& s.2.pending.len() == 0
    } else {
        &&& s.1 == 0
        &&& s.2 == m
        &&& s.3 == out
    }
}

/// The preconditions of one step.
pub open spec fn step_pre(m: SegmenterModel, rem: Seq<char>) -> bool {
    &&& model_inv(m)
    &&& m.pending.len() == 0
    &&& rem.len() > 0
    &&& m.offset + utf8_len(rem) <= usize::MAX
}

pub proof fn lemma_line_prefix_bounded(lp: Option<int>, raw: Seq<char>)
    requires
        lp matches Some(n) ==> 0 <= n <= 3,
    ensures
        line_prefix_after(lp, raw) matches Some(n) ==> 0 <= n <= 3,
    decreases raw.len(),
{
    if raw.len() > 0 {
        lemma_line_prefix_bounded(lp, raw.drop_last());
    }
}

pub proof fn lemma_backslashes_bounded(tb: int, raw: Seq<char>)
    requires
        0 <= tb,
    ensures
        0 <= backslashes_after(tb, raw) <= tb + raw.len(),
    decreases raw.len(),
{
    if raw.len() > 0 {
        lemma_backslashes_bounded(tb, raw.drop_last());
    }
}

proof fn lemma_open_math_ok(
    m: SegmenterModel,
    rem: Seq<char>,
    out: Seq<SegmentView>,
    opener: Seq<char>,
    closer: CloserModel,
    display: bool,
)
    requires
        step_pre(m, rem),
        m.mode is Text,
        opener.len() > 0,
        opener.is_prefix_of(rem),
        closer matches CloserModel::Literal(cl) ==> cl.len() > 0,
    ensures
        step_ok(m, rem, out, open_math_step(m, out, opener, closer, display)),
{
    lemma_prefix_utf8_len(opener, rem);
    lemma_line_prefix_bounded(m.line_prefix, opener);
    let s = open_math_step(m, out, opener, closer, display);
    let (m1, out1) = flush_text(m, out);
    assert(m1.offset == m.offset);
    assert(m1.text.len() == 0);
    assert(s.2.offset == m.offset + utf8_len(opener));
    assert(s.2.mode == ModeModel::Math(MathModel {
        kind: if display { SegmentKind::DisplayMath } else { SegmentKind::InlineMath },
        source: opener,
        content: Seq::empty(),
        closer,
        start: m.offset,
        tb: 0,
    }));
    assert(emitted_end(s.2) == m.offset);
}

proof fn lemma_open_code_ok(
    m: SegmenterModel,
    rem: Seq<char>,
    out: Seq<SegmentView>,
    marker: char,
    run: int,
    flavor: CodeFlavor,
)
    requires
        step_pre(m, rem),
        m.mode is Text,
        rem[0] == marker,
        run == ascii_run(rem, marker),
    ensures
        step_ok(m, rem, out, open_code_step(m, out, marker, run, flavor)),
{
    lemma_ascii_run_props(rem, marker);
    lemma_run_is_prefix(rem, marker);
    let opener = repeat_char(marker, run as nat);
    lemma_line_prefix_bounded(m.line_prefix, opener);
    let s = open_code_step(m, out, marker, run, flavor);
    assert(emitted_end(s.2) == m.offset);
}

proof fn lemma_text_default_ok(m: SegmenterModel, rem: Seq<char>, out: Seq<SegmentView>)
    requires
        step_pre(m, rem),
        m.mode is Text,
    ensures
        step_ok(m, rem, out, text_default_step(m, rem, out)),
{
    lemma_first_char_prefix(rem);
    let raw = seq![rem[0]];
    lemma_line_prefix_bounded(m.line_prefix, raw);
    lemma_backslashes_bounded(m.text_tb, raw);
    crate::text::lemma_utf8_len_at_least_chars(raw);
    lemma_utf8_len_concat(m.text, raw);
    let s = text_default_step(m, rem, out);
    assert(s.2.text == m.text + raw);
    assert(emitted_end(s.2) == emitted_end(m));
}

proof fn lemma_text_code_ok(m: SegmenterModel, rem: Seq<char>, finishing: bool, out: Seq<SegmentView>)
    requires
        step_pre(m, rem),
        m.mode is Text,
    ensures
        step_ok(m, rem, out, text_code_step(m, rem, finishing, out)),
{
    lemma_text_default_ok(m, rem, out);
    if rem[0] == '`' {
        let run = ascii_run(rem, '`');
        let flavor = if run >= 3 && fence_eligible(m) {
            CodeFlavor::Fence
        } else {
            CodeFlavor::Inline
        };
        lemma_open_code_ok(m, rem, out, '`', run, flavor);
    } else if rem[0] == '~' {
        lemma_open_code_ok(m, rem, out, '~', ascii_run(rem, '~'), CodeFlavor::Fence);
    }
}

proof fn lemma_text_dollar_ok(m: SegmenterModel, rem: Seq<char>, finishing: bool, out: Seq<SegmentView>)
    requires
        step_pre(m, rem),
        m.mode is Text,
    ensures
        step_ok(m, rem, out, text_dollar_step(m, rem, finishing, out)),
{
    lemma_text_code_ok(m, rem, finishing, out);
    if rem[0] == '$' && m.text_tb % 2 == 0 {
        if double_dollar().is_prefix_of(rem) {
            lemma_open_math_ok(m, rem, out, double_dollar(), CloserModel::Literal(double_dollar()), true);
        } else {
            assert(single_dollar().is_prefix_of(rem)) by {
                assert(single_dollar() =~= rem.take(1));
            }
            lemma_open_math_ok(m, rem, out, single_dollar(), CloserModel::SingleDollar, false);
        }
    }
}

proof fn lemma_process_text_ok(m: SegmenterModel, rem: Seq<char>, finishing: bool, out: Seq<SegmentView>)
    requires
        step_pre(m, rem),
        m.mode is Text,
    ensures
        step_ok(m, rem, out, process_text(m, rem, finishing, out)),
{
    lemma_text_dollar_ok(m, rem, finishing, out);
    if rem[0] == '\\' && m.text_tb % 2 == 0 {
        match match_environment(rem, finishing) {
            EnvMatch::Full(i) => {
                lemma_first_env_match_props(rem, 0);
                assert(env_closer(i).len() > 0) by {
                    assert(env_closer(i)[0] == '\\');
                }
                assert(env_opener(i).len() > 0) by {
                    assert(env_opener(i)[0] == '\\');
                }
                lemma_open_math_ok(m, rem, out, env_opener(i), CloserModel::Literal(env_closer(i)), true);
            },
            _ => {
                if inline_opener().is_prefix_of(rem) {
                    lemma_open_math_ok(m, rem, out, inline_opener(), CloserModel::Literal(inline_closer()), false);
                } else if display_opener().is_prefix_of(rem) {
                    lemma_open_math_ok(m, rem, out, display_opener(), CloserModel::Literal(display_closer()), true);
                }
            },
        }
    }
}

pub proof fn lemma_first_env_match_props(rem: Seq<char>, k: int)
    requires
        0 <= k,
    ensures
        first_env_match(rem, k) matches Some(i) ==> k <= i < 7 && env_opener(i).is_prefix_of(rem),
    decreases 7 - k,
{
    if k < 7 && !env_opener(k).is_prefix_of(rem) {
        lemma_first_env_match_props(rem, k + 1);
    }
}

proof fn lemma_process_math_ok(
    m: SegmenterModel,
    c: MathModel,
    rem: Seq<char>,
    finishing: bool,
    out: Seq<SegmentView>,
)
    requires
        step_pre(SegmenterModel { mode: ModeModel::Math(c), ..m }, rem),
        m.mode is Text,
    ensures
        step_ok(
            SegmenterModel { mode: ModeModel::Math(c), ..m },
            rem,
            out,
            process_math(m, c, rem, finishing, out),
        ),
{
    let mm = SegmenterModel { mode: ModeModel::Math(c), ..m };
    let s = process_math(m, c, rem, finishing, out);
    match math_close(c, rem, finishing) {
        CloseMatch::Full(n) => {
            assert(1 <= n <= rem.len()) by {
                match c.closer {
                    CloserModel::Literal(cl) => {
                        assert(cl.is_prefix_of(rem));
                    },
                    CloserModel::SingleDollar => {},
                }
            }
            lemma_utf8_len_prefix(rem, n);
            lemma_line_prefix_bounded(m.line_prefix, rem.take(n));
        },
        CloseMatch::Incomplete => {
            assert(s.2 =~= mm);
        },
        CloseMatch::NoMatch => {
            lemma_first_char_prefix(rem);
            let raw = seq![rem[0]];
            lemma_line_prefix_bounded(m.line_prefix, raw);
            lemma_backslashes_bounded(c.tb, raw);
            crate::text::lemma_utf8_len_at_least_chars(raw);
            lemma_utf8_len_concat(c.source, raw);
            assert(emitted_end(s.2) == emitted_end(mm));
        },
    }
}

proof fn lemma_process_code_ok(
    m: SegmenterModel,
    c: CodeModel,
    rem: Seq<char>,
    finishing: bool,
    out: Seq<SegmentView>,
)
    requires
        step_pre(SegmenterModel { mode: ModeModel::Code(c), ..m }, rem),
        m.mode is Text,
    ensures
        step_ok(
            SegmenterModel { mode: ModeModel::Code(c), ..m },
            rem,
            out,
            process_code(m, c, rem, finishing, out),
        ),
{
    let mm = SegmenterModel { mode: ModeModel::Code(c), ..m };
    let s = process_code(m, c, rem, finishing, out);
    lemma_first_char_prefix(rem);
    let raw = seq![rem[0]];
    lemma_line_prefix_bounded(m.line_prefix, raw);
    crate::text::lemma_utf8_len_at_least_chars(raw);
    lemma_utf8_len_concat(c.source, raw);
    if rem[0] == c.marker {
        let run = ascii_run(rem, c.marker);
        lemma_ascii_run_props(rem, c.marker);
        lemma_utf8_len_prefix(rem, run);
        lemma_line_prefix_bounded(m.line_prefix, rem.take(run));
        if !finishing && run == rem.len() {
            assert(s.2 =~= mm);
        }
    }
}

/// Every step keeps the invariant and makes progress unless it stops.
pub proof fn lemma_step_ok(m: SegmenterModel, rem: Seq<char>, finishing: bool, out: Seq<SegmentView>)
    requires
        step_pre(m, rem),
    ensures
        step_ok(m, rem, out, step(m, rem, finishing, out)),
{
    match m.mode {
        ModeModel::Text => lemma_process_text_ok(m, rem, finishing, out),
        ModeModel::Math(c) => {
            let mt = SegmenterModel { mode: ModeModel::Text, ..m };
            assert(SegmenterModel { mode: ModeModel::Math(c), ..mt } == m);
            lemma_process_math_ok(mt, c, rem, finishing, out);
        },
        ModeModel::Code(c) => {
            let mt = SegmenterModel { mode: ModeModel::Text, ..m };
            assert(SegmenterModel { mode: ModeModel::Code(c), ..mt } == m);
            lemma_process_code_ok(mt, c, rem, finishing, out);
        },
    }
}


/// With the stream finished, no step waits for more input.
pub proof fn lemma_finishing_step_continues(m: SegmenterModel, rem: Seq<char>, out: Seq<SegmentView>)
    requires
        rem.len() > 0,
    ensures
        step(m, rem, true, out).0,
{
    match m.mode {
        ModeModel::Text => {
            if rem[0] == '\\' && m.text_tb % 2 == 0 {
                match match_environment(rem, true) {
                    EnvMatch::Full(i) => {},
                    EnvMatch::Incomplete => {},
                    EnvMatch::NoMatch => {},
                }
            }
        },
        ModeModel::Math(c) => {
            match math_close(c, rem, true) {
                CloseMatch::Full(n) => {},
                CloseMatch::Incomplete => {},
                CloseMatch::NoMatch => {},
            }
        },
        ModeModel::Code(c) => {},
    }
}

/// Flushing buffered text keeps the invariant.
pub proof fn lemma_flush_text_inv(m: SegmenterModel, out: Seq<SegmentView>)
    requires
        model_inv(m),
        m.mode is Text,
    ensures
        model_inv(flush_text(m, out).0),
        flush_text(m, out).0.offset == m.offset,
        flush_text(m, out).0.pending == m.pending,
        flush_text(m, out).0.text.len() == 0,
        flush_text(m, out).0.mode is Text,
{
}

} // verus!
