//! Incremental separation of Markdown text, code and LaTeX math.

use vstd::prelude::*;

use crate::segment::{
    InlineDollarMode, Segment, SegmentKind, SegmentView, SegmenterConfig, Span, segments_view,
};
use crate::segmenter_model::{
    CloseMatch, CloserModel, CodeFlavor, CodeModel, EnvMatch, MathModel, ModeModel, SegmenterModel,
    advance, append_text, ascii_run, backslashes_after, can_open_single_dollar, display_closer,
    display_opener, double_dollar, end_prefix, begin_prefix, env_closer, env_count, env_name,
    env_opener, fence_eligible, first_env_match, flush_text, inline_closer, inline_opener,
    line_prefix_after, match_environment, math_close, model_inv, open_code, open_math, process_code,
    process_math, process_text, push_segment, repeat_char, single_dollar, text_code_step,
    text_dollar_step, text_default_step, rem_of, initial, StepModel, step, process_loop, process,
    push, finish, consume_unexpected_pending, pending_source, pending_kind, lemma_take_push,
    lemma_utf8_len_prefix, lemma_prefix_utf8_len, lemma_run_is_prefix, lemma_first_char_prefix,
    lemma_step_ok, lemma_finishing_step_continues, lemma_flush_text_inv,
};
use crate::text::{
    char_len_utf8, is_ascii_digit, is_whitespace, lemma_utf8_len_at_least_chars,
    lemma_utf8_len_concat, lemma_utf8_len_push, string_from_chars, utf8_len,
};

verus! {

/// How an open math candidate is closed.
pub(crate) enum MathCloser {
    Literal(Vec<char>),
    SingleDollar,
}

impl View for MathCloser {
    type V = CloserModel;

    closed spec fn view(&self) -> CloserModel {
        match self {
            MathCloser::Literal(v) => CloserModel::Literal(v@),
            MathCloser::SingleDollar => CloserModel::SingleDollar,
        }
    }
}

pub(crate) struct MathCandidate {
    pub(crate) kind: SegmentKind,
    pub(crate) source: Vec<char>,
    pub(crate) content: Vec<char>,
    pub(crate) closer: MathCloser,
    pub(crate) start: usize,
    pub(crate) trailing_backslashes: usize,
}

impl View for MathCandidate {
    type V = MathModel;

    closed spec fn view(&self) -> MathModel {
        MathModel {
            kind: self.kind,
            source: self.source@,
            content: self.content@,
            closer: self.closer@,
            start: self.start as int,
            tb: self.trailing_backslashes as int,
        }
    }
}

pub(crate) struct CodeCandidate {
    pub(crate) source: Vec<char>,
    pub(crate) content: Vec<char>,
    pub(crate) marker: char,
    pub(crate) marker_len: usize,
    pub(crate) flavor: CodeFlavor,
    pub(crate) start: usize,
}

impl View for CodeCandidate {
    type V = CodeModel;

    closed spec fn view(&self) -> CodeModel {
        CodeModel {
            source: self.source@,
            content: self.content@,
            marker: self.marker,
            marker_len: self.marker_len as int,
            flavor: self.flavor,
            start: self.start as int,
        }
    }
}

pub(crate) enum Mode {
    Text,
    Math(MathCandidate),
    Code(CodeCandidate),
}

impl View for Mode {
    type V = ModeModel;

    closed spec fn view(&self) -> ModeModel {
        match self {
            Mode::Text => ModeModel::Text,
            Mode::Math(c) => ModeModel::Math(c@),
            Mode::Code(c) => ModeModel::Code(c@),
        }
    }
}

pub open spec fn opt_int(o: Option<usize>) -> Option<int> {
    match o {
        Some(v) => Some(v as int),
        None => None,
    }
}

/// Incrementally separates Markdown text, code, and supported LaTeX math.
pub struct Segmenter {
    config: SegmenterConfig,
    mode: Mode,
    pending: Vec<char>,
    text: Vec<char>,
    text_start: Option<usize>,
    offset: usize,
    line_prefix_spaces: Option<usize>,
    text_trailing_backslashes: usize,
}

impl View for Segmenter {
    type V = SegmenterModel;

    closed spec fn view(&self) -> SegmenterModel {
        SegmenterModel {
            config: self.config,
            mode: self.mode@,
            pending: self.pending@,
            text: self.text@,
            text_start: opt_int(self.text_start),
            offset: self.offset as int,
            line_prefix: opt_int(self.line_prefix_spaces),
            text_tb: self.text_trailing_backslashes as int,
        }
    }
}

/// Characters of a position-update run, in order.
fn advance_position_of(offset: &mut usize, line_prefix: &mut Option<usize>, raw: &[char])
    requires
        *old(offset) + utf8_len(raw@) <= usize::MAX,
        *old(line_prefix) matches Some(n) ==> n <= 3,
    ensures
        *final(offset) == *old(offset) + utf8_len(raw@),
        opt_int(*final(line_prefix)) == line_prefix_after(opt_int(*old(line_prefix)), raw@),
        *final(line_prefix) matches Some(n) ==> n <= 3,
{
    let mut i: usize = 0;
    while i < raw.len()
        invariant
            i <= raw@.len(),
            *offset == *old(offset) + utf8_len(raw@.take(i as int)),
            *old(offset) + utf8_len(raw@) <= usize::MAX,
            opt_int(*line_prefix) == line_prefix_after(opt_int(*old(line_prefix)), raw@.take(i as int)),
            *line_prefix matches Some(n) ==> n <= 3,
        decreases raw@.len() - i,
    {
        let c = raw[i];
        proof {
            lemma_take_push(raw@, i as int);
            lemma_utf8_len_push(raw@.take(i as int), c);
            lemma_utf8_len_prefix(raw@, i + 1);
        }
        let w = char_len_utf8(c);
        *offset = *offset + w;
        if c == '\n' {
            *line_prefix = Some(0);
        } else if c == ' ' {
            match *line_prefix {
                Some(spaces) => {
                    if spaces < 3 {
                        *line_prefix = Some(spaces + 1);
                    } else {
                        *line_prefix = None;
                    }
                },
                None => {},
            }
        } else {
            *line_prefix = None;
        }
        i = i + 1;
    }
    assert(raw@.take(raw@.len() as int) =~= raw@);
}

/// Updates a trailing backslash count with the characters of `raw`.
fn count_backslashes(tb: &mut usize, bound: usize, raw: &[char])
    requires
        *old(tb) + raw@.len() <= bound,
    ensures
        *final(tb) as int == backslashes_after(*old(tb) as int, raw@),
        *final(tb) <= bound,
        *final(tb) <= *old(tb) + raw@.len(),
{
    let mut i: usize = 0;
    while i < raw.len()
        invariant
            i <= raw@.len(),
            *old(tb) + raw@.len() <= bound,
            *tb as int == backslashes_after(*old(tb) as int, raw@.take(i as int)),
            *tb <= *old(tb) + i,
        decreases raw@.len() - i,
    {
        proof {
            lemma_take_push(raw@, i as int);
        }
        if raw[i] == '\\' {
            *tb = *tb + 1;
        } else {
            *tb = 0;
        }
        i = i + 1;
    }
    assert(raw@.take(raw@.len() as int) =~= raw@);
}

/// Appends a segment, merging it into a directly preceding text segment.
fn push_segment_exec(output: &mut Vec<Segment>, segment: Segment)
    ensures
        segments_view(final(output)@) == push_segment(segments_view(old(output)@), segment@),
{
    let n = output.len();
    if n > 0 {
        let last_kind = output[n - 1].kind;
        let last_end = output[n - 1].span.end;
        if last_kind == SegmentKind::Text && segment.kind == SegmentKind::Text && last_end
            == segment.span.start {
            let mut previous = output.pop().unwrap();
            let ghost prev_view = previous@;
            previous.source.append(segment.source.as_str());
            previous.content.append(segment.content.as_str());
            previous.span.end = segment.span.end;
            output.push(previous);
            assert(segments_view(final(output)@) =~= push_segment(
                segments_view(old(output)@),
                segment@,
            ));
            return ;
        }
    }
    output.push(segment);
    assert(segments_view(final(output)@) =~= push_segment(segments_view(old(output)@), segment@));
}

/// Appends characters to a vector.
fn extend_chars(v: &mut Vec<char>, raw: &[char])
    ensures
        final(v)@ == old(v)@ + raw@,
{
    let mut i: usize = 0;
    while i < raw.len()
        invariant
            i <= raw@.len(),
            v@ == old(v)@ + raw@.take(i as int),
        decreases raw@.len() - i,
    {
        proof {
            lemma_take_push(raw@, i as int);
        }
        v.push(raw[i]);
        assert(old(v)@ + raw@.take(i + 1) =~= old(v)@ + raw@.take(i as int) + seq![raw@[i as int]]);
        i = i + 1;
    }
    assert(raw@.take(raw@.len() as int) =~= raw@);
}

/// The characters `input[start..end]`.
fn copy_range(input: &Vec<char>, start: usize, end: usize) -> (r: Vec<char>)
    requires
        start <= end <= input@.len(),
    ensures
        r@ == input@.subrange(start as int, end as int),
{
    let mut r: Vec<char> = Vec::new();
    let mut i = start;
    while i < end
        invariant
            start <= i <= end <= input@.len(),
            r@ == input@.subrange(start as int, i as int),
        decreases end - i,
    {
        r.push(input[i]);
        assert(input@.subrange(start as int, i + 1) =~= input@.subrange(start as int, i as int).push(
            input@[i as int],
        ));
        i = i + 1;
    }
    r
}

/// Whether `pat` is a prefix of `input[at..]`.
fn has_prefix_at(input: &Vec<char>, at: usize, pat: &Vec<char>) -> (r: bool)
    requires
        at <= input@.len(),
    ensures
        r == pat@.is_prefix_of(input@.subrange(at as int, input@.len() as int)),
{
    let ghost rem = input@.subrange(at as int, input@.len() as int);
    if pat.len() > input.len() - at {
        return false;
    }
    let mut i: usize = 0;
    while i < pat.len()
        invariant
            i <= pat@.len(),
            at <= input.len(),
            pat@.len() <= input.len() - at,
            rem == input@.subrange(at as int, input@.len() as int),
            forall|j: int| 0 <= j < i ==> pat@[j] == rem[j],
        decreases pat@.len() - i,
    {
        if pat[i] != input[at + i] {
            return false;
        }
        i = i + 1;
    }
    assert(pat@ =~= rem.subrange(0, pat@.len() as int));
    true
}

/// Whether `input[at..]` is a prefix of `pat`.
fn rest_is_prefix_of(input: &Vec<char>, at: usize, pat: &Vec<char>) -> (r: bool)
    requires
        at <= input@.len(),
    ensures
        r == input@.subrange(at as int, input@.len() as int).is_prefix_of(pat@),
{
    let ghost rem = input@.subrange(at as int, input@.len() as int);
    let n = input.len() - at;
    if n > pat.len() {
        return false;
    }
    let mut i: usize = 0;
    while i < n
        invariant
            i <= n,
            at <= input.len(),
            n == input.len() - at,
            n == rem.len(),
            n <= pat@.len(),
            rem == input@.subrange(at as int, input@.len() as int),
            forall|j: int| 0 <= j < i ==> pat@[j] == rem[j],
        decreases n - i,
    {
        if pat[i] != input[at + i] {
            assert(rem[i as int] != pat@[i as int]);
            assert(!rem.is_prefix_of(pat@)) by {
                if rem.is_prefix_of(pat@) {
                    assert(rem[i as int] == pat@.subrange(0, rem.len() as int)[i as int]);
                }
            }
            return false;
        }
        i = i + 1;
    }
    assert(rem =~= pat@.subrange(0, rem.len() as int));
    true
}

proof fn lemma_ascii_run_shift(rem: Seq<char>, marker: char, i: int)
    requires
        0 <= i <= rem.len(),
        forall|j: int| 0 <= j < i ==> rem[j] == marker,
    ensures
        ascii_run(rem, marker) == i + ascii_run(rem.subrange(i, rem.len() as int), marker),
    decreases i,
{
    if i == 0 {
        assert(rem.subrange(0, rem.len() as int) =~= rem);
    } else {
        let tail = rem.drop_first();
        assert forall|j: int| 0 <= j < i - 1 implies tail[j] == marker by {
            assert(tail[j] == rem[j + 1]);
        }
        lemma_ascii_run_shift(tail, marker, i - 1);
        assert(tail.subrange(i - 1, tail.len() as int) =~= rem.subrange(i, rem.len() as int));
    }
}

/// Length of the run of `marker` characters that begins `input[at..]`.
fn ascii_run_at(input: &Vec<char>, at: usize, marker: char) -> (r: usize)
    requires
        at <= input@.len(),
    ensures
        r as int == ascii_run(input@.subrange(at as int, input@.len() as int), marker),
        r <= input@.len() - at,
{
    let ghost rem = input@.subrange(at as int, input@.len() as int);
    let mut i: usize = 0;
    while at + i < input.len() && input[at + i] == marker
        invariant
            at <= input.len(),
            at + i <= input.len(),
            rem == input@.subrange(at as int, input@.len() as int),
            forall|j: int| 0 <= j < i ==> rem[j] == marker,
        decreases input@.len() - at - i,
    {
        i = i + 1;
    }
    proof {
        lemma_ascii_run_shift(rem, marker, i as int);
    }
    i
}

/// Exec counterpart of [`EnvMatch`].
enum EnvMatchExec {
    Full(usize),
    Incomplete,
    NoMatch,
}

impl EnvMatchExec {
    spec fn model(self) -> EnvMatch {
        match self {
            EnvMatchExec::Full(i) => EnvMatch::Full(i as int),
            EnvMatchExec::Incomplete => EnvMatch::Incomplete,
            EnvMatchExec::NoMatch => EnvMatch::NoMatch,
        }
    }
}

/// Exec counterpart of [`CloseMatch`].
enum CloseMatchExec {
    Full(usize),
    Incomplete,
    NoMatch,
}

impl CloseMatchExec {
    spec fn model(self) -> CloseMatch {
        match self {
            CloseMatchExec::Full(n) => CloseMatch::Full(n as int),
            CloseMatchExec::Incomplete => CloseMatch::Incomplete,
            CloseMatchExec::NoMatch => CloseMatch::NoMatch,
        }
    }
}

fn env_name_chars(i: usize) -> (r: Vec<char>)
    requires
        i < 7,
    ensures
        r@ == env_name(i as int),
{
    let r = if i == 0 {
        vec!['e', 'q', 'u', 'a', 't', 'i', 'o', 'n']
    } else if i == 1 {
        vec!['e', 'q', 'u', 'a', 't', 'i', 'o', 'n', '*']
    } else if i == 2 {
        vec!['a', 'l', 'i', 'g', 'n']
    } else if i == 3 {
        vec!['a', 'l', 'i', 'g', 'n', '*']
    } else if i == 4 {
        vec!['g', 'a', 't', 'h', 'e', 'r']
    } else if i == 5 {
        vec!['g', 'a', 't', 'h', 'e', 'r', '*']
    } else {
        vec!['m', 'u', 'l', 't', 'l', 'i', 'n', 'e']
    };
    assert(r@ =~= env_name(i as int));
    r
}

fn env_opener_chars(i: usize) -> (r: Vec<char>)
    requires
        i < 7,
    ensures
        r@ == env_opener(i as int),
{
    let mut r = vec!['\\', 'b', 'e', 'g', 'i', 'n', '{'];
    assert(r@ =~= begin_prefix());
    let name = env_name_chars(i);
    extend_chars(&mut r, name.as_slice());
    r.push('}');
    assert(r@ =~= env_opener(i as int));
    r
}

fn env_closer_chars(i: usize) -> (r: Vec<char>)
    requires
        i < 7,
    ensures
        r@ == env_closer(i as int),
{
    let mut r = vec!['\\', 'e', 'n', 'd', '{'];
    assert(r@ =~= end_prefix());
    let name = env_name_chars(i);
    extend_chars(&mut r, name.as_slice());
    r.push('}');
    assert(r@ =~= env_closer(i as int));
    r
}

fn match_environment_at(input: &Vec<char>, at: usize, finishing: bool) -> (r: EnvMatchExec)
    requires
        at < input@.len(),
    ensures
        r.model() == match_environment(input@.subrange(at as int, input@.len() as int), finishing),
        r matches EnvMatchExec::Full(i) ==> i < 7,
{
    let ghost rem = input@.subrange(at as int, input@.len() as int);
    let mut i: usize = 0;
    while i < 7
        invariant
            i <= 7,
            at < input@.len(),
            rem == input@.subrange(at as int, input@.len() as int),
            first_env_match(rem, 0) == first_env_match(rem, i as int),
        decreases 7 - i,
    {
        let opener = env_opener_chars(i);
        if has_prefix_at(input, at, &opener) {
            return EnvMatchExec::Full(i);
        }
        i = i + 1;
    }
    if !finishing {
        let mut j: usize = 0;
        while j < 7
            invariant
                j <= 7,
                at < input@.len(),
                first_env_match(rem, 0) is None,
                !finishing,
                rem == input@.subrange(at as int, input@.len() as int),
                forall|k: int| 0 <= k < j ==> !rem.is_prefix_of(#[trigger] env_opener(k)),
            decreases 7 - j,
        {
            let opener = env_opener_chars(j);
            if rest_is_prefix_of(input, at, &opener) {
                assert(0 <= j < env_count() && rem.is_prefix_of(env_opener(j as int)));

                return EnvMatchExec::Incomplete;
            }
            j = j + 1;
        }
    }
    EnvMatchExec::NoMatch
}

fn math_close_len(candidate: &MathCandidate, input: &Vec<char>, at: usize, finishing: bool) -> (r:
    CloseMatchExec)
    requires
        at < input@.len(),
        candidate@.closer matches CloserModel::Literal(cl) ==> cl.len() > 0,
    ensures
        r.model() == math_close(candidate@, input@.subrange(at as int, input@.len() as int), finishing),
        r matches CloseMatchExec::Full(n) ==> 1 <= n <= input@.len() - at,
{
    let ghost rem = input@.subrange(at as int, input@.len() as int);
    if candidate.trailing_backslashes % 2 != 0 {
        return CloseMatchExec::NoMatch;
    }
    match &candidate.closer {
        MathCloser::SingleDollar => {
            let n = candidate.content.len();
            if input[at] == '$' && n > 0 && !is_whitespace(candidate.content[n - 1]) {
                CloseMatchExec::Full(1)
            } else {
                CloseMatchExec::NoMatch
            }
        },
        MathCloser::Literal(closer) => {
            if has_prefix_at(input, at, closer) {
                CloseMatchExec::Full(closer.len())
            } else if !finishing && rest_is_prefix_of(input, at, closer) {
                CloseMatchExec::Incomplete
            } else {
                CloseMatchExec::NoMatch
            }
        },
    }
}

fn inline_opener_chars() -> (r: Vec<char>)
    ensures
        r@ == inline_opener(),
{
    let r = vec!['\\', '('];
    assert(r@ =~= inline_opener());
    r
}

fn inline_closer_chars() -> (r: Vec<char>)
    ensures
        r@ == inline_closer(),
{
    let r = vec!['\\', ')'];
    assert(r@ =~= inline_closer());
    r
}

fn display_opener_chars() -> (r: Vec<char>)
    ensures
        r@ == display_opener(),
{
    let r = vec!['\\', '['];
    assert(r@ =~= display_opener());
    r
}

fn display_closer_chars() -> (r: Vec<char>)
    ensures
        r@ == display_closer(),
{
    let r = vec!['\\', ']'];
    assert(r@ =~= display_closer());
    r
}

fn double_dollar_chars() -> (r: Vec<char>)
    ensures
        r@ == double_dollar(),
{
    let r = vec!['$', '$'];
    assert(r@ =~= double_dollar());
    r
}

fn single_dollar_chars() -> (r: Vec<char>)
    ensures
        r@ == single_dollar(),
{
    let r = vec!['$'];
    assert(r@ =~= single_dollar());
    r
}

impl Segmenter {
    /// The invariant of every segmenter reachable through the public interface.
    pub open spec fn wf(&self) -> bool {
        model_inv(self@)
    }

    /// Whether a step may run over `input[cursor..]` in the current state.
    spec fn step_ready(&self, input: Seq<char>, cursor: int) -> bool {
        &&& model_inv(self@)
        &&& self@.pending.len() == 0
        &&& 0 <= cursor < input.len()
        &&& self@.offset + utf8_len(rem_of(input, cursor)) <= usize::MAX
    }

    /// Creates a segmenter with conservative single-dollar recognition.
    pub fn new() -> (r: Self)
        ensures
            r@ == initial(SegmenterConfig { inline_dollars: InlineDollarMode::Smart }),
            r.wf(),
    {
        Self::with_config(SegmenterConfig { inline_dollars: InlineDollarMode::Smart })
    }

    /// Creates a segmenter with explicit parsing behavior.
    pub fn with_config(config: SegmenterConfig) -> (r: Self)
        ensures
            r@ == initial(config),
            r.wf(),
    {
        let r = Segmenter {
            config,
            mode: Mode::Text,
            pending: Vec::new(),
            text: Vec::new(),
            text_start: None,
            offset: 0,
            line_prefix_spaces: Some(0),
            text_trailing_backslashes: 0,
        };
        proof {
            assert(utf8_len(Seq::<char>::empty()) == 0) by {
                assert(vstd::utf8::encode_utf8(Seq::<char>::empty()) =~= Seq::<u8>::empty());
            }
            assert(r@ =~= initial(config));
        }
        r
    }

    fn advance_position(&mut self, raw: &[char])
        requires
            old(self)@.offset + utf8_len(raw@) <= usize::MAX,
            old(self)@.line_prefix matches Some(n) ==> n <= 3,
        ensures
            final(self)@ == advance(old(self)@, raw@),
    {
        advance_position_of(&mut self.offset, &mut self.line_prefix_spaces, raw);
    }

    fn fence_eligible(&self) -> (r: bool)
        ensures
            r == fence_eligible(self@),
    {
        self.line_prefix_spaces.is_some()
    }

    fn append_text(&mut self, raw: &[char])
        requires
            model_inv(old(self)@),
            old(self)@.offset + utf8_len(raw@) <= usize::MAX,
        ensures
            final(self)@ == append_text(old(self)@, raw@),
    {
        if self.text.len() == 0 {
            self.text_start = Some(self.offset);
        }
        extend_chars(&mut self.text, raw);
        proof {
            lemma_utf8_len_at_least_chars(raw@);
        }
        self.advance_position(raw);
        let bound = self.offset;
        count_backslashes(&mut self.text_trailing_backslashes, bound, raw);
    }

    fn flush_text(&mut self, output: &mut Vec<Segment>)
        requires
            old(self)@.text.len() > 0 ==> old(self)@.text_start is Some,
        ensures
            final(self)@ == flush_text(old(self)@, segments_view(old(output)@)).0,
            segments_view(final(output)@) == flush_text(old(self)@, segments_view(old(output)@)).1,
    {
        if self.text.len() == 0 {
            return ;
        }
        let mut source: Vec<char> = Vec::new();
        std::mem::swap(&mut source, &mut self.text);
        let start = match self.text_start {
            Some(s) => s,
            None => self.offset,
        };
        self.text_start = None;
        let segment = Segment::text(string_from_chars(source.as_slice()), Span::new(start, self.offset));
        push_segment_exec(output, segment);
    }

    fn open_math(&mut self, opener: Vec<char>, closer: MathCloser, display: bool, output: &mut Vec<Segment>)
        requires
            model_inv(old(self)@),
            old(self)@.offset + utf8_len(opener@) <= usize::MAX,
        ensures
            final(self)@ == open_math(old(self)@, segments_view(old(output)@), opener@, closer@, display).0,
            segments_view(final(output)@) == open_math(old(self)@, segments_view(old(output)@), opener@, closer@, display).1,
    {
        self.flush_text(output);
        let start = self.offset;
        self.advance_position(opener.as_slice());
        self.text_trailing_backslashes = 0;
        let kind = if display {
            SegmentKind::DisplayMath
        } else {
            SegmentKind::InlineMath
        };
        self.mode = Mode::Math(
            MathCandidate {
                kind,
                source: opener,
                content: Vec::new(),
                closer,
                start,
                trailing_backslashes: 0,
            },
        );
    }

    fn open_code(&mut self, marker: char, marker_len: usize, flavor: CodeFlavor, output: &mut Vec<Segment>)
        requires
            model_inv(old(self)@),
            old(self)@.offset + utf8_len(repeat_char(marker, marker_len as nat)) <= usize::MAX,
        ensures
            final(self)@ == open_code(old(self)@, segments_view(old(output)@), marker, marker_len as nat, flavor).0,
            segments_view(final(output)@) == open_code(old(self)@, segments_view(old(output)@), marker, marker_len as nat, flavor).1,
    {
        self.flush_text(output);
        let start = self.offset;
        let mut opener: Vec<char> = Vec::new();
        let mut i: usize = 0;
        while i < marker_len
            invariant
                i <= marker_len,
                opener@ == repeat_char(marker, i as nat),
            decreases marker_len - i,
        {
            opener.push(marker);
            assert(opener@ =~= repeat_char(marker, (i + 1) as nat));
            i = i + 1;
        }
        self.advance_position(opener.as_slice());
        self.text_trailing_backslashes = 0;
        self.mode = Mode::Code(
            CodeCandidate { source: opener, content: Vec::new(), marker, marker_len, flavor, start },
        );
    }
}

/// Whether an executed step produced exactly the modeled step.
pub open spec fn step_matches(
    r: (bool, usize),
    after: SegmenterModel,
    out_after: Seq<SegmentView>,
    s: StepModel,
) -> bool {
    &&& r.0 == s.0
    &&& r.1 as int == s.1
    &&& after == s.2
    &&& out_after == s.3
}

proof fn lemma_first_env_match(rem: Seq<char>, k: int)
    requires
        0 <= k,
    ensures
        first_env_match(rem, k) matches Some(i) ==> k <= i < 7 && env_opener(i).is_prefix_of(rem),
    decreases 7 - k,
{
    if k < 7 && !env_opener(k).is_prefix_of(rem) {
        lemma_first_env_match(rem, k + 1);
    }
}

impl Segmenter {
    fn can_open_single_dollar_at(&self, input: &Vec<char>, at: usize) -> (r: bool)
        requires
            at <= input@.len(),
        ensures
            r == can_open_single_dollar(self@, rem_of(input@, at as int)),
    {
        if at >= input.len() {
            return false;
        }
        let next = input[at];
        if is_whitespace(next) {
            return false;
        }
        match self.config.inline_dollars {
            InlineDollarMode::Off => false,
            InlineDollarMode::Smart => !is_ascii_digit(next),
            InlineDollarMode::Always => true,
        }
    }

    fn text_default(&mut self, input: &Vec<char>, cursor: usize) -> (r: (bool, usize))
        requires
            old(self).step_ready(input@, cursor as int),
            old(self)@.mode is Text,
        ensures
            r == (true, 1usize),
            final(self)@ == text_default_step(old(self)@, rem_of(input@, cursor as int), Seq::empty()).2,
    {
        let ghost rem = rem_of(input@, cursor as int);
        proof {
            lemma_first_char_prefix(rem);
        }
        let raw = vec![input[cursor]];
        assert(raw@ =~= seq![rem[0]]);
        self.append_text(raw.as_slice());
        self.mode = Mode::Text;
        (true, 1)
    }

    fn text_code(&mut self, input: &Vec<char>, cursor: usize, finishing: bool, output: &mut Vec<Segment>) -> (r: (bool, usize))
        requires
            old(self).step_ready(input@, cursor as int),
            old(self)@.mode is Text,
        ensures
            step_matches(r, final(self)@, segments_view(final(output)@), text_code_step(old(self)@, rem_of(input@, cursor as int), finishing, segments_view(old(output)@))),
    {
        let ghost rem = rem_of(input@, cursor as int);
        let c = input[cursor];
        if c == '`' {
            let run = ascii_run_at(input, cursor, '`');
            if !finishing && run == input.len() - cursor {
                return (false, 0);
            }
            proof {
                lemma_run_is_prefix(rem, '`');
            }
            let flavor = if run >= 3 && self.fence_eligible() {
                CodeFlavor::Fence
            } else {
                CodeFlavor::Inline
            };
            self.open_code('`', run, flavor, output);
            return (true, run);
        } else if c == '~' && self.fence_eligible() {
            let run = ascii_run_at(input, cursor, '~');
            if !finishing && run == input.len() - cursor {
                return (false, 0);
            }
            if run >= 3 {
                proof {
                    lemma_run_is_prefix(rem, '~');
                }
                self.open_code('~', run, CodeFlavor::Fence, output);
                return (true, run);
            }
            return self.text_default(input, cursor);
        }
        self.text_default(input, cursor)
    }

    fn text_dollar(&mut self, input: &Vec<char>, cursor: usize, finishing: bool, output: &mut Vec<Segment>) -> (r: (bool, usize))
        requires
            old(self).step_ready(input@, cursor as int),
            old(self)@.mode is Text,
        ensures
            step_matches(r, final(self)@, segments_view(final(output)@), text_dollar_step(old(self)@, rem_of(input@, cursor as int), finishing, segments_view(old(output)@))),
    {
        let ghost rem = rem_of(input@, cursor as int);
        let len = input.len();
        if input[cursor] == '$' && self.text_trailing_backslashes % 2 == 0 {
            let dd = double_dollar_chars();
            if has_prefix_at(input, cursor, &dd) {
                proof {
                    lemma_prefix_utf8_len(dd@, rem);
                }
                let closer = double_dollar_chars();
                self.open_math(dd, MathCloser::Literal(closer), true, output);
                return (true, 2);
            }
            if !finishing && input.len() - cursor == 1 {
                return (false, 0);
            }
            assert(rem.drop_first() =~= rem_of(input@, cursor + 1));
            assert(cursor < len);
            if self.can_open_single_dollar_at(input, cursor + 1) {
                let sd = single_dollar_chars();
                proof {
                    lemma_first_char_prefix(rem);
                    assert(sd@ =~= seq![rem[0]]);
                }
                self.open_math(sd, MathCloser::SingleDollar, false, output);
                return (true, 1);
            }
        }
        self.text_code(input, cursor, finishing, output)
    }

    fn process_text(&mut self, input: &Vec<char>, cursor: usize, finishing: bool, output: &mut Vec<Segment>) -> (r: (bool, usize))
        requires
            old(self).step_ready(input@, cursor as int),
            old(self)@.mode is Text,
        ensures
            step_matches(r, final(self)@, segments_view(final(output)@), process_text(old(self)@, rem_of(input@, cursor as int), finishing, segments_view(old(output)@))),
    {
        let ghost rem = rem_of(input@, cursor as int);
        if input[cursor] == '\\' && self.text_trailing_backslashes % 2 == 0 {
            match match_environment_at(input, cursor, finishing) {
                EnvMatchExec::Full(i) => {
                    let opener = env_opener_chars(i);
                    let closer = env_closer_chars(i);
                    let n = opener.len();
                    proof {
                        lemma_first_env_match(rem, 0);
                        lemma_prefix_utf8_len(opener@, rem);
                    }
                    self.open_math(opener, MathCloser::Literal(closer), true, output);
                    return (true, n);
                },
                EnvMatchExec::Incomplete => {
                    return (false, 0);
                },
                EnvMatchExec::NoMatch => {},
            }
            let inline = inline_opener_chars();
            if has_prefix_at(input, cursor, &inline) {
                proof {
                    lemma_prefix_utf8_len(inline@, rem);
                }
                let closer = inline_closer_chars();
                self.open_math(inline, MathCloser::Literal(closer), false, output);
                return (true, 2);
            }
            let display = display_opener_chars();
            if has_prefix_at(input, cursor, &display) {
                proof {
                    lemma_prefix_utf8_len(display@, rem);
                }
                let closer = display_closer_chars();
                self.open_math(display, MathCloser::Literal(closer), true, output);
                return (true, 2);
            }
            if !finishing && input.len() - cursor == 1 {
                return (false, 0);
            }
        }
        self.text_dollar(input, cursor, finishing, output)
    }
}

impl Segmenter {
    /// Whether a step inside candidate `mode` may run over `input[cursor..]`.
    spec fn inner_ready(&self, mode: ModeModel, input: Seq<char>, cursor: int) -> bool {
        &&& self@.mode is Text
        &&& model_inv(SegmenterModel { mode, ..self@ })
        &&& self@.pending.len() == 0
        &&& 0 <= cursor < input.len()
        &&& self@.offset + utf8_len(rem_of(input, cursor)) <= usize::MAX
    }

    fn process_math(
        &mut self,
        candidate: MathCandidate,
        input: &Vec<char>,
        cursor: usize,
        finishing: bool,
        output: &mut Vec<Segment>,
    ) -> (r: (bool, usize))
        requires
            old(self).inner_ready(ModeModel::Math(candidate@), input@, cursor as int),
        ensures
            step_matches(r, final(self)@, segments_view(final(output)@), process_math(old(self)@, candidate@, rem_of(input@, cursor as int), finishing, segments_view(old(output)@))),
    {
        let ghost rem = rem_of(input@, cursor as int);
        let mut candidate = candidate;
        match math_close_len(&candidate, input, cursor, finishing) {
            CloseMatchExec::Full(n) => {
                let len = input.len();
                assert(n <= len - cursor);
                let closer = copy_range(input, cursor, cursor + n);
                proof {
                    assert(closer@ =~= rem.take(n as int));
                    lemma_utf8_len_prefix(rem, n as int);
                }
                extend_chars(&mut candidate.source, closer.as_slice());
                self.advance_position(closer.as_slice());
                let segment = Segment::new(
                    candidate.kind,
                    string_from_chars(candidate.source.as_slice()),
                    string_from_chars(candidate.content.as_slice()),
                    Span::new(candidate.start, self.offset),
                );
                push_segment_exec(output, segment);
                self.text_trailing_backslashes = 0;
                self.mode = Mode::Text;
                (true, n)
            },
            CloseMatchExec::Incomplete => {
                self.mode = Mode::Math(candidate);
                (false, 0)
            },
            CloseMatchExec::NoMatch => {
                proof {
                    lemma_first_char_prefix(rem);
                }
                let raw = vec![input[cursor]];
                assert(raw@ =~= seq![rem[0]]);
                proof {
                    lemma_utf8_len_at_least_chars(raw@);
                }
                extend_chars(&mut candidate.source, raw.as_slice());
                extend_chars(&mut candidate.content, raw.as_slice());
                self.advance_position(raw.as_slice());
                let bound = self.offset;
                count_backslashes(&mut candidate.trailing_backslashes, bound, raw.as_slice());
                self.mode = Mode::Math(candidate);
                (true, 1)
            },
        }
    }

    fn process_code(
        &mut self,
        candidate: CodeCandidate,
        input: &Vec<char>,
        cursor: usize,
        finishing: bool,
        output: &mut Vec<Segment>,
    ) -> (r: (bool, usize))
        requires
            old(self).inner_ready(ModeModel::Code(candidate@), input@, cursor as int),
        ensures
            step_matches(r, final(self)@, segments_view(final(output)@), process_code(old(self)@, candidate@, rem_of(input@, cursor as int), finishing, segments_view(old(output)@))),
    {
        let ghost rem = rem_of(input@, cursor as int);
        let mut candidate = candidate;
        if input[cursor] == candidate.marker {
            let run = ascii_run_at(input, cursor, candidate.marker);
            if !finishing && run == input.len() - cursor {
                self.mode = Mode::Code(candidate);
                return (false, 0);
            }
            let closes = match candidate.flavor {
                CodeFlavor::Inline => run == candidate.marker_len,
                CodeFlavor::Fence => run >= candidate.marker_len && self.fence_eligible(),
            };
            if closes {
                let len = input.len();
                assert(run <= len - cursor);
                let closer = copy_range(input, cursor, cursor + run);
                proof {
                    assert(closer@ =~= rem.take(run as int));
                    lemma_utf8_len_prefix(rem, run as int);
                }
                extend_chars(&mut candidate.source, closer.as_slice());
                self.advance_position(closer.as_slice());
                let segment = Segment::new(
                    SegmentKind::Code,
                    string_from_chars(candidate.source.as_slice()),
                    string_from_chars(candidate.content.as_slice()),
                    Span::new(candidate.start, self.offset),
                );
                push_segment_exec(output, segment);
                self.text_trailing_backslashes = 0;
                self.mode = Mode::Text;
                return (true, run);
            }
        }
        proof {
            lemma_first_char_prefix(rem);
        }
        let raw = vec![input[cursor]];
        assert(raw@ =~= seq![rem[0]]);
        extend_chars(&mut candidate.source, raw.as_slice());
        extend_chars(&mut candidate.content, raw.as_slice());
        self.advance_position(raw.as_slice());
        self.mode = Mode::Code(candidate);
        (true, 1)
    }
}

impl Segmenter {
    /// One parsing step over `input[cursor..]`, dispatched on the current mode.
    fn step(&mut self, input: &Vec<char>, cursor: usize, finishing: bool, output: &mut Vec<Segment>) -> (r: (bool, usize))
        requires
            old(self).step_ready(input@, cursor as int),
        ensures
            step_matches(r, final(self)@, segments_view(final(output)@), step(old(self)@, rem_of(input@, cursor as int), finishing, segments_view(old(output)@))),
    {
        let ghost before = self@;
        let mut mode = Mode::Text;
        std::mem::swap(&mut mode, &mut self.mode);
        match mode {
            Mode::Text => self.process_text(input, cursor, finishing, output),
            Mode::Math(candidate) => {
                assert(SegmenterModel { mode: ModeModel::Math(candidate@), ..self@ } =~= before);
                self.process_math(candidate, input, cursor, finishing, output)
            },
            Mode::Code(candidate) => {
                assert(SegmenterModel { mode: ModeModel::Code(candidate@), ..self@ } =~= before);
                self.process_code(candidate, input, cursor, finishing, output)
            },
        }
    }

    /// Parses the buffered input until it ends or more input is needed.
    fn process(&mut self, finishing: bool) -> (output: Vec<Segment>)
        requires
            model_inv(old(self)@),
        ensures
            (final(self)@, segments_view(output@)) == process(old(self)@, finishing),
            model_inv(final(self)@),
            finishing ==> final(self)@.pending.len() == 0,
    {
        let mut input: Vec<char> = Vec::new();
        std::mem::swap(&mut input, &mut self.pending);
        let mut output: Vec<Segment> = Vec::new();
        let mut cursor: usize = 0;
        let ghost m0 = self@;
        proof {
            assert(rem_of(input@, 0) =~= input@);
            assert(segments_view(output@) =~= Seq::<SegmentView>::empty());
        }
        while cursor < input.len()
            invariant_except_break
                process_loop(m0, input@, 0, finishing, Seq::empty()) == process_loop(
                    self@,
                    input@,
                    cursor as int,
                    finishing,
                    segments_view(output@),
                ),
            invariant
                model_inv(self@),
                self@.pending.len() == 0,
                cursor <= input@.len(),
                self@.offset + utf8_len(rem_of(input@, cursor as int)) <= usize::MAX,
            ensures
                process_loop(m0, input@, 0, finishing, Seq::empty()) == (
                    self@,
                    segments_view(output@),
                    cursor as int,
                ),
                finishing ==> cursor == input@.len(),
            decreases input@.len() - cursor,
        {
            let ghost rem = rem_of(input@, cursor as int);
            let ghost out_before = segments_view(output@);
            let ghost before = self@;
            proof {
                lemma_step_ok(self@, rem, finishing, out_before);
                if finishing {
                    lemma_finishing_step_continues(self@, rem, out_before);
                }
            }
            let (cont, n) = self.step(&input, cursor, finishing, &mut output);
            if !cont {
                break;
            }
            proof {
                lemma_utf8_len_prefix(rem, n as int);
                assert(rem.skip(n as int) =~= rem_of(input@, cursor + n));
            }
            cursor = cursor + n;
        }
        let len = input.len();
        self.pending = copy_range(&input, cursor, len);
        let ghost m1 = self@;
        let is_text = match self.mode {
            Mode::Text => true,
            _ => false,
        };
        if is_text {
            proof {
                lemma_flush_text_inv(m1, segments_view(output@));
            }
            self.flush_text(&mut output);
        }
        output
    }

    /// Consumes one valid UTF-8 stream chunk and returns stable completed segments.
    pub fn push(&mut self, chunk: &str) -> (r: Vec<Segment>)
        requires
            old(self).wf(),
            old(self)@.offset + utf8_len(old(self)@.pending) + utf8_len(chunk@) <= usize::MAX,
        ensures
            final(self).wf(),
            (final(self)@, segments_view(r@)) == push(old(self)@, chunk@),
    {
        let chars = crate::text::chars_of(chunk);
        extend_chars(&mut self.pending, chars.as_slice());
        proof {
            lemma_utf8_len_concat(old(self)@.pending, chunk@);
        }
        self.process(false)
    }

    fn consume_unexpected_pending(&mut self)
        requires
            model_inv(old(self)@),
        ensures
            final(self)@ == consume_unexpected_pending(old(self)@),
    {
        if self.pending.len() == 0 {
            return ;
        }
        let mut pending: Vec<char> = Vec::new();
        std::mem::swap(&mut pending, &mut self.pending);
        let mut mode = Mode::Text;
        std::mem::swap(&mut mode, &mut self.mode);
        match mode {
            Mode::Text => {
                self.append_text(pending.as_slice());
            },
            Mode::Math(candidate) => {
                let mut candidate = candidate;
                extend_chars(&mut candidate.source, pending.as_slice());
                extend_chars(&mut candidate.content, pending.as_slice());
                self.mode = Mode::Math(candidate);
                self.advance_position(pending.as_slice());
            },
            Mode::Code(candidate) => {
                let mut candidate = candidate;
                extend_chars(&mut candidate.source, pending.as_slice());
                extend_chars(&mut candidate.content, pending.as_slice());
                self.mode = Mode::Code(candidate);
                self.advance_position(pending.as_slice());
            },
        }
    }

    /// Finalizes the stream and converts incomplete candidates back to text.
    pub fn finish(&mut self) -> (r: Vec<Segment>)
        requires
            old(self).wf(),
        ensures
            final(self).wf(),
            (final(self)@, segments_view(r@)) == finish(old(self)@),
    {
        let mut output = self.process(true);
        self.consume_unexpected_pending();
        let ghost m2 = self@;
        let mut mode = Mode::Text;
        std::mem::swap(&mut mode, &mut self.mode);
        match mode {
            Mode::Text => {
                proof {
                    lemma_flush_text_inv(m2, segments_view(output@));
                }
                self.flush_text(&mut output);
            },
            Mode::Math(candidate) => {
                let segment = Segment::text(
                    string_from_chars(candidate.source.as_slice()),
                    Span::new(candidate.start, self.offset),
                );
                push_segment_exec(&mut output, segment);
            },
            Mode::Code(candidate) => {
                let segment = Segment::text(
                    string_from_chars(candidate.source.as_slice()),
                    Span::new(candidate.start, self.offset),
                );
                push_segment_exec(&mut output, segment);
            },
        }
        output
    }

    /// Returns an exact source snapshot of a currently open math or code candidate.
    pub fn pending_source(&self) -> (r: Option<String>)
        ensures
            match pending_source(self@) {
                Some(s) => r matches Some(x) && x@ == s,
                None => r is None,
            },
    {
        match &self.mode {
            Mode::Text => None,
            Mode::Math(candidate) => {
                let mut all: Vec<char> = Vec::new();
                extend_chars(&mut all, candidate.source.as_slice());
                extend_chars(&mut all, self.pending.as_slice());
                Some(string_from_chars(all.as_slice()))
            },
            Mode::Code(candidate) => {
                let mut all: Vec<char> = Vec::new();
                extend_chars(&mut all, candidate.source.as_slice());
                extend_chars(&mut all, self.pending.as_slice());
                Some(string_from_chars(all.as_slice()))
            },
        }
    }

    /// Returns the semantic kind of the currently open candidate.
    pub fn pending_kind(&self) -> (r: Option<SegmentKind>)
        ensures
            r == pending_kind(self@),
    {
        match &self.mode {
            Mode::Text => None,
            Mode::Math(candidate) => Some(candidate.kind),
            Mode::Code(_) => Some(SegmentKind::Code),
        }
    }
}

impl Default for Segmenter {
    fn default() -> (r: Self)
        ensures
            r@ == initial(SegmenterConfig { inline_dollars: InlineDollarMode::Smart }),
            r.wf(),
    {
        Self::new()
    }
}

} // verus!
