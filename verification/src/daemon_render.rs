//! Version 1 message rendering: which equations of a message are rendered, in what
//! order, and what each one reports, under per equation and per message limits.

use vstd::prelude::*;

use crate::cli_error::{CliError, CliErrorKind};
use crate::color::Rgba;
use crate::daemon_protocol::{
    DaemonErrorV1, InlineDollarsV1, MAX_DAEMON_ACCESSIBILITY_BYTES, MAX_DAEMON_EQUATIONS,
    MAX_DAEMON_PNG_BYTES, MAX_DAEMON_RESPONSE_LINE_BYTES, MAX_DAEMON_TOTAL_ACCESSIBILITY_BYTES,
    MAX_DAEMON_TOTAL_PNG_BYTES, ValidatedRenderMessageV1, error,
};
use crate::error::{RenderError, RenderErrorCode};
use crate::request::RenderRequest;
use crate::segment::{
    InlineDollarMode, Segment, SegmentKind, SegmentView, SegmenterConfig, segments_view,
};
use crate::segmenter::Segmenter;
use crate::segmenter_dollars::{
    all_text, dollar_enclosed, law_dollars_off_open_no_inline_math,
    law_single_dollars_enclose_inline_math, law_dollars_that_cannot_open_stay_text, none_dollar_math,
    not_dollar_math, plain_char, single_dollar_body,
};
use crate::segmenter_laws::stream_segments;
use crate::text::{byte_len, spec_is_ascii_digit, spec_is_whitespace, utf8_len};

verus! {

/// Per message and per equation output limits of the daemon.
#[derive(Clone, Copy, Debug, PartialEq, Eq, Structural)]
pub struct DaemonRenderLimitsV1 {
    pub max_equations: usize,
    pub max_png_bytes: usize,
    pub max_total_png_bytes: usize,
    pub max_accessibility_bytes: usize,
    pub max_total_accessibility_bytes: usize,
}

impl Default for DaemonRenderLimitsV1 {
    fn default() -> (r: Self)
        ensures
            r == (DaemonRenderLimitsV1 {
                max_equations: MAX_DAEMON_EQUATIONS,
                max_png_bytes: MAX_DAEMON_PNG_BYTES,
                max_total_png_bytes: MAX_DAEMON_TOTAL_PNG_BYTES,
                max_accessibility_bytes: MAX_DAEMON_ACCESSIBILITY_BYTES,
                max_total_accessibility_bytes: MAX_DAEMON_TOTAL_ACCESSIBILITY_BYTES,
            }),
    {
        DaemonRenderLimitsV1 {
            max_equations: MAX_DAEMON_EQUATIONS,
            max_png_bytes: MAX_DAEMON_PNG_BYTES,
            max_total_png_bytes: MAX_DAEMON_TOTAL_PNG_BYTES,
            max_accessibility_bytes: MAX_DAEMON_ACCESSIBILITY_BYTES,
            max_total_accessibility_bytes: MAX_DAEMON_TOTAL_ACCESSIBILITY_BYTES,
        }
    }
}

/// What the daemon reports for one equation.
#[derive(Clone, Debug, PartialEq)]
pub enum EquationOutcomeV1 {
    Rendered {
        start_byte: usize,
        end_byte: usize,
        display_mode: bool,
        png_base64: String,
        width_px: u32,
        height_px: u32,
        /// Baseline from the top edge (single precision bit pattern).
        baseline_px: Option<u32>,
        accessibility_text: String,
    },
    Failed { start_byte: usize, end_byte: usize, display_mode: bool, error: DaemonErrorV1 },
}

/// A rendered and rasterized equation, before it is reported.
pub struct RenderedEquationV1 {
    pub png: Vec<u8>,
    pub width_px: u32,
    pub height_px: u32,
    /// Baseline from the top edge (single precision bit pattern).
    pub baseline_px: Option<u32>,
    pub accessibility_text: String,
}

/// The standard padded base64 encoding of bytes.
pub uninterp spec fn base64_standard(bytes: Seq<u8>) -> Seq<char>;

/// Encodes bytes as standard padded base64 (`base64::engine::general_purpose::STANDARD`);
/// every three bytes, or the last one or two, become four characters.
#[verifier::external_body]
pub(crate) fn encode_base64(bytes: &[u8]) -> (r: String)
    ensures
        r@ == base64_standard(bytes@),
        r@.len() == 4 * ((bytes@.len() + 2) / 3),
{
    <base64::engine::GeneralPurpose as base64::Engine>::encode(&base64::engine::general_purpose::STANDARD, bytes)
}

/// The wire name of a render error code.
pub open spec fn code_name(code: RenderErrorCode) -> Seq<char> {
    match code {
        RenderErrorCode::InvalidRequest => "invalid_request"@,
        RenderErrorCode::InputLimitExceeded => "input_limit_exceeded"@,
        RenderErrorCode::OutputLimitExceeded => "output_limit_exceeded"@,
        RenderErrorCode::InvalidTex => "invalid_tex"@,
        RenderErrorCode::Protocol => "protocol"@,
        RenderErrorCode::WorkerUnavailable => "worker_unavailable"@,
        RenderErrorCode::Timeout => "timeout"@,
        RenderErrorCode::QueueFull => "queue_full"@,
        RenderErrorCode::Cancelled => "cancelled"@,
        RenderErrorCode::UnsafeOutput => "unsafe_output"@,
        RenderErrorCode::RenderFailed => "render_failed"@,
    }
}

/// The daemon error reporting a render error: its wire code and retryability.
pub fn daemon_error_from_render(e: &RenderError) -> (r: DaemonErrorV1)
    ensures
        r.code@ == code_name(e.code),
        r.retryable == e.retryable,
{
    let code = match e.code {
        RenderErrorCode::InvalidRequest => "invalid_request",
        RenderErrorCode::InputLimitExceeded => "input_limit_exceeded",
        RenderErrorCode::OutputLimitExceeded => "output_limit_exceeded",
        RenderErrorCode::InvalidTex => "invalid_tex",
        RenderErrorCode::Protocol => "protocol",
        RenderErrorCode::WorkerUnavailable => "worker_unavailable",
        RenderErrorCode::Timeout => "timeout",
        RenderErrorCode::QueueFull => "queue_full",
        RenderErrorCode::Cancelled => "cancelled",
        RenderErrorCode::UnsafeOutput => "unsafe_output",
        RenderErrorCode::RenderFailed => "render_failed",
    };
    error(code, e.retryable)
}

/// The segmenter configuration of a message.
pub open spec fn dollar_config(mode: InlineDollarsV1) -> SegmenterConfig {
    SegmenterConfig {
        inline_dollars: match mode {
            InlineDollarsV1::Off => InlineDollarMode::Off,
            InlineDollarsV1::Smart => InlineDollarMode::Smart,
            InlineDollarsV1::Always => InlineDollarMode::Always,
        },
    }
}

pub open spec fn is_math(s: SegmentView) -> bool {
    s.kind == SegmentKind::InlineMath || s.kind == SegmentKind::DisplayMath
}

/// The math segments among segments, in order.
pub open spec fn math_only(s: Seq<SegmentView>) -> Seq<SegmentView>
    decreases s.len(),
{
    if s.len() == 0 {
        s
    } else if is_math(s.last()) {
        math_only(s.drop_last()).push(s.last())
    } else {
        math_only(s.drop_last())
    }
}

/// The math segments of a message, in order.
pub open spec fn message_equations(source: Seq<char>, mode: InlineDollarsV1) -> Seq<SegmentView> {
    math_only(stream_segments(dollar_config(mode), seq![source]))
}

/// The math segments of a message, in order.
pub fn segment_equations(request: &ValidatedRenderMessageV1) -> (r: Vec<Segment>)
    ensures
        segments_view(r@) == message_equations(request.source@, request.inline_dollars),
{
    let inline_dollars = match request.inline_dollars {
        InlineDollarsV1::Off => InlineDollarMode::Off,
        InlineDollarsV1::Smart => InlineDollarMode::Smart,
        InlineDollarsV1::Always => InlineDollarMode::Always,
    };
    let config = SegmenterConfig { inline_dollars };
    let mut segmenter = Segmenter::with_config(config);
    let n = byte_len(request.source.as_str());
    proof {
        assert(utf8_len(Seq::<char>::empty()) == 0) by {
            assert(vstd::utf8::encode_utf8(Seq::<char>::empty()) =~= Seq::<u8>::empty());
        }
    }
    let ghost m0 = segmenter@;
    let mut all = segmenter.push(request.source.as_str());
    let ghost first = segments_view(all@);
    let ghost m1 = segmenter@;
    let mut last = segmenter.finish();
    let ghost rest = segments_view(last@);
    all.append(&mut last);
    proof {
        let chunks = seq![request.source@];
        assert(chunks.drop_last() =~= Seq::<Seq<char>>::empty());
        assert(chunks.last() == request.source@);
        assert(crate::segmenter_laws::feed(m0, chunks.drop_last()) == (m0, Seq::<SegmentView>::empty()));
        assert(crate::segmenter_laws::feed(m0, chunks) == (m1, Seq::<SegmentView>::empty() + first));
        assert(Seq::<SegmentView>::empty() + first =~= first);
        assert(segments_view(all@) =~= first + rest);
        assert(segments_view(all@) == stream_segments(config, chunks));
    }
    let mut out: Vec<Segment> = Vec::new();
    let mut i: usize = 0;
    while i < all.len()
        invariant
            i <= all@.len(),
            segments_view(out@) == math_only(segments_view(all@).take(i as int)),
        decreases all@.len() - i,
    {
        proof {
            let v = segments_view(all@);
            assert(v.take(i + 1).drop_last() =~= v.take(i as int));
            assert(v.take(i + 1).last() == all@[i as int]@);
        }
        if all[i].kind == SegmentKind::InlineMath || all[i].kind == SegmentKind::DisplayMath {
            out.push(all[i].clone_segment());
            assert(segments_view(out@) =~= math_only(segments_view(all@).take(i + 1)));
        } else {
            assert(segments_view(out@) =~= math_only(segments_view(all@).take(i + 1)));
        }
        i = i + 1;
    }
    assert(segments_view(all@).take(all@.len() as int) =~= segments_view(all@));
    out
}


/// The value of an [`EquationOutcomeV1`].
pub enum OutcomeView {
    Rendered {
        start: int,
        end: int,
        display: bool,
        png_base64: Seq<char>,
        width: u32,
        height: u32,
        baseline: Option<u32>,
        access: Seq<char>,
    },
    Failed { start: int, end: int, display: bool, code: Seq<char>, retryable: bool },
}

impl View for EquationOutcomeV1 {
    type V = OutcomeView;

    open spec fn view(&self) -> OutcomeView {
        match self {
            EquationOutcomeV1::Rendered {
                start_byte,
                end_byte,
                display_mode,
                png_base64,
                width_px,
                height_px,
                baseline_px,
                accessibility_text,
            } => OutcomeView::Rendered {
                start: *start_byte as int,
                end: *end_byte as int,
                display: *display_mode,
                png_base64: png_base64@,
                width: *width_px,
                height: *height_px,
                baseline: *baseline_px,
                access: accessibility_text@,
            },
            EquationOutcomeV1::Failed { start_byte, end_byte, display_mode, error } => OutcomeView::Failed {
                start: *start_byte as int,
                end: *end_byte as int,
                display: *display_mode,
                code: error.code@,
                retryable: error.retryable,
            },
        }
    }
}

/// The value of a [`RenderedEquationV1`].
pub struct RenderedEquationView {
    pub png: Seq<u8>,
    pub width: u32,
    pub height: u32,
    pub baseline: Option<u32>,
    pub access: Seq<char>,
}

impl View for RenderedEquationV1 {
    type V = RenderedEquationView;

    open spec fn view(&self) -> RenderedEquationView {
        RenderedEquationView {
            png: self.png@,
            width: self.width_px,
            height: self.height_px,
            baseline: self.baseline_px,
            access: self.accessibility_text@,
        }
    }
}

/// The progress of rendering one message.
pub struct JobView {
    pub equations: Seq<SegmentView>,
    pub foreground: Rgba,
    pub background: Option<Rgba>,
    pub scale: u32,
    pub max_width_px: u32,
    pub limits: DaemonRenderLimitsV1,
    pub next: int,
    pub outcomes: Seq<OutcomeView>,
    pub total_png: int,
    pub total_access: int,
    pub stopped: bool,
}

/// The invariant of a job: one outcome per equation handled so far, totals within limits.
pub open spec fn job_inv(j: JobView) -> bool {
    &&& 0 <= j.next <= j.equations.len()
    &&& j.outcomes.len() == j.next
    &&& j.equations.len() <= j.limits.max_equations
    &&& 0 <= j.total_png <= j.limits.max_total_png_bytes
    &&& 0 <= j.total_access <= j.limits.max_total_accessibility_bytes
    &&& forall|i: int| 0 <= i < j.equations.len() ==> 0 <= #[trigger] j.equations[i].start && j.equations[i].start
        <= usize::MAX && 0 <= j.equations[i].end <= usize::MAX
}

/// The failure reported for an equation.
pub open spec fn failed_for(seg: SegmentView, code: Seq<char>, retryable: bool) -> OutcomeView {
    OutcomeView::Failed {
        start: seg.start,
        end: seg.end,
        display: seg.kind == SegmentKind::DisplayMath,
        code,
        retryable,
    }
}

/// Every equation not yet handled fails once the message limit was reached.
pub open spec fn fail_rest(j: JobView) -> JobView {
    JobView {
        next: j.equations.len() as int,
        outcomes: j.outcomes + Seq::new(
            (j.equations.len() - j.next) as nat,
            |i: int| failed_for(j.equations[j.next + i], "output_limit_exceeded"@, false),
        ),
        ..j
    }
}

/// The render request for an equation of the message.
pub open spec fn request_for(j: JobView, seg: SegmentView) -> (Seq<char>, bool, Rgba, Option<Rgba>, u32, u32) {
    (seg.content, seg.kind == SegmentKind::DisplayMath, j.foreground, j.background, j.scale, j.max_width_px)
}

/// Asking for work: after the message limit was reached the rest fails without
/// rendering; otherwise the next equation, if any, is to be rendered.
pub open spec fn next_model(j: JobView) -> (JobView, Option<(Seq<char>, bool, Rgba, Option<Rgba>, u32, u32)>) {
    if j.stopped {
        (fail_rest(j), None)
    } else if j.next < j.equations.len() {
        (j, Some(request_for(j, j.equations[j.next])))
    } else {
        (j, None)
    }
}

/// Recording the result of rendering the current equation.
pub open spec fn record_model(j: JobView, result: Result<RenderedEquationView, (RenderErrorCode, bool)>) -> JobView {
    let seg = j.equations[j.next];
    let limit = failed_for(seg, "output_limit_exceeded"@, false);
    match result {
        Err((code, retryable)) => JobView {
            next: j.next + 1,
            outcomes: j.outcomes.push(failed_for(seg, code_name(code), retryable)),
            ..j
        },
        Ok(r) => if utf8_len(r.access) > j.limits.max_accessibility_bytes {
            JobView { next: j.next + 1, outcomes: j.outcomes.push(limit), ..j }
        } else if j.total_png + r.png.len() > j.limits.max_total_png_bytes || j.total_access + utf8_len(r.access)
            > j.limits.max_total_accessibility_bytes {
            JobView { next: j.next + 1, outcomes: j.outcomes.push(limit), stopped: true, ..j }
        } else {
            JobView {
                next: j.next + 1,
                outcomes: j.outcomes.push(
                    OutcomeView::Rendered {
                        start: seg.start,
                        end: seg.end,
                        display: seg.kind == SegmentKind::DisplayMath,
                        png_base64: base64_standard(r.png),
                        width: r.width,
                        height: r.height,
                        baseline: r.baseline,
                        access: r.access,
                    },
                ),
                total_png: j.total_png + r.png.len(),
                total_access: j.total_access + utf8_len(r.access),
                ..j
            }
        },
    }
}

/// Rendering one message: its equations, the values every request shares, and the
/// outcomes so far.
pub struct DaemonJobV1 {
    equations: Vec<Segment>,
    foreground: Rgba,
    background: Option<Rgba>,
    scale: u32,
    max_width_px: u32,
    limits: DaemonRenderLimitsV1,
    next: usize,
    outcomes: Vec<EquationOutcomeV1>,
    total_png: usize,
    total_access: usize,
    stopped: bool,
}

impl View for DaemonJobV1 {
    type V = JobView;

    closed spec fn view(&self) -> JobView {
        JobView {
            equations: segments_view(self.equations@),
            foreground: self.foreground,
            background: self.background,
            scale: self.scale,
            max_width_px: self.max_width_px,
            limits: self.limits,
            next: self.next as int,
            outcomes: self.outcomes@.map_values(|o: EquationOutcomeV1| o@),
            total_png: self.total_png as int,
            total_access: self.total_access as int,
            stopped: self.stopped,
        }
    }
}

fn failed_outcome(segment: &Segment, error: DaemonErrorV1) -> (r: EquationOutcomeV1)
    ensures
        r@ == failed_for(segment@, error.code@, error.retryable),
{
    EquationOutcomeV1::Failed {
        start_byte: segment.span.start,
        end_byte: segment.span.end,
        display_mode: segment.kind == SegmentKind::DisplayMath,
        error,
    }
}

impl DaemonJobV1 {
    pub open spec fn wf(&self) -> bool {
        job_inv(self@)
    }

    /// Starts rendering a message: its equations, refused when there are too many.
    pub fn begin(request: &ValidatedRenderMessageV1, limits: DaemonRenderLimitsV1) -> (r: Result<
        DaemonJobV1,
        DaemonErrorV1,
    >)
        ensures
            message_equations(request.source@, request.inline_dollars).len() > limits.max_equations ==> (
            r matches Err(e) && e.code@ == "input_limit_exceeded"@ && !e.retryable),
            message_equations(request.source@, request.inline_dollars).len() <= limits.max_equations ==> (
            r matches Ok(j) && j.wf() && j@.equations == message_equations(request.source@, request.inline_dollars)
                && j@.foreground == request.foreground && j@.background == request.background && j@.scale
                == request.scale && j@.max_width_px == request.max_width_px && j@.limits == limits && j@.next == 0
                && j@.total_png == 0 && j@.total_access == 0 && !j@.stopped),
    {
        let equations = segment_equations(request);
        if equations.len() > limits.max_equations {
            return Err(error("input_limit_exceeded", false));
        }
        let j = DaemonJobV1 {
            equations,
            foreground: request.foreground,
            background: request.background,
            scale: request.scale,
            max_width_px: request.max_width_px,
            limits,
            next: 0,
            outcomes: Vec::new(),
            total_png: 0,
            total_access: 0,
            stopped: false,
        };
        assert(j@.outcomes =~= Seq::<OutcomeView>::empty());
        Ok(j)
    }

    /// The limit on the PNG of one equation, for the rasterizer.
    pub fn max_png_bytes(&self) -> (r: usize)
        ensures
            r == self@.limits.max_png_bytes,
    {
        self.limits.max_png_bytes
    }
}


/// The value of a render result as the job records it.
pub open spec fn result_view(result: Result<RenderedEquationV1, RenderError>) -> Result<
    RenderedEquationView,
    (RenderErrorCode, bool),
> {
    match result {
        Ok(r) => Ok(r@),
        Err(e) => Err((e.code, e.retryable)),
    }
}

impl DaemonJobV1 {
    /// The next equation to render, if any; once the message limit was reached, every
    /// remaining equation fails instead.
    pub fn next_request(&mut self) -> (r: Option<RenderRequest>)
        requires
            old(self).wf(),
        ensures
            final(self).wf(),
            final(self)@ == next_model(old(self)@).0,
            match next_model(old(self)@).1 {
                Some(q) => r matches Some(x) && (x.source@, x.display_mode, x.foreground, x.background, x.scale,
                    x.max_width_px) == q,
                None => r is None,
            },
    {
        if self.stopped {
            let ghost start = self.next as int;
            let ghost before = self@;
            while self.next < self.equations.len()
                invariant
                    start <= self.next <= self.equations@.len(),
                    job_inv(before),
                    start == before.next,
                    self@ == (JobView {
                        next: self.next as int,
                        outcomes: before.outcomes + Seq::new(
                            (self.next - start) as nat,
                            |i: int| failed_for(before.equations[start + i], "output_limit_exceeded"@, false),
                        ),
                        ..before
                    }),
                decreases self.equations@.len() - self.next,
            {
                let ghost k = self.next - start;
                let ghost prev = self@.outcomes;
                let o = failed_outcome(&self.equations[self.next], error("output_limit_exceeded", false));
                assert(o@ == failed_for(before.equations[start + k], "output_limit_exceeded"@, false));
                self.outcomes.push(o);
                self.next = self.next + 1;
                assert(self@.outcomes =~= prev.push(o@));
                assert(self@.outcomes =~= before.outcomes + Seq::new(
                    (self.next - start) as nat,
                    |i: int| failed_for(before.equations[start + i], "output_limit_exceeded"@, false),
                ));
            }
            return None;
        }
        if self.next < self.equations.len() {
            let seg = &self.equations[self.next];
            Some(
                RenderRequest {
                    source: seg.content.clone(),
                    display_mode: seg.kind == SegmentKind::DisplayMath,
                    foreground: self.foreground,
                    background: self.background,
                    scale: self.scale,
                    max_width_px: self.max_width_px,
                },
            )
        } else {
            None
        }
    }

    /// Records the result of rendering the current equation.
    pub fn record(&mut self, result: Result<RenderedEquationV1, RenderError>)
        requires
            old(self).wf(),
            !old(self)@.stopped,
            old(self)@.next < old(self)@.equations.len(),
        ensures
            final(self).wf(),
            final(self)@ == record_model(old(self)@, result_view(result)),
    {
        let ghost before = self@;
        match result {
            Err(e) => {
                let o = failed_outcome(&self.equations[self.next], daemon_error_from_render(&e));
                self.outcomes.push(o);
                self.next = self.next + 1;
                assert(self@.outcomes =~= before.outcomes.push(
                    failed_for(before.equations[before.next], code_name(e.code), e.retryable),
                ));
            },
            Ok(r) => {
                let access_len = byte_len(r.accessibility_text.as_str());
                if access_len > self.limits.max_accessibility_bytes {
                    let o = failed_outcome(&self.equations[self.next], error("output_limit_exceeded", false));
                    self.outcomes.push(o);
                    self.next = self.next + 1;
                    assert(self@.outcomes =~= before.outcomes.push(
                        failed_for(before.equations[before.next], "output_limit_exceeded"@, false),
                    ));
                    return ;
                }
                let png_len = r.png.len();
                if png_len > self.limits.max_total_png_bytes - self.total_png || access_len
                    > self.limits.max_total_accessibility_bytes - self.total_access {
                    let o = failed_outcome(&self.equations[self.next], error("output_limit_exceeded", false));
                    self.outcomes.push(o);
                    self.next = self.next + 1;
                    self.stopped = true;
                    assert(self@.outcomes =~= before.outcomes.push(
                        failed_for(before.equations[before.next], "output_limit_exceeded"@, false),
                    ));
                    return ;
                }
                self.total_png = self.total_png + png_len;
                self.total_access = self.total_access + access_len;
                let encoded = encode_base64(r.png.as_slice());
                let seg = &self.equations[self.next];
                let o = EquationOutcomeV1::Rendered {
                    start_byte: seg.span.start,
                    end_byte: seg.span.end,
                    display_mode: seg.kind == SegmentKind::DisplayMath,
                    png_base64: encoded,
                    width_px: r.width_px,
                    height_px: r.height_px,
                    baseline_px: r.baseline_px,
                    accessibility_text: r.accessibility_text,
                };
                self.outcomes.push(o);
                self.next = self.next + 1;
                assert(self@.outcomes =~= record_model(before, result_view(Ok(r))).outcomes);
            },
        }
    }

    /// The outcome of every equation, in message order.
    pub fn into_outcomes(self) -> (r: Vec<EquationOutcomeV1>)
        ensures
            r@.map_values(|o: EquationOutcomeV1| o@) == self@.outcomes,
    {
        self.outcomes
    }
}

/// One failing equation never stops the others: after a render error the message
/// goes on with its next equation.
pub proof fn law_failure_keeps_later_equations(j: JobView, code: RenderErrorCode, retryable: bool)
    requires
        job_inv(j),
        !j.stopped,
        j.next < j.equations.len(),
    ensures
        !record_model(j, Err((code, retryable))).stopped,
        record_model(j, Err((code, retryable))).next == j.next + 1,
        record_model(j, Err((code, retryable))).outcomes.last() == failed_for(
            j.equations[j.next],
            code_name(code),
            retryable,
        ),
{
}

/// Once a message limit is reached, no further equation is rendered: every remaining
/// equation is reported as over the output limit, and nothing is left to render.
pub proof fn law_limit_stops_rendering(j: JobView)
    requires
        job_inv(j),
        j.stopped,
    ensures
        next_model(j).1 is None,
        next_model(j).0.next == j.equations.len(),
        next_model(j).0.outcomes.len() == j.equations.len(),
        forall|i: int|
            j.next <= i < j.equations.len() ==> #[trigger] next_model(j).0.outcomes[i] == failed_for(
                j.equations[i],
                "output_limit_exceeded"@,
                false,
            ),
{
    let n = next_model(j).0;
    assert forall|i: int| j.next <= i < j.equations.len() implies #[trigger] n.outcomes[i] == failed_for(
        j.equations[i],
        "output_limit_exceeded"@,
        false,
    ) by {
        assert(n.outcomes[i] == Seq::new(
            (j.equations.len() - j.next) as nat,
            |k: int| failed_for(j.equations[j.next + k], "output_limit_exceeded"@, false),
        )[i - j.next]);
    }
}

/// Every equation is reported exactly once, in message order: when nothing is left to
/// render, there is one outcome per equation, spanning that equation.
pub proof fn law_one_outcome_per_equation(j: JobView)
    requires
        job_inv(j),
        forall|i: int| 0 <= i < j.outcomes.len() ==> #[trigger] outcome_spans(j.outcomes[i], j.equations[i]),
    ensures
        next_model(j).1 is None ==> next_model(j).0.outcomes.len() == j.equations.len(),
        forall|i: int|
            0 <= i < next_model(j).0.outcomes.len() ==> #[trigger] outcome_spans(
                next_model(j).0.outcomes[i],
                j.equations[i],
            ),
{
    let n = next_model(j).0;
    if j.stopped {
        assert forall|i: int| 0 <= i < n.outcomes.len() implies #[trigger] outcome_spans(n.outcomes[i], j.equations[i]) by {
            if i >= j.next {
                assert(n.outcomes[i] == Seq::new(
                    (j.equations.len() - j.next) as nat,
                    |k: int| failed_for(j.equations[j.next + k], "output_limit_exceeded"@, false),
                )[i - j.next]);
            }
        }
    }
}

/// An outcome reports the span and layout of its equation.
pub open spec fn outcome_spans(o: OutcomeView, seg: SegmentView) -> bool {
    match o {
        OutcomeView::Rendered { start, end, display, .. } => start == seg.start && end == seg.end && display == (
        seg.kind == SegmentKind::DisplayMath),
        OutcomeView::Failed { start, end, display, .. } => start == seg.start && end == seg.end && display == (
        seg.kind == SegmentKind::DisplayMath),
    }
}

/// Recording keeps every outcome on its own equation.
pub proof fn law_record_reports_its_equation(
    j: JobView,
    result: Result<RenderedEquationView, (RenderErrorCode, bool)>,
)
    requires
        job_inv(j),
        !j.stopped,
        j.next < j.equations.len(),
    ensures
        outcome_spans(record_model(j, result).outcomes[j.next], j.equations[j.next]),
        record_model(j, result).outcomes.len() == j.next + 1,
        forall|i: int| 0 <= i < j.next ==> #[trigger] record_model(j, result).outcomes[i] == j.outcomes[i],
{
}

/// A serialized response as one line: the JSON and a newline, when the JSON fits
/// the response line limit; `None` when it does not and a limit error must be sent
/// in its place.
pub fn frame_response(json: Vec<u8>) -> (r: Option<Vec<u8>>)
    ensures
        json@.len() <= MAX_DAEMON_RESPONSE_LINE_BYTES ==> (r matches Some(line) && line@ == json@.push(10u8)),
        json@.len() > MAX_DAEMON_RESPONSE_LINE_BYTES ==> r is None,
{
    if json.len() > MAX_DAEMON_RESPONSE_LINE_BYTES {
        return None;
    }
    let mut line = json;
    line.push(10u8);
    Some(line)
}

/// The line of a serialized limit error response; an internal failure when even
/// that does not fit the response line limit.
pub fn frame_limit_response(json: Vec<u8>) -> (r: Result<Vec<u8>, CliError>)
    ensures
        json@.len() <= MAX_DAEMON_RESPONSE_LINE_BYTES ==> (r matches Ok(line) && line@ == json@.push(10u8)),
        json@.len() > MAX_DAEMON_RESPONSE_LINE_BYTES ==> (r matches Err(e) && e.spec_kind() == CliErrorKind::Internal
            && e.spec_message() == crate::error::sanitized("Daemon limit response exceeded its byte limit"@)),
{
    match frame_response(json) {
        Some(line) => Ok(line),
        None => Err(CliError::new(CliErrorKind::Internal, "Daemon limit response exceeded its byte limit")),
    }
}

proof fn lemma_math_only_not_dollar(s: Seq<SegmentView>)
    requires
        none_dollar_math(s),
    ensures
        none_dollar_math(math_only(s)),
    decreases s.len(),
{
    if s.len() > 0 {
        assert(none_dollar_math(s.drop_last())) by {
            assert forall|i: int| 0 <= i < s.drop_last().len() implies not_dollar_math(#[trigger] s.drop_last()[i]) by {
                assert(s.drop_last()[i] == s[i]);
            }
        }
        lemma_math_only_not_dollar(s.drop_last());
        assert(not_dollar_math(s[s.len() - 1]));
        let r = math_only(s);
        assert forall|i: int| 0 <= i < r.len() implies not_dollar_math(#[trigger] r[i]) by {
            if i < math_only(s.drop_last()).len() {
                assert(r[i] == math_only(s.drop_last())[i]);
            }
        }
    }
}

/// A message whose inline dollars are off has no equation opened by a dollar: every
/// inline equation of it begins with `\(`, so `$x$` stays text.
pub proof fn law_dollars_off_leave_dollars_as_text(source: Seq<char>)
    ensures
        none_dollar_math(message_equations(source, InlineDollarsV1::Off)),
{
    let config = SegmenterConfig { inline_dollars: InlineDollarMode::Off };
    assert(dollar_config(InlineDollarsV1::Off) == config);
    law_dollars_off_open_no_inline_math(config, seq![source]);
    lemma_math_only_not_dollar(stream_segments(config, seq![source]));
}

/// Whether a message's inline dollar setting lets a single dollar open an equation
/// before this character: never when off, before anything but whitespace when always,
/// and before anything but whitespace and ASCII digits when smart.
pub open spec fn message_dollar_opens(mode: InlineDollarsV1, next: char) -> bool {
    match mode {
        InlineDollarsV1::Off => false,
        InlineDollarsV1::Smart => !spec_is_whitespace(next) && !spec_is_ascii_digit(next),
        InlineDollarsV1::Always => !spec_is_whitespace(next),
    }
}

/// A message `$body$` is one inline equation, the body, whenever its inline dollar
/// setting lets a dollar open before the body's first character and the body holds no
/// dollar and ends in a character that is neither whitespace nor escaped.
pub proof fn law_dollar_settings_open_inline_equations(body: Seq<char>, mode: InlineDollarsV1)
    requires
        single_dollar_body(body),
        message_dollar_opens(mode, body[0]),
    ensures
        message_equations(dollar_enclosed(body), mode) == seq![
            SegmentView {
                kind: SegmentKind::InlineMath,
                source: dollar_enclosed(body),
                content: body,
                start: 0,
                end: utf8_len(dollar_enclosed(body)) as int,
            },
        ],
{
    let config = dollar_config(mode);
    law_single_dollars_enclose_inline_math(config, body);
    let segs = stream_segments(config, seq![dollar_enclosed(body)]);
    assert(segs.drop_last() =~= Seq::<SegmentView>::empty());
    assert(math_only(segs.drop_last()) == segs.drop_last());
    assert(is_math(segs.last()));
    assert(math_only(segs) =~= segs);
}

proof fn lemma_math_only_text(s: Seq<SegmentView>)
    requires
        all_text(s),
    ensures
        math_only(s) == Seq::<SegmentView>::empty(),
    decreases s.len(),
{
    if s.len() > 0 {
        assert(all_text(s.drop_last())) by {
            assert forall|i: int| 0 <= i < s.drop_last().len() implies (#[trigger] s.drop_last()[i]).kind
                == SegmentKind::Text by {
                assert(s.drop_last()[i] == s[i]);
            }
        }
        lemma_math_only_text(s.drop_last());
        assert(s[s.len() - 1].kind == SegmentKind::Text);
    }
}

/// A message `$body$` has no equation when its inline dollar setting does not let a
/// dollar open before the body's first character (never when off; before whitespace
/// or, when smart, before an ASCII digit, as in an amount) and the body holds only
/// characters that open nothing.
pub proof fn law_dollar_settings_leave_other_dollars_as_text(body: Seq<char>, mode: InlineDollarsV1)
    requires
        body.len() > 0,
        !message_dollar_opens(mode, body[0]),
        forall|i: int| 0 <= i < body.len() ==> plain_char(#[trigger] body[i]),
    ensures
        message_equations(dollar_enclosed(body), mode) == Seq::<SegmentView>::empty(),
{
    let config = dollar_config(mode);
    law_dollars_that_cannot_open_stay_text(config, body);
    lemma_math_only_text(stream_segments(config, seq![dollar_enclosed(body)]));
}

} // verus!
