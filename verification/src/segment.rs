//! Segments produced by the streaming math segmenter and its configuration.

use vstd::prelude::*;

verus! {

/// The segmenter protocol version.
pub const SEGMENTER_VERSION: u32 = 1;

/// Controls whether single dollar delimiters are interpreted as inline math.
#[derive(Clone, Copy, Debug, PartialEq, Eq, Structural)]
pub enum InlineDollarMode {
    /// Treat every single dollar as ordinary text.
    Off,
    /// Apply conservative currency and whitespace checks.
    Smart,
    /// Treat a single dollar followed by non-whitespace as an opener.
    Always,
}

impl Default for InlineDollarMode {
    fn default() -> (r: Self)
        ensures
            r == InlineDollarMode::Smart,
    {
        InlineDollarMode::Smart
    }
}

/// Configuration for a streaming [`crate::segmenter::Segmenter`].
#[derive(Clone, Copy, Debug, PartialEq, Eq, Structural)]
pub struct SegmenterConfig {
    /// Controls recognition of `$...$` inline math.
    pub inline_dollars: InlineDollarMode,
}

impl Default for SegmenterConfig {
    fn default() -> (r: Self)
        ensures
            r.inline_dollars == InlineDollarMode::Smart,
    {
        SegmenterConfig { inline_dollars: InlineDollarMode::Smart }
    }
}

/// The byte range occupied by a segment in the complete input stream.
#[derive(Clone, Copy, Debug, PartialEq, Eq, Structural)]
pub struct Span {
    /// Inclusive byte offset at which the segment begins.
    pub start: usize,
    /// Exclusive byte offset at which the segment ends.
    pub end: usize,
}

impl Span {
    pub(crate) fn new(start: usize, end: usize) -> (r: Self)
        ensures
            r.start == start,
            r.end == end,
    {
        Span { start, end }
    }
}

/// The semantic role of a parsed segment.
#[derive(Clone, Copy, Debug, PartialEq, Eq, Structural)]
pub enum SegmentKind {
    /// Ordinary Markdown source that should use the normal presentation path.
    Text,
    /// Inline mathematical source such as `\(x\)` or `$x$`.
    InlineMath,
    /// Display mathematical source such as `\[x\]` or `$$x$$`.
    DisplayMath,
    /// Markdown code whose contents must never be interpreted as math.
    Code,
}

/// A lossless source segment and its renderable inner content.
#[derive(Clone, Debug, PartialEq, Eq)]
pub struct Segment {
    /// The semantic role of this segment.
    pub kind: SegmentKind,
    /// The exact original characters of the segment.
    pub source: String,
    /// Inner math or code content without delimiters, or the text itself.
    pub content: String,
    /// The segment byte range in the complete input stream.
    pub span: Span,
}

/// Mathematical value of a [`Segment`].
#[verifier::ext_equal]
pub struct SegmentView {
    pub kind: SegmentKind,
    pub source: Seq<char>,
    pub content: Seq<char>,
    pub start: int,
    pub end: int,
}

impl View for Segment {
    type V = SegmentView;

    open spec fn view(&self) -> SegmentView {
        SegmentView {
            kind: self.kind,
            source: self.source@,
            content: self.content@,
            start: self.span.start as int,
            end: self.span.end as int,
        }
    }
}

/// The values of a sequence of segments.
pub open spec fn segments_view(v: Seq<Segment>) -> Seq<SegmentView> {
    Seq::new(v.len(), |i: int| v[i]@)
}

impl Segment {
    pub(crate) fn new(kind: SegmentKind, source: String, content: String, span: Span) -> (r: Self)
        ensures
            r@ == (SegmentView {
                kind,
                source: source@,
                content: content@,
                start: span.start as int,
                end: span.end as int,
            }),
    {
        Segment { kind, source, content, span }
    }

    /// A copy of the segment.
    pub fn clone_segment(&self) -> (r: Self)
        ensures
            r@ == self@,
    {
        Segment { kind: self.kind, source: self.source.clone(), content: self.content.clone(), span: self.span }
    }

    pub(crate) fn text(source: String, span: Span) -> (r: Self)
        ensures
            r@ == (SegmentView {
                kind: SegmentKind::Text,
                source: source@,
                content: source@,
                start: span.start as int,
                end: span.end as int,
            }),
    {
        let content = source.clone();
        Segment::new(SegmentKind::Text, source, content, span)
    }
}

} // verus!
