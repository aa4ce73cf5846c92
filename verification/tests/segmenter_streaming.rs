use latex_render::segment::{InlineDollarMode, SEGMENTER_VERSION, Segment, SegmentKind, SegmenterConfig, Span};
use latex_render::segmenter::Segmenter;

fn parse(input: &str) -> Vec<Segment> {
    parse_with_config(input, SegmenterConfig::default())
}

fn parse_with_config(input: &str, config: SegmenterConfig) -> Vec<Segment> {
    let mut segmenter = Segmenter::with_config(config);
    let mut output = segmenter.push(input);
    output.extend(segmenter.finish());
    normalize(output)
}

fn parse_chunks(input: &str, boundaries: &[usize]) -> Vec<Segment> {
    let mut segmenter = Segmenter::new();
    let mut output = Vec::new();
    let mut start = 0;
    for &end in boundaries {
        output.extend(segmenter.push(&input[start..end]));
        start = end;
    }
    output.extend(segmenter.push(&input[start..]));
    output.extend(segmenter.finish());
    normalize(output)
}

fn normalize(segments: Vec<Segment>) -> Vec<Segment> {
    let mut normalized: Vec<Segment> = Vec::new();
    for segment in segments {
        let merge = match normalized.last() {
            Some(previous) => {
                previous.kind == SegmentKind::Text
                    && segment.kind == SegmentKind::Text
                    && previous.span.end == segment.span.start
            }
            None => false,
        };
        if merge {
            let previous = normalized.last_mut().unwrap();
            previous.source.push_str(&segment.source);
            previous.content.push_str(&segment.content);
            previous.span.end = segment.span.end;
        } else {
            normalized.push(segment);
        }
    }
    normalized
}

fn assert_lossless(input: &str, segments: &[Segment]) {
    let reconstructed: String = segments.iter().map(|segment| segment.source.as_str()).collect();
    assert_eq!(reconstructed, input);

    let mut expected_start = 0;
    for segment in segments {
        assert_eq!(segment.span.start, expected_start);
        assert_eq!(segment.span.end - segment.span.start, segment.source.len());
        expected_start = segment.span.end;
    }
    assert_eq!(expected_start, input.len());
}

fn kinds(segments: &[Segment]) -> Vec<SegmentKind> {
    segments.iter().map(|segment| segment.kind).collect()
}

#[test]
fn protocol_version_starts_at_one() {
    assert_eq!(SEGMENTER_VERSION, 1);
}

#[test]
fn every_single_split_matches_whole_input() {
    let corpus = [
        "Text \\(x + 1\\) tail",
        "Display \\[α + β\\] tail",
        "Price $19.99 and $x$",
        "```tex\n$$x$$\n``` then \\(y\\)",
        "\\begin{align}x&=1\\end{align}",
        "Escaped \\\\(x\\) and \\(y\\)",
    ];

    for input in corpus {
        let expected = parse(input);
        for boundary in input.char_indices().map(|(index, _)| index).chain(std::iter::once(input.len())) {
            let actual = parse_chunks(input, &[boundary]);
            assert_eq!(actual, expected, "input {input:?}, boundary {boundary}");
            assert_lossless(input, &actual);
        }
    }
}

#[test]
fn delimiter_can_arrive_one_character_at_a_time() {
    let input = "The result is \\(x^2 + 1\\).";
    let boundaries: Vec<usize> = input.char_indices().skip(1).map(|(index, _)| index).collect();

    let actual = parse_chunks(input, &boundaries);
    assert_eq!(actual, parse(input));
    assert_lossless(input, &actual);
}

#[test]
fn stable_prose_is_emitted_while_math_is_pending() {
    let mut segmenter = Segmenter::new();

    let initial = segmenter.push("Before \\(x");
    assert_eq!(initial.len(), 1);
    assert_eq!(initial[0].source, "Before ");
    assert_eq!(segmenter.pending_kind(), Some(SegmentKind::InlineMath));
    assert_eq!(segmenter.pending_source(), Some("\\(x".into()));

    let completed = segmenter.push(" + 1\\) after");
    assert_eq!(completed[0].kind, SegmentKind::InlineMath);
    assert_eq!(completed[0].content, "x + 1");
    assert_eq!(completed[1].source, " after");
    assert_eq!(segmenter.pending_kind(), None);
}

#[test]
fn pending_snapshot_includes_a_split_closing_delimiter() {
    let mut segmenter = Segmenter::new();

    segmenter.push("\\(x\\");

    assert_eq!(segmenter.pending_source(), Some("\\(x\\".into()));
    assert_eq!(segmenter.pending_kind(), Some(SegmentKind::InlineMath));
}

#[test]
fn empty_chunks_and_empty_finalization_are_no_ops() {
    let mut segmenter = Segmenter::new();

    assert!(segmenter.push("").is_empty());
    assert!(segmenter.finish().is_empty());
    assert!(segmenter.finish().is_empty());
}

#[test]
fn incomplete_math_falls_back_to_lossless_text() {
    let input = "Before \\(x + 1";
    let segments = parse(input);

    assert_eq!(segments.len(), 1);
    assert_eq!(segments[0].kind, SegmentKind::Text);
    assert_lossless(input, &segments);
}

#[test]
fn split_environment_name_is_recognized() {
    let input = "\\begin{equation}x=1\\end{equation}";
    let boundaries = [1, 7, 14, 22, 31];
    let segments = parse_chunks(input, &boundaries);

    assert_eq!(segments.len(), 1);
    assert_eq!(segments[0].kind, SegmentKind::DisplayMath);
    assert_eq!(segments[0].content, "x=1");
    assert_lossless(input, &segments);
}

#[test]
fn separates_inline_and_display_math() {
    let input = "Inline \\(x + 1\\), display \\[y^2\\], and $$z^3$$.";
    let segments = parse(input);

    assert_eq!(
        kinds(&segments),
        vec![
            SegmentKind::Text,
            SegmentKind::InlineMath,
            SegmentKind::Text,
            SegmentKind::DisplayMath,
            SegmentKind::Text,
            SegmentKind::DisplayMath,
            SegmentKind::Text,
        ]
    );
    assert_eq!(segments[1].source, "\\(x + 1\\)");
    assert_eq!(segments[1].content, "x + 1");
    assert_eq!(segments[3].content, "y^2");
    assert_eq!(segments[5].content, "z^3");
    assert_lossless(input, &segments);
}

#[test]
fn recognizes_supported_display_environments() {
    let cases = [
        ("equation", "x=1"),
        ("equation*", "x=2"),
        ("align", "x&=3"),
        ("align*", "x&=4"),
        ("gather", "x=5"),
        ("gather*", "x=6"),
        ("multline", "x=7"),
    ];

    for (environment, content) in cases {
        let input = format!("\\begin{{{environment}}}{content}\\end{{{environment}}}");
        let segments = parse(&input);
        assert_eq!(segments.len(), 1, "environment {environment}");
        assert_eq!(segments[0].kind, SegmentKind::DisplayMath);
        assert_eq!(segments[0].content, content);
        assert_lossless(&input, &segments);
    }
}

#[test]
fn smart_dollars_render_math_but_not_prices() {
    let input = "Price $19.99, range $5–$10, and math $x^2$.";
    let segments = parse(input);

    assert_eq!(kinds(&segments), vec![SegmentKind::Text, SegmentKind::InlineMath, SegmentKind::Text]);
    assert_eq!(segments[1].content, "x^2");
    assert_lossless(input, &segments);
}

#[test]
fn single_dollars_can_be_disabled_or_forced() {
    let off = parse_with_config("$x$", SegmenterConfig { inline_dollars: InlineDollarMode::Off });
    assert_eq!(off.len(), 1);
    assert_eq!(off[0].kind, SegmentKind::Text);

    let always = parse_with_config("$5$", SegmenterConfig { inline_dollars: InlineDollarMode::Always });
    assert_eq!(always.len(), 1);
    assert_eq!(always[0].kind, SegmentKind::InlineMath);
    assert_eq!(always[0].content, "5");
}

#[test]
fn escaped_delimiters_remain_text() {
    let input = "Escaped \\\\(x\\) and \\$x$ but real \\(y\\).";
    let segments = parse(input);

    assert_eq!(kinds(&segments), vec![SegmentKind::Text, SegmentKind::InlineMath, SegmentKind::Text]);
    assert_eq!(segments[1].content, "y");
    assert_lossless(input, &segments);
}

#[test]
fn spans_are_utf8_byte_offsets() {
    let input = "π \\(α + β\\)";
    let segments = parse(input);

    assert_eq!(segments[0].span, Span { start: 0, end: 3 });
    assert_eq!(segments[1].span, Span { start: 3, end: input.len() });
    assert_lossless(input, &segments);
}

#[test]
fn inline_code_suppresses_math_detection() {
    let input = "Use `$x$` before \\(y\\).";
    let segments = parse(input);

    assert_eq!(
        kinds(&segments),
        vec![
            SegmentKind::Text,
            SegmentKind::Code,
            SegmentKind::Text,
            SegmentKind::InlineMath,
            SegmentKind::Text,
        ]
    );
    assert_eq!(segments[1].content, "$x$");
    assert_eq!(segments[3].content, "y");
    assert_lossless(input, &segments);
}

#[test]
fn backtick_fence_suppresses_math_detection() {
    let input = "Before\n```tex\n\\[x^2\\]\n```\nAfter \\(y\\).";
    let segments = parse(input);

    assert_eq!(
        kinds(&segments),
        vec![
            SegmentKind::Text,
            SegmentKind::Code,
            SegmentKind::Text,
            SegmentKind::InlineMath,
            SegmentKind::Text,
        ]
    );
    assert!(segments[1].content.contains("\\[x^2\\]"));
    assert_lossless(input, &segments);
}

#[test]
fn tilde_fence_with_indentation_suppresses_math_detection() {
    let input = "   ~~~\n$$x$$\n   ~~~\n";
    let segments = parse(input);

    assert_eq!(kinds(&segments), vec![SegmentKind::Text, SegmentKind::Code, SegmentKind::Text]);
    assert_lossless(input, &segments);
}

#[test]
fn fence_marker_inside_a_code_line_does_not_close_the_fence() {
    let input = "```\nlet marker = ```;\n\\(still_code\\)\n```";
    let segments = parse(input);

    assert_eq!(segments.len(), 1);
    assert_eq!(segments[0].kind, SegmentKind::Code);
    assert!(segments[0].content.contains("\\(still_code\\)"));
    assert_lossless(input, &segments);
}

#[test]
fn incomplete_code_delimiter_falls_back_to_text() {
    for input in ["Before `unfinished", "```\nunfinished"] {
        let segments = parse(input);
        assert_eq!(segments.len(), 1);
        assert_eq!(segments[0].kind, SegmentKind::Text);
        assert_lossless(input, &segments);
    }
}

#[test]
fn arbitrary_chunking_reassembles_the_input() {
    let input = "a $x$ `c` \\[y\\] ~~~\n$$z$$\n~~~ \\begin{gather}w\\end{gather} $5 tail";
    let boundaries: Vec<usize> = input.char_indices().map(|(index, _)| index).filter(|i| i % 3 == 1).collect();
    let mut segmenter = Segmenter::new();
    let mut all = Vec::new();
    let mut start = 0;
    for &end in &boundaries {
        all.extend(segmenter.push(&input[start..end]));
        start = end;
    }
    all.extend(segmenter.push(&input[start..]));
    all.extend(segmenter.finish());
    assert_lossless(input, &all);
    for segment in &all {
        if segment.kind == SegmentKind::Text {
            assert_eq!(segment.content, segment.source);
        }
    }
}
