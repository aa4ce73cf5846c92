use latex_render::error::RenderErrorCode;
use latex_render::svg_document::sanitize_svg;
use latex_render::svg_sanitizer::SvgSanitizerLimits;

fn assert_unsafe(input: &[u8]) {
    let error = sanitize_svg(input, SvgSanitizerLimits::default()).expect_err("SVG should be rejected");
    assert_eq!(error.code, RenderErrorCode::UnsafeOutput);
}

fn root(content: &str) -> String {
    format!(
        r##"<svg xmlns="http://www.w3.org/2000/svg" width="10px" height="10px" role="img" focusable="false" viewBox="0 0 10 10" style="color: #ffffff;">{content}</svg>"##
    )
}

fn document_with_style(style: &str) -> String {
    format!(
        r#"<svg xmlns="http://www.w3.org/2000/svg" width="10px" height="10px" role="img" focusable="false" viewBox="0 0 10 10" style="{style}"><path d="M0 0"/></svg>"#
    )
}

fn document_with_path(path: &str) -> String {
    root(&format!(r#"<path d="{path}"/>"#))
}

#[test]
fn active_elements_and_attributes_fail_closed() {
    let cases = [
        root("<script></script>"),
        root("<foreignObject></foreignObject>"),
        root(r#"<image href="file:///etc/passwd"/>"#),
        root(r##"<use href="#glyph"/>"##),
        root(r#"<path d="M0 0" onclick="alert(1)"/>"#),
        root(r#"<path d="M0 0" style="fill:url(https://example.com/x)"/>"#),
        root(r#"<path d="M0 0" data-unknown="value"/>"#),
    ];

    for value in cases {
        assert_unsafe(value.as_bytes());
    }
}

#[test]
fn declarations_entities_and_non_whitespace_text_are_rejected() {
    assert_unsafe(br#"<!DOCTYPE svg [<!ENTITY xxe SYSTEM "file:///etc/passwd">]><svg></svg>"#);
    assert_unsafe(root("secret text").as_bytes());
    assert_unsafe(root("<![CDATA[value]]>").as_bytes());
    assert_unsafe(root("<?worker value?>").as_bytes());
}

#[test]
fn empty_malformed_oversized_and_control_input_are_rejected() {
    assert_unsafe(b"");
    assert_unsafe(b"<svg>");
    assert_unsafe(b"\xff\xfe");
    assert_unsafe(root("\u{001b}").as_bytes());

    let limits = SvgSanitizerLimits { max_bytes: 8, ..SvgSanitizerLimits::default() };
    let error = sanitize_svg(root("").as_bytes(), limits).expect_err("oversized input should fail");
    assert_eq!(error.code, RenderErrorCode::UnsafeOutput);
}

#[test]
fn structural_limits_are_enforced() {
    let depth = SvgSanitizerLimits { max_depth: 2, ..SvgSanitizerLimits::default() };
    let error = sanitize_svg(root("<g><g></g></g>").as_bytes(), depth).expect_err("deep SVG should fail");
    assert_eq!(error.code, RenderErrorCode::UnsafeOutput);

    let elements = SvgSanitizerLimits { max_elements: 2, ..SvgSanitizerLimits::default() };
    let error = sanitize_svg(root("<g/><g/>").as_bytes(), elements).expect_err("element count should fail");
    assert_eq!(error.code, RenderErrorCode::UnsafeOutput);

    let attributes = SvgSanitizerLimits { max_attributes_per_element: 6, ..SvgSanitizerLimits::default() };
    let error = sanitize_svg(root("").as_bytes(), attributes).expect_err("attribute count should fail");
    assert_eq!(error.code, RenderErrorCode::UnsafeOutput);
}

#[test]
fn malformed_geometry_and_css_values_are_rejected() {
    let cases = [
        document_with_style("color: url(https://example.com/x)"),
        document_with_style("unknown: #ffffff"),
        document_with_path("M not-a-path"),
        root(r#"<g transform="url(file:///tmp/x)"></g>"#),
        root(r#"<rect width="-1" height="2" x="0" y="0"/>"#),
    ];

    for value in cases {
        assert_unsafe(value.as_bytes());
    }
}

#[test]
fn missing_required_geometry_attributes_are_rejected() {
    assert_unsafe(br#"<svg xmlns="http://www.w3.org/2000/svg"></svg>"#);
    assert_unsafe(root("<path/>").as_bytes());
    assert_unsafe(root(r#"<rect width="1" height="1"/>"#).as_bytes());
}

#[test]
fn invalid_sanitizer_configuration_is_rejected() {
    let limits = SvgSanitizerLimits { max_depth: 0, ..SvgSanitizerLimits::default() };
    let error = sanitize_svg(root(r#"<path d="M0 0"/>"#).as_bytes(), limits).expect_err("zero depth should fail");
    assert_eq!(error.code, RenderErrorCode::InvalidRequest);
}

#[test]
fn allowed_document_is_rewritten_without_metadata() {
    let input = r##"<svg xmlns="http://www.w3.org/2000/svg" width="1.5ex" height="2ex" role="img" focusable="false" viewBox="0 -750 1000 1000" style="vertical-align: -0.25ex; color: #e6edf3" data-latex="x^2">
  <g fill="currentColor" transform="scale(1,-1)" data-mml-node="math"><path d="M 10 10 L 20 20 Z"/><rect width="10" height="2" x="0" y="-1"/></g>
</svg>"##;
    let sanitized = sanitize_svg(input.as_bytes(), SvgSanitizerLimits::default()).expect("document should pass");
    let output = sanitized.as_str();
    assert_eq!(
        output,
        r##"<svg xmlns="http://www.w3.org/2000/svg" width="1.5ex" height="2ex" role="img" focusable="false" viewBox="0 -750 1000 1000" style="vertical-align: -0.25ex; color: #e6edf3"><g fill="currentColor" transform="scale(1,-1)"><path d="M 10 10 L 20 20 Z"/><rect width="10" height="2" x="0" y="-1"/></g></svg>"##
    );
    assert!(output.len() < input.len());
}

#[test]
fn mathjax_style_document_is_allowed_and_metadata_is_removed() {
    let input = r##"<svg xmlns="http://www.w3.org/2000/svg" width="9.4ex" height="5.4ex" role="img" focusable="false" viewBox="0 -1342 4160 2384" style="vertical-align: -2.35ex; color: #e6edf3" data-latex="\frac{-b \pm \sqrt{b^2-4ac}}{2a}"><g stroke="currentColor" fill="currentColor" stroke-width="0" transform="scale(1,-1)"><g data-mml-node="math" data-latex="\frac{-b}{2a}"><path data-c="1D44F" d="M73 647Q73 657 77 670T89 683Q90 683 161 688Z"/><rect width="2000" height="60" x="120" y="220"/></g></g></svg>"##;
    let sanitized = sanitize_svg(input.as_bytes(), SvgSanitizerLimits::default()).expect("MathJax style document should pass");
    let output = sanitized.as_str();

    assert!(output.starts_with("<svg "));
    assert!(output.ends_with("</svg>"));
    assert!(!output.contains("data-latex"));
    assert!(!output.contains("data-mml-node"));
    assert!(!output.contains(r"\frac"));
    assert!(output.len() < input.len());
    assert_eq!(sanitized.as_bytes(), output.as_bytes());
}
