use latex_render::error::RenderErrorCode;
use latex_render::svg_sanitizer::{
    check_svg_input, finish_output, sanitize_element, sanitize_events, SvgSanitizerLimits, XmlAttribute,
    XmlEvent, XmlTag, XmlWrite,
};
use latex_render::svg_style::valid_root_style;
use latex_render::svg_values::{parse_length, parse_number, valid_hex_color, valid_paint, valid_path, valid_transform, valid_view_box};

fn attr(key: &str, value: &str) -> XmlAttribute {
    XmlAttribute::Parsed { key: key.to_string(), value: Some(value.to_string()) }
}

fn tag(name: &str, attributes: Vec<XmlAttribute>) -> XmlTag {
    XmlTag { name: name.to_string(), attributes }
}

fn root() -> XmlTag {
    tag(
        "svg",
        vec![
            attr("xmlns", "http://www.w3.org/2000/svg"),
            attr("width", "1.5ex"),
            attr("height", "2ex"),
            attr("viewBox", "0 -750 1000 1000"),
            attr("role", "img"),
            attr("focusable", "false"),
            attr("style", "vertical-align: -0.25ex; color: #e6edf3"),
            attr("data-latex", "x^2"),
        ],
    )
}

fn message(result: Result<Vec<XmlWrite>, latex_render::error::RenderError>) -> String {
    let error = result.err().expect("should fail");
    assert_eq!(error.code, RenderErrorCode::UnsafeOutput);
    error.message
}

#[test]
fn allowed_document_keeps_geometry_and_drops_metadata() {
    let events = vec![
        XmlEvent::Start(root()),
        XmlEvent::Text(b"\n  ".to_vec()),
        XmlEvent::Start(tag("g", vec![attr("fill", "currentColor"), attr("transform", "scale(1,-1)"), attr("data-mml-node", "math")])),
        XmlEvent::Empty(tag("path", vec![attr("d", "M 10 10 L 20 20 Z"), attr("stroke-width", "0")])),
        XmlEvent::Empty(tag("rect", vec![attr("width", "10"), attr("height", "2"), attr("x", "0"), attr("y", "-1")])),
        XmlEvent::End("g".to_string()),
        XmlEvent::End("svg".to_string()),
        XmlEvent::Eof,
    ];
    let writes = sanitize_events(&events, SvgSanitizerLimits::default()).expect("document should pass");
    assert_eq!(writes.len(), 6);
    match &writes[0] {
        XmlWrite::Start(name, attributes) => {
            assert_eq!(name, "svg");
            assert_eq!(attributes.len(), 7);
            assert!(attributes.iter().all(|(key, _)| key != "data-latex"));
        }
        _ => panic!("root should start"),
    }
    match &writes[1] {
        XmlWrite::Start(name, attributes) => {
            assert_eq!(name, "g");
            assert_eq!(attributes.len(), 2);
        }
        _ => panic!("group should start"),
    }
}

#[test]
fn active_content_and_structure_fail_closed() {
    let limits = SvgSanitizerLimits::default();
    let script = vec![XmlEvent::Start(root()), XmlEvent::Start(tag("script", vec![])), XmlEvent::Eof];
    assert_eq!(message(sanitize_events(&script, limits)), "SVG contains a disallowed element");

    let handler = vec![
        XmlEvent::Start(root()),
        XmlEvent::Empty(tag("path", vec![attr("d", ""), attr("onclick", "x")])),
        XmlEvent::End("svg".to_string()),
        XmlEvent::Eof,
    ];
    assert_eq!(message(sanitize_events(&handler, limits)), "SVG contains a disallowed attribute or value");

    let comment = vec![XmlEvent::Start(root()), XmlEvent::Other, XmlEvent::Eof];
    assert_eq!(message(sanitize_events(&comment, limits)), "SVG contains a disallowed XML event");

    let text = vec![XmlEvent::Start(root()), XmlEvent::Text(b"x".to_vec()), XmlEvent::Eof];
    assert_eq!(message(sanitize_events(&text, limits)), "SVG contains a disallowed XML event");

    let broken = vec![XmlEvent::Start(root()), XmlEvent::Malformed];
    assert_eq!(message(sanitize_events(&broken, limits)), "SVG input is not well formed XML");

    let open = vec![XmlEvent::Start(root()), XmlEvent::Eof];
    assert_eq!(message(sanitize_events(&open, limits)), "SVG must contain one complete root element");

    let unmatched = vec![XmlEvent::End("svg".to_string()), XmlEvent::Eof];
    assert_eq!(message(sanitize_events(&unmatched, limits)), "SVG contains an unmatched closing element");

    let two_roots = vec![
        XmlEvent::Start(root()),
        XmlEvent::End("svg".to_string()),
        XmlEvent::Start(root()),
        XmlEvent::Eof,
    ];
    assert_eq!(message(sanitize_events(&two_roots, limits)), "SVG contains content after its root element");

    let empty_root = vec![XmlEvent::Empty(root()), XmlEvent::Eof];
    assert_eq!(message(sanitize_events(&empty_root, limits)), "SVG root element must not be empty");

    let group_root = vec![XmlEvent::Start(tag("g", vec![])), XmlEvent::End("g".to_string()), XmlEvent::Eof];
    assert_eq!(message(sanitize_events(&group_root, limits)), "SVG contains a disallowed element");
}

#[test]
fn attribute_rules_are_enforced() {
    let duplicate = tag("path", vec![attr("d", ""), attr("d", "")]);
    let error = sanitize_element(&duplicate, false, 32).err().expect("duplicate");
    assert_eq!(error.message, "SVG contains a duplicate attribute");

    let missing = tag("rect", vec![attr("width", "1"), attr("height", "1"), attr("x", "0")]);
    let error = sanitize_element(&missing, false, 32).err().expect("missing");
    assert_eq!(error.message, "SVG element is missing a required attribute");

    let malformed = tag("path", vec![XmlAttribute::Malformed]);
    let error = sanitize_element(&malformed, false, 32).err().expect("malformed");
    assert_eq!(error.message, "SVG contains a malformed attribute");

    let unnormalized = tag("path", vec![XmlAttribute::Parsed { key: "d".to_string(), value: None }]);
    let error = sanitize_element(&unnormalized, false, 32).err().expect("value");
    assert_eq!(error.message, "SVG attribute value is malformed");

    let many = tag("path", vec![attr("d", ""), attr("fill", "none")]);
    let error = sanitize_element(&many, false, 1).err().expect("limit");
    assert_eq!(error.message, "SVG element exceeds its attribute limit");

    let negative = tag("rect", vec![attr("width", "-1"), attr("height", "1"), attr("x", "0"), attr("y", "0")]);
    assert!(sanitize_element(&negative, false, 32).is_err());
    let unit = tag("rect", vec![attr("width", "1px"), attr("height", "1"), attr("x", "0"), attr("y", "0")]);
    assert!(sanitize_element(&unit, false, 32).is_err());
}

#[test]
fn event_structure_limits_apply() {
    let deep = SvgSanitizerLimits { max_depth: 1, ..SvgSanitizerLimits::default() };
    let events = vec![
        XmlEvent::Start(root()),
        XmlEvent::Start(tag("g", vec![])),
        XmlEvent::End("g".to_string()),
        XmlEvent::End("svg".to_string()),
        XmlEvent::Eof,
    ];
    assert_eq!(message(sanitize_events(&events, deep)), "SVG exceeds its nesting depth limit");
    let few = SvgSanitizerLimits { max_elements: 1, ..SvgSanitizerLimits::default() };
    assert_eq!(message(sanitize_events(&events, few)), "SVG exceeds its element limit");
    let error = finish_output(vec![b'x'; 11], SvgSanitizerLimits { max_bytes: 10, ..SvgSanitizerLimits::default() })
        .err()
        .expect("too long");
    assert_eq!(error.message, "Sanitized SVG exceeds its byte limit");
    assert_eq!(finish_output(b"<svg/>".to_vec(), SvgSanitizerLimits::default()).expect("fits").as_bytes(), b"<svg/>");
}

#[test]
fn input_checks_name_their_failure() {
    let limits = SvgSanitizerLimits::default();
    let error = check_svg_input(b"", limits).expect_err("empty");
    assert_eq!(error.code, RenderErrorCode::UnsafeOutput);
    let error = check_svg_input(&[0xff, 0xfe], limits).expect_err("utf8");
    assert_eq!(error.message, "SVG input must contain valid UTF 8");
    let error = check_svg_input(b"<svg>\x07</svg>", limits).expect_err("control");
    assert_eq!(error.message, "SVG input contains an unsupported control character");
    let error = check_svg_input(b"<svg/>", SvgSanitizerLimits { max_bytes: 3, ..limits }).expect_err("size");
    assert_eq!(error.message, "SVG input is empty or exceeds its byte limit");
    assert_eq!(check_svg_input(b"<svg>\n\t</svg>", limits).expect("text"), "<svg>\n\t</svg>");
}

#[test]
fn every_invalid_limit_is_rejected() {
    for limits in [
        SvgSanitizerLimits { max_bytes: 0, ..SvgSanitizerLimits::default() },
        SvgSanitizerLimits { max_bytes: 2097153, ..SvgSanitizerLimits::default() },
        SvgSanitizerLimits { max_elements: 0, ..SvgSanitizerLimits::default() },
        SvgSanitizerLimits { max_depth: 0, ..SvgSanitizerLimits::default() },
        SvgSanitizerLimits { max_attributes_per_element: 0, ..SvgSanitizerLimits::default() },
    ] {
        let error = check_svg_input(b"<svg/>", limits).expect_err("limits should fail");
        assert_eq!(error.code, RenderErrorCode::InvalidRequest);
    }
}

#[test]
fn value_grammars_follow_their_parsers() {
    assert!(valid_hex_color("#a0B1c2"));
    assert!(!valid_hex_color("#a0B1cg"));
    assert!(!valid_hex_color("a0B1c2f"));
    assert!(valid_paint("currentColor") && valid_paint("none") && !valid_paint("red"));
    assert_eq!(parse_number("1.5").map(f64::from_bits), Some(1.5));
    assert_eq!(parse_number("-0").map(f64::from_bits), Some(-0.0));
    assert_eq!(parse_number("inf"), None);
    assert_eq!(parse_number("NaN"), None);
    assert_eq!(parse_number(" 1"), None);
    assert_eq!(parse_number(""), None);
    assert_eq!(parse_length("2.5em", true).map(f64::from_bits), Some(2.5));
    assert_eq!(parse_length("2.5em", false), None);
    assert!(valid_transform("translate(1,2) scale(2)"));
    assert!(!valid_transform(""));
    assert!(!valid_transform("scale("));
    assert!(!valid_transform(&"scale(1) ".repeat(65)));
    assert!(valid_path(""));
    assert!(valid_path("M0 0L1 1"));
    assert!(!valid_path("L1 1"));
    assert!(valid_view_box("0 0 10 10"));
    assert!(!valid_view_box("0 0 10"));
    assert!(valid_root_style("color:#000000"));
    assert!(valid_root_style(" vertical-align : -1ex ; ; background-color:#ffffff;"));
    assert!(!valid_root_style(""));
    assert!(!valid_root_style("color:#000000;color:#111111"));
    assert!(!valid_root_style("position:absolute"));
    assert!(!valid_root_style("color"));
}

#[test]
fn root_must_be_closed_by_its_own_name() {
    let events = vec![
        XmlEvent::Start(root()),
        XmlEvent::End("g".to_string()),
        XmlEvent::Eof,
    ];
    assert_eq!(message(sanitize_events(&events, SvgSanitizerLimits::default())), "SVG input is not well formed XML");
    let closed = vec![XmlEvent::Start(root()), XmlEvent::End("svg".to_string()), XmlEvent::Eof];
    let writes = sanitize_events(&closed, SvgSanitizerLimits::default()).expect("root closed by its name");
    assert!(matches!(writes.last(), Some(XmlWrite::End(name)) if name == "svg"));
}
