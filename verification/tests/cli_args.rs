use latex_render::cli_args::{parse_args, CliArg, CliCommand, OutputFormat, ParsedArgs};
use latex_render::cli_error::CliErrorKind;
use latex_render::color::Rgba;

fn arg(text: &str) -> CliArg {
    CliArg {
        text: Some(text.to_string()),
        raw: text.as_bytes().to_vec(),
        f32_bits: text.parse::<f32>().ok().map(f32::to_bits),
    }
}

fn values(input: &[&str]) -> Vec<CliArg> {
    input.iter().map(|text| arg(text)).collect()
}

fn bytes(text: &str) -> Vec<u8> {
    text.as_bytes().to_vec()
}

#[test]
fn root_help_and_version_are_successful_text() {
    let help = parse_args(values(&[])).expect("empty arguments should show help");
    let version = parse_args(values(&["--version"])).expect("version should parse");

    assert!(matches!(help, ParsedArgs::Text(text) if text.contains("Usage:")));
    assert!(matches!(version, ParsedArgs::Text(text) if text == "latex-render 0.1.0\n"));
}

#[test]
fn render_defaults_are_deterministic() {
    let parsed = parse_args(values(&["render", "x^2"])).expect("render should parse");
    let ParsedArgs::Command(CliCommand::Render(options)) = parsed else {
        panic!("render command should be returned");
    };

    assert_eq!(options.source.as_deref(), Some("x^2"));
    assert!(!options.display_mode);
    assert_eq!(options.format, OutputFormat::Svg);
    assert_eq!(options.output, None);
    assert!(!options.force);
    assert_eq!(options.foreground, Rgba::opaque(230, 237, 243));
    assert_eq!(options.background, None);
    assert_eq!(f32::from_bits(options.scale), 2.0);
    assert_eq!(options.max_width_px, 1200);
    assert_eq!(options.worker.worker, None);
    assert_eq!(options.worker.node, bytes("node"));
}

#[test]
fn render_accepts_every_declared_option() {
    let parsed = parse_args(values(&[
        "render",
        "--display",
        "--format",
        "png",
        "--output",
        "equation.png",
        "--force",
        "--foreground",
        "#A0b1C2",
        "--background",
        "#010203",
        "--scale",
        "1.5",
        "--max-width",
        "800",
        "--worker",
        "worker.js",
        "--node",
        "nodejs",
        "x+y",
    ]))
    .expect("all render options should parse");
    let ParsedArgs::Command(CliCommand::Render(options)) = parsed else {
        panic!("render command should be returned");
    };

    assert!(options.display_mode);
    assert_eq!(options.format, OutputFormat::Png);
    assert_eq!(options.output, Some(bytes("equation.png")));
    assert!(options.force);
    assert_eq!(options.foreground, Rgba::opaque(160, 177, 194));
    assert_eq!(options.background, Some(Rgba::opaque(1, 2, 3)));
    assert_eq!(f32::from_bits(options.scale), 1.5);
    assert_eq!(options.max_width_px, 800);
    assert_eq!(options.worker.worker, Some(bytes("worker.js")));
    assert_eq!(options.worker.node, bytes("nodejs"));
}

#[test]
fn missing_source_is_reserved_for_redirected_stdin() {
    let parsed = parse_args(values(&["render"])).expect("stdin render should parse");
    let ParsedArgs::Command(CliCommand::Render(options)) = parsed else {
        panic!("render command should be returned");
    };
    assert_eq!(options.source, None);
}

#[test]
fn double_dash_allows_source_that_starts_with_a_hyphen() {
    let parsed = parse_args(values(&["render", "--", "-x"])).expect("source should parse");
    let ParsedArgs::Command(CliCommand::Render(options)) = parsed else {
        panic!("render command should be returned");
    };
    assert_eq!(options.source.as_deref(), Some("-x"));
}

#[test]
fn check_accepts_only_worker_selection() {
    let parsed = parse_args(values(&[
        "check",
        "--worker",
        "worker.js",
        "--node",
        "nodejs",
    ]))
    .expect("check should parse");
    let ParsedArgs::Command(CliCommand::Check(options)) = parsed else {
        panic!("check command should be returned");
    };
    assert_eq!(options.worker, Some(bytes("worker.js")));
    assert_eq!(options.node, bytes("nodejs"));
}

#[test]
fn malformed_null_and_duplicate_values_are_usage_errors() {
    let cases = [
        values(&["unknown"]),
        values(&["render", "x", "y"]),
        values(&["render", "--format"]),
        values(&["render", "--format", "pdf"]),
        values(&["render", "--foreground", "red"]),
        values(&["render", "--background", "#fffffg"]),
        values(&["render", "--scale", "NaN"]),
        values(&["render", "--scale", "5"]),
        values(&["render", "--max-width", "0"]),
        values(&["render", "--force", "x"]),
        values(&["render", "--display", "--display", "x"]),
        values(&["check", "source"]),
        values(&["check", "--worker", "a", "--worker", "b"]),
        values(&["--version", "extra"]),
    ];

    for arguments in cases {
        let error = parse_args(arguments).expect_err("arguments should fail");
        assert_eq!(error.kind(), CliErrorKind::Usage);
        assert!(!error.message().contains("x^2"));
    }
}

#[test]
fn non_utf8_source_is_a_usage_error() {
    let error = parse_args(vec![
        arg("render"),
        CliArg { text: None, raw: vec![0xff], f32_bits: None },
    ])
    .expect_err("non UTF 8 source should fail");

    assert_eq!(error.kind(), CliErrorKind::Usage);
}

#[test]
fn usage_messages_name_the_failed_rule() {
    let message = |input: &[&str]| parse_args(values(input)).expect_err("should fail").message().to_string();
    assert_eq!(message(&["unknown"]), "Expected the render, check, or doctor command");
    assert_eq!(message(&["render", "x", "y"]), "Render accepts at most one source argument");
    assert_eq!(message(&["render", "--format"]), "Option --format requires a value");
    assert_eq!(message(&["render", "--format", "pdf"]), "Format must be svg or png");
    assert_eq!(message(&["render", "--foreground", "red"]), "Color must use the form #RRGGBB");
    assert_eq!(message(&["render", "--scale", "NaN"]), "Scale must be between 0.5 and 4");
    assert_eq!(message(&["render", "--scale", "4.5"]), "Scale must be between 0.5 and 4");
    assert_eq!(message(&["render", "--max-width", "4097"]), "Maximum width must be between 1 and 4096");
    assert_eq!(message(&["render", "--max-width", "+12x"]), "Maximum width must be between 1 and 4096");
    assert_eq!(message(&["render", "--force", "x"]), "The force option requires a file output path");
    assert_eq!(message(&["render", "--display", "--display"]), "Option display may be supplied only once");
    assert_eq!(message(&["render", "--output", ""]), "Option --output requires a nonempty value");
    assert_eq!(message(&["render", "--bogus"]), "Unknown render option --bogus");
    assert_eq!(message(&["doctor", "--bogus"]), "Unknown doctor option --bogus");
    assert_eq!(message(&["check", "--node", "a", "--node", "b"]), "Option node may be supplied only once");
    assert_eq!(message(&["--version", "extra"]), "Expected the render, check, or doctor command");
}

#[test]
fn option_values_follow_their_readers() {
    let parsed = parse_args(values(&["render", "--output", "-", "--max-width", "+4096", "--background", "transparent", "--scale", "0.5", "--", "--display"]))
        .expect("should parse");
    let ParsedArgs::Command(CliCommand::Render(options)) = parsed else {
        panic!("render command should be returned");
    };
    assert_eq!(options.output, None);
    assert_eq!(options.max_width_px, 4096);
    assert_eq!(options.background, None);
    assert_eq!(f32::from_bits(options.scale), 0.5);
    assert_eq!(options.source.as_deref(), Some("--display"));
    assert!(!options.display_mode);

    let help = parse_args(values(&["render", "x", "--help"])).expect("help");
    assert!(matches!(help, ParsedArgs::Text(text) if text.starts_with("Render one TeX")));
    let help = parse_args(values(&["doctor", "-h"])).expect("help");
    assert!(matches!(help, ParsedArgs::Text(text) if text.starts_with("Diagnose")));
    let parsed = parse_args(values(&["render", "--foreground", "#+f+0+a"])).expect("signed channels");
    let ParsedArgs::Command(CliCommand::Render(options)) = parsed else {
        panic!("render command should be returned");
    };
    assert_eq!(options.foreground, Rgba::opaque(15, 0, 10));
}
