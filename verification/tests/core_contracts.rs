use latex_render::color::Rgba;
use latex_render::error::{RenderError, RenderErrorCode};
use latex_render::limits::{MAX_SCALE, MIN_SCALE, RenderLimits};
use latex_render::request::RenderRequest;
use latex_render::result::RenderedMath;

fn request(source: &str) -> RenderRequest {
    RenderRequest {
        source: source.to_owned(),
        display_mode: true,
        foreground: Rgba::opaque(230, 237, 243),
        background: None,
        scale: 2.0f32.to_bits(),
        max_width_px: 1200,
    }
}

fn result(key: &str) -> RenderedMath {
    RenderedMath {
        svg: b"<svg></svg>".to_vec(),
        width_px: 64,
        height_px: 32,
        baseline_px: Some(24.0f32.to_bits()),
        accessibility_text: "x squared".to_owned(),
        cache_key: key.to_owned(),
    }
}

fn assert_code(result: Result<(), RenderError>, expected: RenderErrorCode) {
    assert_eq!(result.expect_err("validation should fail").code, expected);
}

#[test]
fn default_request_and_result_satisfy_contract() {
    let limits = RenderLimits::default();

    assert_eq!(request("x^2").validate(&limits), Ok(()));
    assert_eq!(result("v1:key").validate(&limits), Ok(()));
}

#[test]
fn request_rejects_empty_oversized_and_control_input() {
    let limits = RenderLimits { max_source_bytes: 4, ..RenderLimits::default() };

    assert_code(request("").validate(&limits), RenderErrorCode::InvalidRequest);
    assert_code(request("ééé").validate(&limits), RenderErrorCode::InputLimitExceeded);
    assert_code(request("x\u{0007}").validate(&limits), RenderErrorCode::InvalidRequest);
}

#[test]
fn request_rejects_invalid_scale_and_width() {
    let limits = RenderLimits::default();
    let mut value = request("x");
    value.scale = f32::NAN.to_bits();
    assert_code(value.validate(&limits), RenderErrorCode::InvalidRequest);

    let mut value = request("x");
    value.max_width_px = 0;
    assert_code(value.validate(&limits), RenderErrorCode::InvalidRequest);
}

#[test]
fn result_rejects_invalid_dimensions_baseline_and_accessibility_text() {
    let limits = RenderLimits::default();
    let mut value = result("v1:key");
    value.height_px = 0;
    assert_code(value.validate(&limits), RenderErrorCode::RenderFailed);

    let mut value = result("v1:key");
    value.baseline_px = Some(f32::INFINITY.to_bits());
    assert_code(value.validate(&limits), RenderErrorCode::RenderFailed);

    let mut value = result("v1:key");
    value.accessibility_text = "unsafe\u{001b}".to_owned();
    assert_code(value.validate(&limits), RenderErrorCode::UnsafeOutput);
}

#[test]
fn public_errors_replace_unsafe_control_characters() {
    let error = RenderError::new(RenderErrorCode::Protocol, "bad\u{001b}message\nnext", false);

    assert_eq!(error.message, "bad\u{fffd}message\u{fffd}next");
    assert!(!error.message.contains('\u{001b}'));
}

#[test]
fn result_rejects_non_utf8_svg_bytes() {
    let mut value = result("v1:key");
    value.svg = vec![0xff, 0xfe];

    assert_code(value.validate(&RenderLimits::default()), RenderErrorCode::UnsafeOutput);
}

#[test]
fn colors_only_format_when_fully_opaque() {
    assert_eq!(Rgba::opaque(10, 11, 12).to_rgb_hex().as_deref(), Some("#0a0b0c"));
    assert_eq!(Rgba::new(10, 11, 12, 127).to_rgb_hex(), None);
    assert!(Rgba::new(10, 11, 12, 0).is_transparent());
}

#[test]
fn scale_bounds_are_the_patterns_of_one_half_and_four() {
    assert_eq!(MIN_SCALE, 0.5f32.to_bits());
    assert_eq!(MAX_SCALE, 4.0f32.to_bits());
}

#[test]
fn scale_checks_follow_single_precision_order() {
    let limits = RenderLimits::default();
    for (scale, ok) in [
        (0.5f32, true),
        (4.0, true),
        (1.5, true),
        (0.49999997, false),
        (4.0000005, false),
        (-2.0, false),
        (0.0, false),
        (-0.0, false),
        (f32::INFINITY, false),
        (f32::NEG_INFINITY, false),
    ] {
        let mut value = request("x");
        value.scale = scale.to_bits();
        assert_eq!(value.validate(&limits).is_ok(), ok, "scale {scale}");
    }
}

#[test]
fn error_messages_report_the_configured_limits() {
    let limits = RenderLimits { max_source_bytes: 4, max_width_px: 100, ..RenderLimits::default() };
    let error = request("xxxxx").validate(&limits).unwrap_err();
    assert_eq!(error.message, "Source exceeds 4 UTF 8 bytes");
    let mut value = request("x");
    value.max_width_px = 101;
    assert_eq!(value.validate(&limits).unwrap_err().message, "Maximum width must be between 1 and 100 pixels");
    let mut big = result("v1:key");
    big.svg = vec![b'a'; 12];
    let limits = RenderLimits { max_svg_bytes: 10, ..RenderLimits::default() };
    let error = big.validate(&limits).unwrap_err();
    assert_eq!(error.code, RenderErrorCode::OutputLimitExceeded);
    assert_eq!(error.message, "SVG exceeds 10 UTF 8 bytes");
}

#[test]
fn baseline_is_checked_against_the_height_in_single_precision() {
    let limits = RenderLimits { max_height_px: u32::MAX, ..RenderLimits::default() };
    let mut value = result("v1:key");
    value.height_px = 32;
    value.baseline_px = Some(32.0f32.to_bits());
    assert!(value.validate(&limits).is_ok());
    value.baseline_px = Some(32.5f32.to_bits());
    assert!(value.validate(&limits).is_err());
    value.baseline_px = Some((-1.0f32).to_bits());
    assert!(value.validate(&limits).is_err());
    // 16777217 rounds to 16777216 in single precision.
    value.height_px = 16_777_217;
    value.baseline_px = Some(16_777_216.0f32.to_bits());
    assert!(value.validate(&limits).is_ok());
    value.baseline_px = Some(16_777_218.0f32.to_bits());
    assert!(value.validate(&limits).is_err());
}

#[test]
fn error_position_is_attached() {
    let error = RenderError::new(RenderErrorCode::InvalidTex, "bad", false).with_position(7);
    assert_eq!(error.position, Some(7));
    assert_eq!(error.message, "bad");
}

#[test]
fn estimated_size_counts_svg_text_and_key() {
    let value = result("v1:key");
    assert_eq!(value.estimated_size_bytes(), 11 + 9 + 6);
}
