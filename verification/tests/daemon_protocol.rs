use latex_render::color::Rgba;
use latex_render::daemon_protocol::{
    DecodeErrorV1, InlineDollarsV1, MAX_DAEMON_ACCESSIBILITY_BYTES, MAX_DAEMON_EQUATIONS,
    MAX_DAEMON_MESSAGE_BYTES, MAX_DAEMON_PNG_BYTES, MAX_DAEMON_REQUEST_LINE_BYTES,
    MAX_DAEMON_RESPONSE_LINE_BYTES, MAX_DAEMON_TOTAL_ACCESSIBILITY_BYTES, MAX_DAEMON_TOTAL_PNG_BYTES,
    ValidatedRenderMessageV1, decode_request_v1, error, parse_color,
};

const VALID_REQUEST: &str = r##"{
  "protocol": 1,
  "id": "message-42",
  "method": "render_message",
  "params": {
    "source": "Use \\(x^2\\).",
    "inlineDollars": "smart",
    "foreground": "#e6edf3",
    "background": "transparent",
    "scale": 2,
    "maxWidthPx": 1200
  }
}"##;

#[test]
fn valid_request_decodes_to_render_values() {
    let request = decode_request_v1(VALID_REQUEST.as_bytes()).unwrap();

    assert_eq!(
        request,
        ValidatedRenderMessageV1 {
            id: "message-42".to_owned(),
            source: "Use \\(x^2\\).".to_owned(),
            inline_dollars: InlineDollarsV1::Smart,
            foreground: Rgba::opaque(230, 237, 243),
            background: None,
            scale: 2.0f32.to_bits(),
            max_width_px: 1200,
        }
    );
}

#[test]
fn opaque_background_and_dollar_modes_decode() {
    for (mode, expected) in [
        ("off", InlineDollarsV1::Off),
        ("smart", InlineDollarsV1::Smart),
        ("always", InlineDollarsV1::Always),
    ] {
        let json = VALID_REQUEST
            .replace("\"smart\"", &format!("\"{mode}\""))
            .replace("\"transparent\"", "\"#111827\"");

        let request = decode_request_v1(json.as_bytes()).unwrap();

        assert_eq!(request.inline_dollars, expected);
        assert_eq!(request.background, Some(Rgba::opaque(17, 24, 39)));
    }
}

#[test]
fn malformed_json_has_no_correlation_id() {
    let error_value = decode_request_v1(br#"{"id":"message-42""#).unwrap_err();

    assert_eq!(error_value, DecodeErrorV1 { id: None, error: error("invalid_request", false) });
}

#[test]
fn oversized_request_line_is_rejected_before_id_reflection() {
    let json = vec![b' '; MAX_DAEMON_REQUEST_LINE_BYTES + 1];

    let error_value = decode_request_v1(&json).unwrap_err();

    assert_eq!(error_value, DecodeErrorV1 { id: None, error: error("input_limit_exceeded", false) });
}

#[test]
fn unknown_field_preserves_safe_correlation_id() {
    let json = VALID_REQUEST.replace("\"protocol\": 1,", "\"protocol\": 1, \"unexpected\": true,");

    let error_value = decode_request_v1(json.as_bytes()).unwrap_err();

    assert_eq!(error_value.id.as_deref(), Some("message-42"));
    assert_eq!(error_value.error, error("invalid_request", false));
}

#[test]
fn protocol_mismatch_has_stable_code() {
    let json = VALID_REQUEST.replace("\"protocol\": 1", "\"protocol\": 2");

    let error_value = decode_request_v1(json.as_bytes()).unwrap_err();

    assert_eq!(error_value.id.as_deref(), Some("message-42"));
    assert_eq!(error_value.error, error("protocol", false));
}

#[test]
fn invalid_ids_are_not_reflected() {
    for id in ["", "line\\u0000break", &"a".repeat(129)] {
        let json = VALID_REQUEST.replace("message-42", id);

        let error_value = decode_request_v1(json.as_bytes()).unwrap_err();

        assert_eq!(error_value.id, None);
        assert_eq!(error_value.error, error("invalid_request", false));
    }
}

#[test]
fn empty_unsafe_and_oversized_sources_are_rejected() {
    for (source, code) in [
        (String::new(), "invalid_request"),
        ("unsafe\\u0000source".to_owned(), "invalid_request"),
        ("x".repeat(MAX_DAEMON_MESSAGE_BYTES + 1), "input_limit_exceeded"),
    ] {
        let json = VALID_REQUEST.replace("Use \\\\(x^2\\\\).", &source);

        let error_value = decode_request_v1(json.as_bytes()).unwrap_err();

        assert_eq!(error_value.id.as_deref(), Some("message-42"));
        assert_eq!(error_value.error, error(code, false));
    }
}

#[test]
fn invalid_colors_scale_and_width_are_rejected() {
    for json in [
        VALID_REQUEST.replace("#e6edf3", "red"),
        VALID_REQUEST.replace("\"scale\": 2", "\"scale\": 99"),
        VALID_REQUEST.replace("\"maxWidthPx\": 1200", "\"maxWidthPx\": 0"),
    ] {
        let error_value = decode_request_v1(json.as_bytes()).unwrap_err();

        assert_eq!(error_value.id.as_deref(), Some("message-42"));
        assert_eq!(error_value.error, error("invalid_request", false));
    }
}

#[test]
fn all_daemon_limits_match_the_committed_contract() {
    assert_eq!(MAX_DAEMON_REQUEST_LINE_BYTES, 1024 * 1024);
    assert_eq!(MAX_DAEMON_MESSAGE_BYTES, 256 * 1024);
    assert_eq!(MAX_DAEMON_EQUATIONS, 32);
    assert_eq!(MAX_DAEMON_PNG_BYTES, 4 * 1024 * 1024);
    assert_eq!(MAX_DAEMON_TOTAL_PNG_BYTES, 8 * 1024 * 1024);
    assert_eq!(MAX_DAEMON_ACCESSIBILITY_BYTES, 64 * 1024);
    assert_eq!(MAX_DAEMON_TOTAL_ACCESSIBILITY_BYTES, 256 * 1024);
    assert_eq!(MAX_DAEMON_RESPONSE_LINE_BYTES, 12 * 1024 * 1024);
}

#[test]
fn fractional_scales_round_to_single_precision() {
    for (text, expected) in [("1.5", Some(1.5f32)), ("0.5", Some(0.5)), ("4", Some(4.0)), ("4.0000001", Some(4.0)),
        ("0.49999999", Some(0.5)), ("0.4999999", None), ("4.000001", None), ("-2", None), ("1e39", None)] {
        let json = VALID_REQUEST.replace("\"scale\": 2", &format!("\"scale\": {text}"));
        let decoded = decode_request_v1(json.as_bytes());
        match expected {
            Some(value) => assert_eq!(decoded.unwrap().scale, value.to_bits(), "scale {text}"),
            None => assert_eq!(decoded.unwrap_err().error, error("invalid_request", false), "scale {text}"),
        }
    }
}

#[test]
fn wrong_types_and_missing_fields_are_invalid() {
    for json in [
        VALID_REQUEST.replace("\"protocol\": 1", "\"protocol\": \"1\""),
        VALID_REQUEST.replace("\"protocol\": 1", "\"protocol\": 1.0"),
        VALID_REQUEST.replace("\"method\": \"render_message\"", "\"method\": \"other\""),
        VALID_REQUEST.replace("\"maxWidthPx\": 1200", "\"maxWidthPx\": -3"),
        VALID_REQUEST.replace(",\n    \"maxWidthPx\": 1200", ""),
        VALID_REQUEST.replace("\"inlineDollars\": \"smart\"", "\"inlineDollars\": \"sometimes\""),
    ] {
        let error_value = decode_request_v1(json.as_bytes()).unwrap_err();
        assert_eq!(error_value.id.as_deref(), Some("message-42"));
        assert_eq!(error_value.error, error("invalid_request", false));
    }
}

#[test]
fn colors_parse_only_in_hash_hex_form() {
    assert_eq!(parse_color("#0A0b0C"), Some(Rgba::opaque(10, 11, 12)));
    assert_eq!(parse_color("0a0b0c"), None);
    assert_eq!(parse_color("#0a0b0"), None);
    assert_eq!(parse_color("#0a0b0g"), None);
    assert_eq!(parse_color("#0a0b0cd"), None);
}
