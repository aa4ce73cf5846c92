use latex_render::client::{client_cache_key, job_id};
use latex_render::client_config::{TimeSpan, WorkerClientConfig, WorkerCommand};
use latex_render::client_protocol::{
    check_encoded_request, decode_ready, decode_response, request_colors, response_line_limit,
};
use latex_render::color::Rgba;
use latex_render::error::RenderErrorCode;
use latex_render::limits::RenderLimits;
use latex_render::request::RenderRequest;

fn request(source: &str) -> RenderRequest {
    RenderRequest {
        source: source.to_owned(),
        display_mode: true,
        foreground: Rgba::opaque(230, 237, 243),
        background: None,
        scale: 2.0f32.to_bits(),
        max_width_px: 1200,
    }
}

fn config() -> WorkerClientConfig {
    WorkerClientConfig::new(WorkerCommand::new(b"node".to_vec()))
}

fn ready(version: &str, formats: &str, display_modes: &str) -> String {
    format!(
        r#"{{"protocol":1,"type":"ready","renderer":{{"name":"mathjax","version":"{version}"}},"capabilities":{{"formats":{formats},"displayModes":{display_modes}}},"limits":{{"maxSourceBytes":16384,"maxJsonLineBytes":65536,"maxSvgBytes":2097152,"maxWidthPx":4096,"maxHeightPx":2048,"minScale":0.5,"maxScale":4}}}}"#
    )
}

#[test]
fn request_encoding_rejects_partial_alpha() {
    let mut request = request("x");
    request.foreground = Rgba::new(1, 2, 3, 127);

    let error = request_colors(&request).expect_err("partial alpha should fail");
    assert_eq!(error.code, RenderErrorCode::InvalidRequest);
}

#[test]
fn request_colors_follow_the_wire_contract() {
    let (foreground, background) = request_colors(&request("x^2")).expect("colors");
    assert_eq!(foreground, "#e6edf3");
    assert_eq!(background, "transparent");

    let mut clear = request("x");
    clear.background = Some(Rgba::new(9, 9, 9, 0));
    assert_eq!(request_colors(&clear).expect("clear").1, "transparent");
    clear.background = Some(Rgba::opaque(1, 2, 3));
    assert_eq!(request_colors(&clear).expect("opaque").1, "#010203");
    clear.background = Some(Rgba::new(1, 2, 3, 4));
    let error = request_colors(&clear).expect_err("partial background");
    assert_eq!(error.message, "Background must be fully opaque or transparent for the MathJax worker");
}

#[test]
fn encoded_requests_respect_the_line_limit() {
    let limits = RenderLimits::default();
    assert_eq!(check_encoded_request(vec![b'x'; 65536], &limits).expect("fits").len(), 65536);
    let error = check_encoded_request(vec![b'x'; 65537], &limits).expect_err("too long");
    assert_eq!(error.code, RenderErrorCode::InputLimitExceeded);
    assert_eq!(error.message, "Encoded request exceeds 65536 UTF 8 bytes");
    assert_eq!(response_line_limit(&limits), 2 * 2097152 + 65536);
    let mut huge = limits;
    huge.max_svg_bytes = usize::MAX / 2 + 1;
    assert_eq!(response_line_limit(&huge), usize::MAX);
}

#[test]
fn ready_handshake_requires_exact_identity_and_capabilities() {
    let config = config();
    let valid = ready("0.1.0", "[\"svg\"]", "[\"inline\",\"display\"]");
    assert_eq!(decode_ready(valid.as_bytes(), &config).as_deref(), Ok("0.1.0"));

    let wrong_version = ready("0.2.0", "[\"svg\"]", "[\"inline\",\"display\"]");
    assert_eq!(
        decode_ready(wrong_version.as_bytes(), &config)
            .expect_err("version mismatch should fail")
            .code,
        RenderErrorCode::Protocol
    );

    let missing_mode = ready("0.1.0", "[\"svg\"]", "[\"display\"]");
    assert_eq!(
        decode_ready(missing_mode.as_bytes(), &config)
            .expect_err("missing mode should fail")
            .code,
        RenderErrorCode::Protocol
    );
}

#[test]
fn ready_handshake_accepts_a_stricter_client_limit() {
    let mut config = config();
    config.render_limits.max_svg_bytes = 1024;
    let valid = ready("0.1.0", "[\"svg\"]", "[\"inline\",\"display\"]");

    assert_eq!(decode_ready(valid.as_bytes(), &config).as_deref(), Ok("0.1.0"));
}

#[test]
fn ready_handshake_failures_name_their_rule() {
    let config = config();
    let message = |line: &str| decode_ready(line.as_bytes(), &config).expect_err("should fail").message;
    assert_eq!(message("not json"), "Worker ready handshake is malformed");
    assert_eq!(
        message(&ready("0.1.0", "[\"svg\"]", "[\"inline\",\"display\"]").replace("\"ready\"", "\"hello\"")),
        "Worker protocol version or message type is incompatible"
    );
    assert_eq!(
        message(&ready("0.1.0", "[\"png\"]", "[\"inline\",\"display\"]")),
        "Worker does not support required render modes"
    );
    assert_eq!(
        message(&ready("0.1.0", "[\"svg\"]", "[\"inline\",\"display\"]").replace("\"maxScale\":4", "\"maxScale\":3")),
        "Worker resource limits are incompatible"
    );
    assert_eq!(
        message(&ready("0.1.0", "[\"svg\"]", "[\"inline\",\"display\"]").replace("\"protocol\":1,", "\"protocol\":1,\"extra\":2,")),
        "Worker ready handshake is malformed"
    );
}

#[test]
fn response_decoder_correlates_and_validates_success() {
    let line = br#"{"protocol":1,"id":"eq-1","ok":true,"result":{"svgUtf8":"<svg></svg>","widthPx":10,"heightPx":5,"baselinePx":4,"accessibilityText":"x"}}"#;
    let rendered = decode_response(line, "eq-1", "v1:key".to_owned(), &RenderLimits::default())
        .expect("response should decode");

    assert_eq!(rendered.svg, b"<svg></svg>");
    assert_eq!(rendered.cache_key, "v1:key");
    assert_eq!(rendered.baseline_px.map(f32::from_bits), Some(4.0));

    let error = decode_response(line, "eq-2", "v1:key".to_owned(), &RenderLimits::default())
        .expect_err("wrong correlation should fail");
    assert_eq!(error.code, RenderErrorCode::Protocol);
}

#[test]
fn response_decoder_maps_worker_errors_without_controls() {
    let line = br#"{"protocol":1,"id":"eq-1","ok":false,"error":{"code":"INVALID_TEX","message":"bad\u001bvalue","retryable":false,"position":7}}"#;
    let error = decode_response(line, "eq-1", "v1:key".to_owned(), &RenderLimits::default())
        .expect_err("worker error should be returned");

    assert_eq!(error.code, RenderErrorCode::InvalidTex);
    assert_eq!(error.position, Some(7));
    assert!(!error.message.contains('\u{001b}'));
}

#[test]
fn response_decoder_rejects_invalid_success_as_unsafe_output() {
    let line = br#"{"protocol":1,"id":"eq-1","ok":true,"result":{"svgUtf8":"<svg></svg>","widthPx":0,"heightPx":5,"baselinePx":4,"accessibilityText":"x"}}"#;
    let error = decode_response(line, "eq-1", "v1:key".to_owned(), &RenderLimits::default())
        .expect_err("invalid output should fail");

    assert_eq!(error.code, RenderErrorCode::UnsafeOutput);
}

#[test]
fn response_shapes_follow_the_envelope_rules() {
    let limits = RenderLimits::default();
    let decode = |line: &str| decode_response(line.as_bytes(), "eq-1", "v1:key".to_owned(), &limits);
    let error = decode(r#"{"protocol":1,"id":"eq-1","ok":true}"#).expect_err("no result");
    assert_eq!(error.message, "Worker response success shape is inconsistent");
    let error = decode(r#"{"protocol":1,"id":"eq-1","ok":false,"error":{"code":"SOMETHING","message":"m","retryable":true}}"#)
        .expect_err("unknown code");
    assert_eq!(error.code, RenderErrorCode::Protocol);
    assert!(error.retryable);
    assert_eq!(error.position, None);
    let error = decode(r#"[1,"eq-1",false,null,["OUTPUT_LIMIT_EXCEEDED","big",false,null]]"#).expect_err("array form");
    assert_eq!(error.code, RenderErrorCode::OutputLimitExceeded);
    let error = decode(r#"{"protocol":2,"id":"eq-1","ok":true}"#).expect_err("protocol");
    assert_eq!(error.message, "Worker response correlation is invalid");
    let error = decode(r#"{"protocol":1,"ok":true,"unknown":1}"#).expect_err("unknown key");
    assert_eq!(error.message, "Worker response is malformed");
}

#[test]
fn client_rejects_invalid_resource_configuration() {
    let mut invalid_queue = config();
    invalid_queue.queue_capacity = 0;
    let error = invalid_queue.validate().expect_err("zero queue should fail");
    assert_eq!(error.code, RenderErrorCode::InvalidRequest);

    let mut invalid_limit = config();
    invalid_limit.render_limits.max_svg_bytes = 0;
    let error = invalid_limit.validate().expect_err("zero output limit should fail");
    assert_eq!(error.code, RenderErrorCode::InvalidRequest);
}

#[test]
fn configuration_rules_name_their_failure() {
    assert!(config().validate().is_ok());
    let mut c = config();
    c.render_timeout = TimeSpan::from_millis(0);
    assert_eq!(c.validate().expect_err("zero").message, "Worker time limits must be greater than zero");
    let mut c = config();
    c.command = WorkerCommand::new(Vec::new());
    assert_eq!(c.validate().expect_err("program").message, "Worker program must not be empty");
    let mut c = config();
    c.macro_policy_version = "x".repeat(65);
    assert_eq!(c.validate().expect_err("label").message, "Worker version labels must contain 1 to 64 bytes");
    let mut c = config();
    c.render_limits.min_scale = 5.0f32.to_bits();
    assert_eq!(c.validate().expect_err("scale").message, "Render limits exceed the worker protocol bounds");
    let mut c = config();
    c.queue_capacity = 33;
    assert_eq!(c.validate().expect_err("queue").message, "Queue capacity must be between 1 and 32");
    assert_eq!(TimeSpan::from_millis(1500), TimeSpan { secs: 1, nanos: 500_000_000 });
}

#[test]
fn client_ids_and_keys_are_stable() {
    assert_eq!(job_id(42), "eq-42");
    let config = config();
    let first = client_cache_key(&config, &request("x^2"));
    assert_eq!(first, client_cache_key(&config, &request("x^2")));
    assert_ne!(first, client_cache_key(&config, &request("x^3")));
    assert!(first.starts_with("v1:"));
}
