use latex_render::cache::CacheStats;
use latex_render::daemon_render::{frame_limit_response, frame_response};
use latex_render::error::RenderErrorCode;
use latex_render::health::{WorkerHealth, WorkerState};
use latex_render::limits::RenderLimits;
use latex_render::line_reader::{BoundedLine, LineFailure, LineRead, RequestLine};
use latex_render::report::{check_report, error_name, state_name};

#[test]
fn check_report_preserves_recovered_health_without_source() {
    let health = WorkerHealth {
        state: WorkerState::Ready,
        renderer_version: Some("0.1.0".to_owned()),
        restart_count: 1,
        last_error: Some(RenderErrorCode::UnsafeOutput),
    };

    let report = check_report("0.1.0", &health, CacheStats::default(), RenderLimits::default(), "0.5", "4");

    assert!(report.contains("worker_state=ready\n"));
    assert!(report.contains("restart_count=1\n"));
    assert!(report.contains("last_error=unsafe_output\n"));
    assert!(!report.contains("x^2"));
}

#[test]
fn check_report_lists_every_fact_in_order() {
    let report = check_report("0.1.0", &WorkerHealth::default(), CacheStats::default(), RenderLimits::default(), "0.5", "4");
    let expected = "status=ok\nprotocol=1\nrenderer=mathjax\nrenderer_version=0.1.0\nsanitizer=svg-allowlist-1\n\
rasterizer=resvg-0.48.1-policy-1\nworker_state=idle\nrestart_count=0\nlast_error=none\ncache_entries=0\n\
cache_bytes=0\ncache_hits=0\ncache_misses=0\nmax_source_bytes=16384\nmax_json_line_bytes=65536\n\
max_svg_bytes=2097152\nmax_width_px=4096\nmax_height_px=2048\nmin_scale=0.5\nmax_scale=4\n";
    assert_eq!(report, expected);
    assert_eq!(state_name(WorkerState::Backoff), "backoff");
    assert_eq!(error_name(Some(RenderErrorCode::QueueFull)), "queue_full");
}

#[test]
fn worker_lines_are_bounded_and_lose_one_carriage_return() {
    let mut line = BoundedLine::new();
    assert_eq!(line.feed(b"ab", 10), (2, None));
    let (consumed, done) = line.feed(b"c\r\nrest", 10);
    assert_eq!(consumed, 3);
    assert_eq!(done, Some(Ok(b"abc".to_vec())));

    let mut long = BoundedLine::new();
    assert_eq!(long.feed(b"0123456789x", 10), (0, Some(Err(LineFailure::TooLong))));
    let mut closed = BoundedLine::new();
    assert_eq!(closed.feed(b"", 10), (0, Some(Err(LineFailure::UnexpectedEof))));
    let mut exact = BoundedLine::new();
    assert_eq!(exact.feed(b"0123456789\n", 10), (11, Some(Ok(b"0123456789".to_vec()))));
}

#[test]
fn daemon_lines_skip_oversized_input_to_the_newline() {
    let mut line = RequestLine::new();
    let (consumed, done) = line.feed(b"{}\n{\"a\"");
    assert_eq!(consumed, 3);
    assert!(matches!(done, Some(LineRead::Line(bytes)) if bytes == b"{}"));
    let mut end = RequestLine::new();
    assert!(matches!(end.feed(b""), (0, Some(LineRead::Eof))));
    let mut partial = RequestLine::new();
    assert_eq!(partial.feed(b"abc").0, 3);
    assert!(matches!(partial.feed(b""), (0, Some(LineRead::Line(bytes))) if bytes == b"abc"));

    let mut huge = RequestLine::new();
    let block = vec![b'x'; 1048576];
    assert_eq!(huge.feed(&block).0, 1048576);
    assert_eq!(huge.feed(b"y").0, 1);
    assert!(huge.too_long);
    assert!(matches!(huge.feed(b"zz\nnext"), (3, Some(LineRead::TooLong))));
}

#[test]
fn response_lines_respect_the_response_limit() {
    assert_eq!(frame_response(b"{}".to_vec()), Some(b"{}\n".to_vec()));
    assert_eq!(frame_response(vec![b' '; 12582913]), None);
    let error = frame_limit_response(vec![b' '; 12582913]).expect_err("too long");
    assert_eq!(error.message(), "Daemon limit response exceeded its byte limit");
    assert_eq!(frame_limit_response(b"{}".to_vec()).expect("fits"), b"{}\n".to_vec());
}
