//! The source free diagnostic report of the `check` command.

use vstd::prelude::*;

use crate::cache::CacheStats;
use crate::client_protocol::WORKER_PROTOCOL_VERSION;
use crate::error::RenderErrorCode;
use crate::health::{WorkerHealth, WorkerState};
use crate::limits::RenderLimits;
use crate::svg_policy::{RASTERIZER_VERSION, SVG_POLICY_VERSION_LABEL};
use crate::text::{decimal, push_decimal, push_str};

verus! {

/// The diagnostic name of a worker state.
pub open spec fn state_label(s: WorkerState) -> Seq<char> {
    match s {
        WorkerState::Idle => "idle"@,
        WorkerState::Starting => "starting"@,
        WorkerState::Ready => "ready"@,
        WorkerState::Backoff => "backoff"@,
        WorkerState::Stopped => "stopped"@,
    }
}

/// The diagnostic name of an optional error category.
pub open spec fn error_label(e: Option<RenderErrorCode>) -> Seq<char> {
    match e {
        None => "none"@,
        Some(RenderErrorCode::InvalidRequest) => "invalid_request"@,
        Some(RenderErrorCode::InputLimitExceeded) => "input_limit_exceeded"@,
        Some(RenderErrorCode::OutputLimitExceeded) => "output_limit_exceeded"@,
        Some(RenderErrorCode::InvalidTex) => "invalid_tex"@,
        Some(RenderErrorCode::Protocol) => "protocol"@,
        Some(RenderErrorCode::WorkerUnavailable) => "worker_unavailable"@,
        Some(RenderErrorCode::Timeout) => "timeout"@,
        Some(RenderErrorCode::QueueFull) => "queue_full"@,
        Some(RenderErrorCode::Cancelled) => "cancelled"@,
        Some(RenderErrorCode::UnsafeOutput) => "unsafe_output"@,
        Some(RenderErrorCode::RenderFailed) => "render_failed"@,
    }
}

/// Returns the diagnostic name of a worker state.
pub fn state_name(state: WorkerState) -> (r: &'static str)
    ensures
        r@ == state_label(state),
{
    let r = match state {
        WorkerState::Idle => "idle",
        WorkerState::Starting => "starting",
        WorkerState::Ready => "ready",
        WorkerState::Backoff => "backoff",
        WorkerState::Stopped => "stopped",
    };
    proof {
        reveal_strlit("idle");
        reveal_strlit("starting");
        reveal_strlit("ready");
        reveal_strlit("backoff");
        reveal_strlit("stopped");
    }
    r
}

/// Returns the diagnostic name of an optional error category.
pub fn error_name(error: Option<RenderErrorCode>) -> (r: &'static str)
    ensures
        r@ == error_label(error),
{
    match error {
        None => "none",
        Some(RenderErrorCode::InvalidRequest) => "invalid_request",
        Some(RenderErrorCode::InputLimitExceeded) => "input_limit_exceeded",
        Some(RenderErrorCode::OutputLimitExceeded) => "output_limit_exceeded",
        Some(RenderErrorCode::InvalidTex) => "invalid_tex",
        Some(RenderErrorCode::Protocol) => "protocol",
        Some(RenderErrorCode::WorkerUnavailable) => "worker_unavailable",
        Some(RenderErrorCode::Timeout) => "timeout",
        Some(RenderErrorCode::QueueFull) => "queue_full",
        Some(RenderErrorCode::Cancelled) => "cancelled",
        Some(RenderErrorCode::UnsafeOutput) => "unsafe_output",
        Some(RenderErrorCode::RenderFailed) => "render_failed",
    }
}

pub open spec fn line(key: Seq<char>, value: Seq<char>) -> Seq<char> {
    key + "="@ + value + "\n"@
}

pub open spec fn number(n: nat) -> Seq<char> {
    decimal(n)
}

/// The check report: identity, versions, worker health, cache use and limits, one
/// `key=value` line each. The scale limits are given as their decimal texts.
pub open spec fn report_text(
    version: Seq<char>,
    h: WorkerHealth,
    c: CacheStats,
    l: RenderLimits,
    min_scale: Seq<char>,
    max_scale: Seq<char>,
) -> Seq<char> {
    line("status"@, "ok"@) + line("protocol"@, number(WORKER_PROTOCOL_VERSION as nat)) + line("renderer"@, "mathjax"@)
        + line("renderer_version"@, version) + line("sanitizer"@, SVG_POLICY_VERSION_LABEL@) + line(
        "rasterizer"@,
        RASTERIZER_VERSION@,
    ) + line("worker_state"@, state_label(h.state)) + line("restart_count"@, number(h.restart_count as nat)) + line(
        "last_error"@,
        error_label(h.last_error),
    ) + line("cache_entries"@, number(c.entries as nat)) + line("cache_bytes"@, number(c.bytes as nat)) + line(
        "cache_hits"@,
        number(c.hits as nat),
    ) + line("cache_misses"@, number(c.misses as nat)) + line("max_source_bytes"@, number(l.max_source_bytes as nat))
        + line("max_json_line_bytes"@, number(l.max_json_line_bytes as nat)) + line(
        "max_svg_bytes"@,
        number(l.max_svg_bytes as nat),
    ) + line("max_width_px"@, number(l.max_width_px as nat)) + line("max_height_px"@, number(l.max_height_px as nat))
        + line("min_scale"@, min_scale) + line("max_scale"@, max_scale)
}

fn push_line(report: &mut String, key: &str, value: &str)
    ensures
        final(report)@ == old(report)@ + line(key@, value@),
{
    push_str(report, key);
    push_str(report, "=");
    push_str(report, value);
    push_str(report, "\n");
    proof {
        reveal_strlit("=");
        reveal_strlit("\n");
    }
    assert(final(report)@ =~= old(report)@ + line(key@, value@));
}

fn push_number_line(report: &mut String, key: &str, value: u64)
    ensures
        final(report)@ == old(report)@ + line(key@, number(value as nat)),
{
    push_str(report, key);
    push_str(report, "=");
    push_decimal(report, value);
    push_str(report, "\n");
    proof {
        reveal_strlit("=");
        reveal_strlit("\n");
    }
    assert(final(report)@ =~= old(report)@ + line(key@, number(value as nat)));
}

/// Builds the check report from the renderer version, the worker health, the
/// cache statistics, the limits, and the decimal texts of the scale limits.
pub fn check_report(
    renderer_version: &str,
    health: &WorkerHealth,
    cache: CacheStats,
    limits: RenderLimits,
    min_scale: &str,
    max_scale: &str,
) -> (r: String)
    ensures
        r@ == report_text(renderer_version@, *health, cache, limits, min_scale@, max_scale@),
{
    let mut report = String::new();
    push_line(&mut report, "status", "ok");
    push_number_line(&mut report, "protocol", WORKER_PROTOCOL_VERSION as u64);
    push_line(&mut report, "renderer", "mathjax");
    push_line(&mut report, "renderer_version", renderer_version);
    push_line(&mut report, "sanitizer", SVG_POLICY_VERSION_LABEL);
    push_line(&mut report, "rasterizer", RASTERIZER_VERSION);
    push_line(&mut report, "worker_state", state_name(health.state));
    push_number_line(&mut report, "restart_count", health.restart_count);
    push_line(&mut report, "last_error", error_name(health.last_error));
    push_number_line(&mut report, "cache_entries", cache.entries as u64);
    push_number_line(&mut report, "cache_bytes", cache.bytes as u64);
    push_number_line(&mut report, "cache_hits", cache.hits);
    push_number_line(&mut report, "cache_misses", cache.misses);
    push_number_line(&mut report, "max_source_bytes", limits.max_source_bytes as u64);
    push_number_line(&mut report, "max_json_line_bytes", limits.max_json_line_bytes as u64);
    push_number_line(&mut report, "max_svg_bytes", limits.max_svg_bytes as u64);
    push_number_line(&mut report, "max_width_px", limits.max_width_px as u64);
    push_number_line(&mut report, "max_height_px", limits.max_height_px as u64);
    push_line(&mut report, "min_scale", min_scale);
    push_line(&mut report, "max_scale", max_scale);
    proof {
        reveal_strlit("status");
        reveal_strlit("ok");
    }
    report
}

} // verus!
