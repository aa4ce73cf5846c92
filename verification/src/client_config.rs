//! Worker command and supervision configuration.

use vstd::prelude::*;

use crate::cache::CacheLimits;
use crate::error::RenderError;
use crate::error::RenderErrorCode;
use crate::float_bits::{f32_bits_is_finite, f32_bits_lt, f32_is_finite, f32_lt};
use crate::limits::{
    MAX_HEIGHT_PX, MAX_JSON_LINE_BYTES, MAX_SCALE, MAX_SOURCE_BYTES, MAX_SVG_BYTES, MAX_WIDTH_PX,
    MIN_SCALE, RenderLimits,
};
use crate::request::{plain_error, reports};
use crate::text::owned;

verus! {

/// Maximum queued expressions accepted by the client.
pub const MAX_PENDING_RENDERS: usize = 32;

/// A length of time as whole seconds and the nanoseconds beyond them.
#[derive(Clone, Copy, Debug, PartialEq, Eq, Structural)]
pub struct TimeSpan {
    pub secs: u64,
    pub nanos: u32,
}

impl TimeSpan {
    /// A span of whole milliseconds.
    pub fn from_millis(millis: u64) -> (r: Self)
        ensures
            r.secs == millis / 1000,
            r.nanos == (millis % 1000) * 1_000_000,
    {
        TimeSpan { secs: millis / 1000, nanos: ((millis % 1000) as u32) * 1_000_000 }
    }

    /// A span of whole seconds.
    pub fn from_secs(secs: u64) -> (r: Self)
        ensures
            r.secs == secs,
            r.nanos == 0,
    {
        TimeSpan { secs, nanos: 0 }
    }

    /// Whether the span is empty.
    pub fn is_zero(self) -> (r: bool)
        ensures
            r == (self.secs == 0 && self.nanos == 0),
    {
        self.secs == 0 && self.nanos == 0
    }
}

/// Executable and arguments used to start the local worker.
#[derive(Clone, Debug, PartialEq, Eq)]
pub struct WorkerCommand {
    /// Worker executable path or program name.
    pub program: Vec<u8>,
    /// Arguments passed without shell interpretation.
    pub args: Vec<Vec<u8>>,
    /// Optional working directory used by the worker.
    pub current_dir: Option<Vec<u8>>,
}

impl WorkerCommand {
    /// Creates a command without arguments or a working directory.
    pub fn new(program: Vec<u8>) -> (r: Self)
        ensures
            r.program@ == program@,
            r.args@.len() == 0,
            r.current_dir is None,
    {
        WorkerCommand { program, args: Vec::new(), current_dir: None }
    }

    /// Appends one literal argument.
    pub fn arg(self, argument: Vec<u8>) -> (r: Self)
        ensures
            r.program == self.program,
            r.args@ == self.args@.push(argument),
            r.current_dir == self.current_dir,
    {
        let mut r = self;
        r.args.push(argument);
        r
    }

    /// Selects the worker working directory.
    pub fn current_dir(self, directory: Vec<u8>) -> (r: Self)
        ensures
            r.program == self.program,
            r.args == self.args,
            r.current_dir == Some(directory),
    {
        let mut r = self;
        r.current_dir = Some(directory);
        r
    }
}

/// Runtime policy for one supervised worker session.
#[derive(Clone, Debug, PartialEq)]
pub struct WorkerClientConfig {
    /// Executable used to start the worker.
    pub command: WorkerCommand,
    /// Maximum time allowed for the ready handshake.
    pub startup_timeout: TimeSpan,
    /// Maximum time allowed for one render.
    pub render_timeout: TimeSpan,
    /// Maximum time allowed for graceful process shutdown.
    pub shutdown_timeout: TimeSpan,
    /// Minimum interval between worker restarts.
    pub restart_interval: TimeSpan,
    /// Maximum queued render count.
    pub queue_capacity: usize,
    /// Shared request and result limits.
    pub render_limits: RenderLimits,
    /// Memory cache limits.
    pub cache_limits: CacheLimits,
    /// Expected renderer implementation name.
    pub expected_renderer_name: String,
    /// Expected renderer implementation version.
    pub expected_renderer_version: String,
    /// Fixed macro and extension policy version.
    pub macro_policy_version: String,
}

/// A version label of 1 to 64 UTF 8 bytes.
pub open spec fn label_ok(label: Seq<char>) -> bool {
    0 < vstd::utf8::encode_utf8(label).len() <= 64
}

/// Render limits within the worker protocol bounds.
pub open spec fn limits_within_protocol(l: RenderLimits) -> bool {
    &&& 0 < l.max_source_bytes <= MAX_SOURCE_BYTES
    &&& 0 < l.max_json_line_bytes <= MAX_JSON_LINE_BYTES
    &&& 0 < l.max_svg_bytes <= MAX_SVG_BYTES
    &&& 0 < l.max_width_px <= MAX_WIDTH_PX
    &&& 0 < l.max_height_px <= MAX_HEIGHT_PX
    &&& f32_is_finite(l.min_scale)
    &&& !f32_lt(l.min_scale, MIN_SCALE)
    &&& f32_is_finite(l.max_scale)
    &&& !f32_lt(MAX_SCALE, l.max_scale)
    &&& !f32_lt(l.max_scale, l.min_scale)
}

/// The first rule a configuration breaks, as the message of an invalid request.
pub open spec fn config_problem(c: WorkerClientConfig) -> Option<Seq<char>> {
    if c.command.program@.len() == 0 {
        Some("Worker program must not be empty"@)
    } else if c.queue_capacity == 0 || c.queue_capacity > MAX_PENDING_RENDERS {
        Some("Queue capacity must be between 1 and 32"@)
    } else if c.startup_timeout == (TimeSpan { secs: 0, nanos: 0 }) || c.render_timeout == (TimeSpan {
        secs: 0,
        nanos: 0,
    }) || c.shutdown_timeout == (TimeSpan { secs: 0, nanos: 0 }) || c.restart_interval == (TimeSpan {
        secs: 0,
        nanos: 0,
    }) {
        Some("Worker time limits must be greater than zero"@)
    } else if !label_ok(c.expected_renderer_name@) || !label_ok(c.expected_renderer_version@)
        || !label_ok(c.macro_policy_version@) {
        Some("Worker version labels must contain 1 to 64 bytes"@)
    } else if c.cache_limits.max_entries == 0 || c.cache_limits.max_bytes == 0 {
        Some("Cache limits must be greater than zero"@)
    } else if !limits_within_protocol(c.render_limits) {
        Some("Render limits exceed the worker protocol bounds"@)
    } else {
        None
    }
}

/// An invalid request failure for a configuration problem.
pub open spec fn config_failure(problem: Option<Seq<char>>) -> Option<(RenderErrorCode, Seq<char>)> {
    match problem {
        Some(m) => Some((RenderErrorCode::InvalidRequest, m)),
        None => None,
    }
}

fn label_within(label: &String) -> (r: bool)
    ensures
        r == label_ok(label@),
{
    let n = label.as_str().as_bytes().len();
    0 < n && n <= 64
}

impl WorkerClientConfig {
    /// Creates the default policy for a worker command: startup within 1.5 s, one
    /// render within 1 s, shutdown within 0.5 s, restarts at most every 5 s.
    pub fn new(command: WorkerCommand) -> (r: Self)
        ensures
            r.command == command,
            r.startup_timeout == TimeSpan::from_millis_spec(1500),
            r.render_timeout == TimeSpan::from_millis_spec(1000),
            r.shutdown_timeout == TimeSpan::from_millis_spec(500),
            r.restart_interval == TimeSpan::from_millis_spec(5000),
            r.queue_capacity == MAX_PENDING_RENDERS,
            r.render_limits == crate::limits::default_render_limits(),
            r.cache_limits.max_entries == 256,
            r.cache_limits.max_bytes == 33554432,
            r.expected_renderer_name@ == "mathjax"@,
            r.expected_renderer_version@ == "0.1.0"@,
            r.macro_policy_version@ == "base-ams-1"@,
    {
        WorkerClientConfig {
            command,
            startup_timeout: TimeSpan::from_millis(1500),
            render_timeout: TimeSpan::from_secs(1),
            shutdown_timeout: TimeSpan::from_millis(500),
            restart_interval: TimeSpan::from_secs(5),
            queue_capacity: MAX_PENDING_RENDERS,
            render_limits: RenderLimits::default(),
            cache_limits: CacheLimits::default(),
            expected_renderer_name: owned("mathjax"),
            expected_renderer_version: owned("0.1.0"),
            macro_policy_version: owned("base-ams-1"),
        }
    }

    /// Checks the configuration before a client starts.
    pub fn validate(&self) -> (r: Result<(), RenderError>)
        ensures
            reports(r, config_failure(config_problem(*self))),
    {
        if self.command.program.len() == 0 {
            return Err(plain_error(RenderErrorCode::InvalidRequest, "Worker program must not be empty"));
        }
        if self.queue_capacity == 0 || self.queue_capacity > MAX_PENDING_RENDERS {
            return Err(plain_error(RenderErrorCode::InvalidRequest, "Queue capacity must be between 1 and 32"));
        }
        if self.startup_timeout.is_zero() || self.render_timeout.is_zero() || self.shutdown_timeout.is_zero()
            || self.restart_interval.is_zero() {
            return Err(plain_error(RenderErrorCode::InvalidRequest, "Worker time limits must be greater than zero"));
        }
        if !label_within(&self.expected_renderer_name) || !label_within(&self.expected_renderer_version)
            || !label_within(&self.macro_policy_version) {
            return Err(
                plain_error(RenderErrorCode::InvalidRequest, "Worker version labels must contain 1 to 64 bytes"),
            );
        }
        if self.cache_limits.max_entries == 0 || self.cache_limits.max_bytes == 0 {
            return Err(plain_error(RenderErrorCode::InvalidRequest, "Cache limits must be greater than zero"));
        }
        let l = &self.render_limits;
        if l.max_source_bytes == 0 || l.max_source_bytes > MAX_SOURCE_BYTES || l.max_json_line_bytes == 0
            || l.max_json_line_bytes > MAX_JSON_LINE_BYTES || l.max_svg_bytes == 0 || l.max_svg_bytes
            > MAX_SVG_BYTES || l.max_width_px == 0 || l.max_width_px > MAX_WIDTH_PX || l.max_height_px == 0
            || l.max_height_px > MAX_HEIGHT_PX || !f32_bits_is_finite(l.min_scale) || f32_bits_lt(
            l.min_scale,
            MIN_SCALE,
        ) || !f32_bits_is_finite(l.max_scale) || f32_bits_lt(MAX_SCALE, l.max_scale) || f32_bits_lt(
            l.max_scale,
            l.min_scale,
        ) {
            return Err(
                plain_error(RenderErrorCode::InvalidRequest, "Render limits exceed the worker protocol bounds"),
            );
        }
        Ok(())
    }
}

impl TimeSpan {
    /// The span of whole milliseconds.
    pub open spec fn from_millis_spec(millis: u64) -> TimeSpan {
        TimeSpan { secs: millis / 1000, nanos: ((millis % 1000) * 1_000_000) as u32 }
    }
}

} // verus!
