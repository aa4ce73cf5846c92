//! Redacted worker health exposed to diagnostics.

use vstd::prelude::*;

use crate::error::RenderErrorCode;

verus! {

/// Current lifecycle state of the worker supervisor.
#[derive(Clone, Copy, Debug, PartialEq, Eq, Structural)]
pub enum WorkerState {
    /// No render has required a worker yet.
    Idle,
    /// A worker is starting and awaiting its handshake.
    Starting,
    /// A compatible worker is ready.
    Ready,
    /// Restart throttling is active after a failure.
    Backoff,
    /// The supervisor has shut down.
    Stopped,
}

/// Source free health information for status commands.
#[derive(Clone, Debug, PartialEq, Eq)]
pub struct WorkerHealth {
    /// Current lifecycle state.
    pub state: WorkerState,
    /// Renderer version reported by the accepted handshake.
    pub renderer_version: Option<String>,
    /// Number of supervised restart attempts.
    pub restart_count: u64,
    /// Most recent public error category.
    pub last_error: Option<RenderErrorCode>,
}

/// The plain values of a health record.
pub struct HealthView {
    pub state: WorkerState,
    pub renderer_version: Option<Seq<char>>,
    pub restart_count: u64,
    pub last_error: Option<RenderErrorCode>,
}

impl View for WorkerHealth {
    type V = HealthView;

    open spec fn view(&self) -> HealthView {
        HealthView {
            state: self.state,
            renderer_version: match self.renderer_version {
                Some(v) => Some(v@),
                None => None,
            },
            restart_count: self.restart_count,
            last_error: self.last_error,
        }
    }
}

/// The health of a supervisor that has not needed a worker yet.
pub open spec fn idle_health() -> HealthView {
    HealthView { state: WorkerState::Idle, renderer_version: None, restart_count: 0, last_error: None }
}

impl Default for WorkerHealth {
    fn default() -> (r: Self)
        ensures
            r@ == idle_health(),
    {
        WorkerHealth { state: WorkerState::Idle, renderer_version: None, restart_count: 0, last_error: None }
    }
}

} // verus!
