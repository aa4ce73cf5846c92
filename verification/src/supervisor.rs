//! The decisions of the worker supervisor: when a worker is started, restarted or
//! recycled, and what each render job reports. The caller performs each action
//! (spawning, rendering, terminating) and hands back what came of it.

use vstd::prelude::*;

use crate::client_config::TimeSpan;
use crate::error::{RenderError, RenderErrorCode};
use crate::health::{HealthView, WorkerHealth, WorkerState};
use crate::result::RenderedMath;

verus! {

/// Whether a failure leaves the worker unusable, so that it must be replaced.
pub open spec fn recycles(code: RenderErrorCode) -> bool {
    match code {
        RenderErrorCode::Protocol | RenderErrorCode::WorkerUnavailable | RenderErrorCode::Timeout
        | RenderErrorCode::OutputLimitExceeded | RenderErrorCode::UnsafeOutput => true,
        _ => false,
    }
}

/// Whether a failure requires replacing the worker.
pub fn must_recycle(error: &RenderError) -> (r: bool)
    ensures
        r == recycles(error.code),
{
    match error.code {
        RenderErrorCode::Protocol | RenderErrorCode::WorkerUnavailable | RenderErrorCode::Timeout
        | RenderErrorCode::OutputLimitExceeded | RenderErrorCode::UnsafeOutput => true,
        _ => false,
    }
}

/// The failure reported while restarts are throttled.
pub fn backoff_error() -> (r: RenderError)
    ensures
        r.code == RenderErrorCode::WorkerUnavailable,
        r.message@ == crate::error::sanitized("Renderer worker restart is temporarily throttled"@),
        r.retryable,
        r.position is None,
{
    RenderError::new(RenderErrorCode::WorkerUnavailable, "Renderer worker restart is temporarily throttled", true)
}

/// The failure reported for work cancelled by shutdown.
pub fn cancelled_error() -> (r: RenderError)
    ensures
        r.code == RenderErrorCode::Cancelled,
        r.message@ == crate::error::sanitized("Renderer request was cancelled during shutdown"@),
        !r.retryable,
        r.position is None,
{
    RenderError::new(RenderErrorCode::Cancelled, "Renderer request was cancelled during shutdown", false)
}

/// The failure reported when a render passes its deadline.
pub fn deadline_error() -> (r: RenderError)
    ensures
        r.code == RenderErrorCode::Timeout,
        r.message@ == crate::error::sanitized("Renderer worker exceeded the render deadline"@),
        r.retryable,
        r.position is None,
{
    RenderError::new(RenderErrorCode::Timeout, "Renderer worker exceeded the render deadline", true)
}

/// The length of a span in nanoseconds.
pub open spec fn span_nanos(s: TimeSpan) -> int {
    s.secs * 1_000_000_000 + s.nanos
}

/// Throttles worker restarts: at most one restart per interval, and no new worker
/// until a blocking failure's interval has passed. Instants are nanoseconds on a
/// monotonic clock.
pub struct RestartGate {
    pub interval: u128,
    pub last_restart: Option<u64>,
    pub blocked_until: Option<u128>,
}

/// One interval after `now`, saturating.
pub open spec fn deadline_after(now: u64, interval: u128) -> u128 {
    if now + interval > u128::MAX { u128::MAX } else { (now + interval) as u128 }
}

/// Whether a worker may be started at `now`.
pub open spec fn gate_open(g: RestartGate, now: u64) -> bool {
    match g.blocked_until {
        None => true,
        Some(deadline) => now >= deadline,
    }
}

/// Whether a restart at `now` comes too soon after the previous one.
pub open spec fn restart_too_soon(g: RestartGate, now: u64) -> bool {
    match g.last_restart {
        None => false,
        Some(previous) => (if now >= previous { now - previous } else { 0 }) < g.interval,
    }
}

impl RestartGate {
    /// A restart throttle that allows the first start and restart.
    pub fn new(interval: TimeSpan) -> (r: Self)
        ensures
            r.interval == span_nanos(interval),
            r.last_restart is None,
            r.blocked_until is None,
    {
        RestartGate {
            interval: interval.secs as u128 * 1_000_000_000 + interval.nanos as u128,
            last_restart: None,
            blocked_until: None,
        }
    }

    /// Whether a worker may be started now.
    pub fn can_start(&self, now: u64) -> (r: bool)
        ensures
            r == gate_open(*self, now),
    {
        match self.blocked_until {
            None => true,
            Some(deadline) => now as u128 >= deadline,
        }
    }

    /// Records a restart now unless the previous one is too recent.
    pub fn allow_restart(&mut self, now: u64) -> (r: bool)
        ensures
            r == !restart_too_soon(*old(self), now),
            r ==> *final(self) == (RestartGate { interval: old(self).interval, last_restart: Some(now), blocked_until: None }),
            !r ==> *final(self) == *old(self),
    {
        if let Some(previous) = self.last_restart {
            let elapsed: u64 = if now >= previous { now - previous } else { 0 };
            if (elapsed as u128) < self.interval {
                return false;
            }
        }
        self.last_restart = Some(now);
        self.blocked_until = None;
        true
    }

    /// Blocks new workers for one interval from now.
    pub fn block(&mut self, now: u64)
        ensures
            *final(self) == (RestartGate {
                interval: old(self).interval,
                last_restart: old(self).last_restart,
                blocked_until: Some(deadline_after(now, old(self).interval)),
            }),
    {
        let deadline = if self.interval > u128::MAX - now as u128 {
            u128::MAX
        } else {
            now as u128 + self.interval
        };
        self.blocked_until = Some(deadline);
    }
}

// ---------------------------------------------------------------------------
// Health records.

pub open spec fn with_state(h: HealthView, s: WorkerState) -> HealthView {
    HealthView { state: s, ..h }
}

/// A failure: the state it leaves, and its category as the last error.
pub open spec fn with_failure(h: HealthView, code: RenderErrorCode, s: WorkerState) -> HealthView {
    HealthView { state: s, last_error: Some(code), ..h }
}

/// A worker became ready with a version; the last error is cleared.
pub open spec fn with_ready(h: HealthView, version: Seq<char>) -> HealthView {
    HealthView { state: WorkerState::Ready, renderer_version: Some(version), last_error: None, ..h }
}

/// One more restart, saturating.
pub open spec fn with_restart(h: HealthView) -> HealthView {
    HealthView {
        restart_count: if h.restart_count == u64::MAX { u64::MAX } else { (h.restart_count + 1) as u64 },
        ..h
    }
}

/// The supervisor stopped, with the outcome of terminating its worker.
pub open spec fn with_stopped(h: HealthView, failure: Option<RenderErrorCode>) -> HealthView {
    HealthView {
        state: WorkerState::Stopped,
        last_error: match failure {
            Some(c) => Some(c),
            None => h.last_error,
        },
        ..h
    }
}

fn record_failure(health: &mut WorkerHealth, code: RenderErrorCode, state: WorkerState)
    ensures
        final(health)@ == with_failure(old(health)@, code, state),
{
    health.state = state;
    health.last_error = Some(code);
}

fn record_restart(health: &mut WorkerHealth)
    ensures
        final(health)@ == with_restart(old(health)@),
{
    if health.restart_count < u64::MAX {
        health.restart_count = health.restart_count + 1;
    }
}

/// Records the end of the supervisor.
pub fn record_stopped(health: &mut WorkerHealth, shutdown: &Result<(), RenderError>)
    ensures
        final(health)@ == with_stopped(
            old(health)@,
            match shutdown {
                Ok(()) => None,
                Err(e) => Some(e.code),
            },
        ),
{
    health.state = WorkerState::Stopped;
    if let Err(error) = shutdown {
        health.last_error = Some(error.code);
    }
}

// ---------------------------------------------------------------------------
// One render job.

/// What the caller does next for a job.
pub enum JobAction {
    /// Start a worker and wait for its handshake.
    Spawn,
    /// Send the job to the ready worker, within the render deadline.
    Render,
    /// Terminate the current worker.
    Terminate,
    /// Reply to the job.
    Finish(Result<RenderedMath, RenderError>),
}

/// A job in progress: its attempt (a job is tried at most twice) and the failure
/// that is waiting for the worker to be terminated.
pub struct JobRun {
    pub attempt: u8,
    pub pending: Option<RenderError>,
}

/// Starting an attempt without a worker: on the first attempt a closed restart throttle fails
/// the job; otherwise a worker is started.
pub open spec fn start_step(attempt: u8, worker_ready: bool, g: RestartGate, h: HealthView, now: u64) -> (
    Option<RenderErrorCode>,
    HealthView,
) {
    if worker_ready {
        (None, h)
    } else if attempt == 0 && !gate_open(g, now) {
        (Some(RenderErrorCode::WorkerUnavailable), with_failure(h, RenderErrorCode::WorkerUnavailable, WorkerState::Backoff))
    } else {
        (None, with_state(h, WorkerState::Starting))
    }
}

/// The state after a failure that retires the worker: one retry on the first attempt
/// when `retry_allowed` and the restart throttle allows a restart now, otherwise the restart throttle blocks.
pub open spec fn after_retirement(attempt: u8, retry_allowed: bool, code: RenderErrorCode, g: RestartGate, h: HealthView, now: u64) -> (
    bool,
    RestartGate,
    HealthView,
) {
    let failed = with_failure(h, code, WorkerState::Backoff);
    if attempt == 0 && retry_allowed && !restart_too_soon(g, now) {
        (
            true,
            RestartGate { interval: g.interval, last_restart: Some(now), blocked_until: None },
            with_state(with_restart(failed), WorkerState::Starting),
        )
    } else {
        (
            false,
            RestartGate { interval: g.interval, last_restart: g.last_restart, blocked_until: Some(deadline_after(now, g.interval)) },
            failed,
        )
    }
}

/// What a job's health says once it is answered: a failed job reports its failure
/// as the last error, in backoff when its worker was retired (`retired`), or still
/// ready when the worker was kept, which only a failure that does not recycle the worker
/// allows.
pub open spec fn reply_recorded(action: JobAction, h: HealthView, retired: bool) -> bool {
    action matches JobAction::Finish(Err(e)) ==> {
        &&& h.last_error == Some(e.code)
        &&& retired ==> h.state == WorkerState::Backoff
        &&& !retired ==> h.state == WorkerState::Ready && !recycles(e.code)
    }
}

/// Over a whole job, restarts are counted only on its one retry: the restart count
/// grows by at most the attempts the job has moved on, so at most by one.
pub open spec fn restarts_bounded(old_h: HealthView, new_h: HealthView, old_attempt: u8, new_attempt: u8) -> bool {
    new_h.restart_count <= old_h.restart_count + new_attempt - old_attempt
}

/// How many more actions a job can take at most after `action` on `attempt`: every
/// step of a job brings it closer to its reply, so a job is answered after at most six
/// actions (start, render, terminate, restart, render, terminate).
pub open spec fn steps_left(attempt: u8, action: JobAction) -> nat {
    match action {
        JobAction::Finish(_) => 0,
        JobAction::Render => if attempt == 0 { 5 } else { 2 },
        JobAction::Terminate => if attempt == 0 { 4 } else { 1 },
        JobAction::Spawn => if attempt == 0 { 6 } else { 3 },
    }
}

impl JobRun {
    /// A new job on its first attempt.
    pub fn new() -> (r: Self)
        ensures
            r.attempt == 0,
            r.pending is None,
    {
        JobRun { attempt: 0, pending: None }
    }

    /// Begins the job: renders on a ready worker, starts one, or fails when the restart throttle
    /// is closed.
    pub fn start(&mut self, worker_ready: bool, gate: &RestartGate, health: &mut WorkerHealth, now: u64) -> (r: JobAction)
        requires
            old(self).attempt <= 1,
        ensures
            final(self).attempt == old(self).attempt,
            final(health)@ == start_step(old(self).attempt, worker_ready, *gate, old(health)@, now).1,
            steps_left(final(self).attempt, r) <= 6,
            restarts_bounded(old(health)@, final(health)@, old(self).attempt, final(self).attempt),
            reply_recorded(r, final(health)@, true),
            worker_ready ==> r is Render,
            !worker_ready && start_step(old(self).attempt, worker_ready, *gate, old(health)@, now).0 is None ==> r is Spawn,
            start_step(old(self).attempt, worker_ready, *gate, old(health)@, now).0 is Some ==> (r matches JobAction::Finish(Err(e))
                && is_backoff(e)),
    {
        if worker_ready {
            return JobAction::Render;
        }
        if self.attempt == 0 && !gate.can_start(now) {
            let error = backoff_error();
            record_failure(health, error.code, WorkerState::Backoff);
            return JobAction::Finish(Err(error));
        }
        health.state = WorkerState::Starting;
        JobAction::Spawn
    }

    /// Handles the end of a worker start: renders on the new worker; after a failure,
    /// retries once if the restart throttle allows a restart, else blocks the restart throttle and fails.
    pub fn spawn_finished(
        &mut self,
        outcome: Result<String, RenderError>,
        gate: &mut RestartGate,
        health: &mut WorkerHealth,
        now: u64,
    ) -> (r: JobAction)
        requires
            old(self).attempt <= 1,
        ensures
            final(gate).interval == old(gate).interval,
            final(self).attempt <= 1,
            steps_left(final(self).attempt, r) < steps_left(old(self).attempt, JobAction::Spawn),
            final(self).attempt >= old(self).attempt,
            restarts_bounded(old(health)@, final(health)@, old(self).attempt, final(self).attempt),
            reply_recorded(r, final(health)@, true),
            match outcome {
                Ok(version) => r is Render && final(health)@ == with_ready(old(health)@, version@) && *final(gate) == *old(gate)
                    && final(self).attempt == old(self).attempt,
                Err(e) => {
                    let (retry, g, h) = after_retirement(old(self).attempt, true, e.code, *old(gate), old(health)@, now);
                    &&& *final(gate) == g
                    &&& final(health)@ == h
                    &&& retry ==> r is Spawn && final(self).attempt == 1
                    &&& !retry ==> r == JobAction::Finish(Err(e))
                },
            },
    {
        match outcome {
            Ok(version) => {
                health.state = WorkerState::Ready;
                health.renderer_version = Some(version);
                health.last_error = None;
                JobAction::Render
            },
            Err(error) => self.retire(error, true, gate, health, now),
        }
    }

    fn retire(&mut self, error: RenderError, retry_allowed: bool, gate: &mut RestartGate, health: &mut WorkerHealth, now: u64) -> (r: JobAction)
        requires
            old(self).attempt <= 1,
        ensures
            final(gate).interval == old(gate).interval,
            final(self).attempt <= 1,
            final(self).attempt >= old(self).attempt,
            final(self).pending == old(self).pending,
            restarts_bounded(old(health)@, final(health)@, old(self).attempt, final(self).attempt),
            ({
                let (retry, g, h) = after_retirement(old(self).attempt, retry_allowed, error.code, *old(gate), old(health)@, now);
                &&& *final(gate) == g
                &&& final(health)@ == h
                &&& retry ==> r is Spawn && final(self).attempt == 1
                &&& !retry ==> r == JobAction::Finish(Err(error))
            }),
    {
        record_failure(health, error.code, WorkerState::Backoff);
        if self.attempt == 0 && retry_allowed && gate.allow_restart(now) {
            record_restart(health);
            self.attempt = 1;
            health.state = WorkerState::Starting;
            return JobAction::Spawn;
        }
        gate.block(now);
        JobAction::Finish(Err(error))
    }

    /// Handles the end of a render (`None` when the deadline passed): success is the
    /// reply; a failure that leaves the worker unusable terminates it; any other
    /// failure is the reply and the worker stays ready.
    pub fn render_finished(&mut self, outcome: Option<Result<RenderedMath, RenderError>>, health: &mut WorkerHealth) -> (r: JobAction)
        ensures
            final(self).attempt == old(self).attempt,
            steps_left(final(self).attempt, r) < steps_left(old(self).attempt, JobAction::Render),
            restarts_bounded(old(health)@, final(health)@, old(self).attempt, final(self).attempt),
            old(health)@.state == WorkerState::Ready ==> reply_recorded(r, final(health)@, false),
            match outcome {
                Some(Ok(m)) => r == JobAction::Finish(Ok(m)) && final(health)@ == old(health)@,
                Some(Err(e)) => if recycles(e.code) {
                    r is Terminate && final(self).pending == Some(e) && final(health)@ == old(health)@
                } else {
                    r == JobAction::Finish(Err(e)) && final(health)@ == with_failure(old(health)@, e.code, WorkerState::Ready)
                },
                None => r is Terminate && (final(self).pending matches Some(p) && is_deadline(p)) && final(health)@ == old(health)@,
            },
    {
        let result = match outcome {
            Some(result) => result,
            None => Err(deadline_error()),
        };
        match result {
            Ok(rendered) => JobAction::Finish(Ok(rendered)),
            Err(error) => {
                if must_recycle(&error) {
                    self.pending = Some(error);
                    JobAction::Terminate
                } else {
                    record_failure(health, error.code, WorkerState::Ready);
                    JobAction::Finish(Err(error))
                }
            },
        }
    }

    /// Handles the end of terminating a worker retired by a failure: a failed
    /// termination is the reply; otherwise the job is retried once when the failure is
    /// retryable and the restart throttle allows a restart, else the restart throttle blocks and the failure
    /// is the reply.
    pub fn terminate_finished(
        &mut self,
        outcome: Result<(), RenderError>,
        gate: &mut RestartGate,
        health: &mut WorkerHealth,
        now: u64,
    ) -> (r: JobAction)
        requires
            old(self).attempt <= 1,
            old(self).pending is Some,
        ensures
            final(gate).interval == old(gate).interval,
            final(self).attempt <= 1,
            steps_left(final(self).attempt, r) < steps_left(old(self).attempt, JobAction::Terminate),
            final(self).attempt >= old(self).attempt,
            restarts_bounded(old(health)@, final(health)@, old(self).attempt, final(self).attempt),
            outcome is Ok ==> reply_recorded(r, final(health)@, true),
            match outcome {
                Err(t) => r == JobAction::Finish(Err(t)) && *final(gate) == *old(gate) && final(health)@ == old(health)@,
                Ok(()) => {
                    let e = old(self).pending->0;
                    let (retry, g, h) = after_retirement(old(self).attempt, e.retryable, e.code, *old(gate), old(health)@, now);
                    &&& *final(gate) == g
                    &&& final(health)@ == h
                    &&& retry ==> r is Spawn && final(self).attempt == 1
                    &&& !retry ==> r == JobAction::Finish(Err(e))
                },
            },
    {
        let error = match self.pending.take() {
            Some(e) => e,
            None => return JobAction::Finish(Err(deadline_error())),
        };
        match outcome {
            Err(failure) => JobAction::Finish(Err(failure)),
            Ok(()) => {
                let retryable = error.retryable;
                self.retire(error, retryable, gate, health, now)
            },
        }
    }
}

/// The failure of a throttled restart.
pub open spec fn is_backoff(e: RenderError) -> bool {
    e.code == RenderErrorCode::WorkerUnavailable && e.message@ == crate::error::sanitized(
        "Renderer worker restart is temporarily throttled"@,
    ) && e.retryable && e.position is None
}

/// The failure of a render past its deadline.
pub open spec fn is_deadline(e: RenderError) -> bool {
    e.code == RenderErrorCode::Timeout && e.message@ == crate::error::sanitized(
        "Renderer worker exceeded the render deadline"@,
    ) && e.retryable && e.position is None
}

/// Two restarts allowed one after the other are at least one interval apart.
pub proof fn law_restarts_are_spaced(g: RestartGate, first: u64, second: u64)
    requires
        !restart_too_soon(g, first),
    ensures
        ({
            let after = RestartGate { interval: g.interval, last_restart: Some(first), blocked_until: None };
            !restart_too_soon(after, second) ==> g.interval == 0 || (second >= first && second - first >= g.interval)
        }),
{
}

/// A job retries at most once: after a retirement on the second attempt, or when
/// retrying is not allowed, the job fails and the restart throttle blocks new
/// workers for one interval.
pub proof fn law_one_retry_per_job(
    attempt: u8,
    retry_allowed: bool,
    code: RenderErrorCode,
    g: RestartGate,
    h: HealthView,
    now: u64,
)
    requires
        attempt <= 1,
    ensures
        ({
            let (retry, g2, h2) = after_retirement(attempt, retry_allowed, code, g, h, now);
            &&& retry ==> attempt == 0 && retry_allowed && g2.last_restart == Some(now)
            &&& retry ==> h2.restart_count >= h.restart_count && h2.state == WorkerState::Starting
            &&& !retry ==> g2.blocked_until == Some(deadline_after(now, g.interval)) && h2.state == WorkerState::Backoff
            &&& h2.last_error == Some(code)
        }),
{
}

proof fn lemma_restarts_telescope(h: Seq<HealthView>, a: Seq<u8>, k: int)
    requires
        h.len() == a.len(),
        0 <= k < h.len(),
        forall|j: int| 0 <= j < h.len() - 1 ==> #[trigger] restarts_bounded(h[j], h[j + 1], a[j], a[j + 1]),
    ensures
        h[k].restart_count <= h[0].restart_count + a[k] - a[0],
    decreases k,
{
    if k > 0 {
        lemma_restarts_telescope(h, a, k - 1);
        let j = k - 1;
        assert(restarts_bounded(h[j], h[j + 1], a[j], a[j + 1]));
        assert(j + 1 == k);
    }
}

/// A whole job restarts its worker at most once: along the health records and
/// attempts of a job's steps, starting on the first attempt, each step keeping the
/// restart count within the attempts it moved on (as every `JobRun` step ensures) and
/// no attempt past the second, the count ends at most one above where it began.
pub proof fn law_a_job_restarts_at_most_once(h: Seq<HealthView>, a: Seq<u8>)
    requires
        h.len() == a.len(),
        h.len() > 0,
        a[0] == 0,
        forall|j: int| 0 <= j < a.len() ==> #[trigger] a[j] <= 1,
        forall|j: int| 0 <= j < h.len() - 1 ==> #[trigger] restarts_bounded(h[j], h[j + 1], a[j], a[j + 1]),
    ensures
        h.last().restart_count <= h[0].restart_count + 1,
{
    lemma_restarts_telescope(h, a, h.len() - 1);
    assert(a[h.len() - 1] <= 1);
}

} // verus!
