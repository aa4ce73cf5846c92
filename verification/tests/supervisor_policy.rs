use latex_render::client_config::TimeSpan;
use latex_render::error::{RenderError, RenderErrorCode};
use latex_render::health::{WorkerHealth, WorkerState};
use latex_render::supervisor::{must_recycle, record_stopped, JobAction, JobRun, RestartGate};

const SECOND: u64 = 1_000_000_000;

fn error(code: RenderErrorCode, retryable: bool) -> RenderError {
    RenderError::new(code, "failure", retryable)
}

#[test]
fn recycling_covers_worker_faults_only() {
    for code in [
        RenderErrorCode::Protocol,
        RenderErrorCode::WorkerUnavailable,
        RenderErrorCode::Timeout,
        RenderErrorCode::OutputLimitExceeded,
        RenderErrorCode::UnsafeOutput,
    ] {
        assert!(must_recycle(&error(code, true)));
    }
    for code in [RenderErrorCode::InvalidTex, RenderErrorCode::InvalidRequest, RenderErrorCode::RenderFailed] {
        assert!(!must_recycle(&error(code, false)));
    }
}

#[test]
fn restart_gate_throttles_restarts() {
    let mut gate = RestartGate::new(TimeSpan::from_secs(5));
    assert!(gate.can_start(0));
    assert!(gate.allow_restart(10 * SECOND));
    assert!(!gate.allow_restart(14 * SECOND));
    assert!(gate.allow_restart(15 * SECOND));
    gate.block(20 * SECOND);
    assert!(!gate.can_start(24 * SECOND));
    assert!(gate.can_start(25 * SECOND));
}

#[test]
fn a_failed_start_is_retried_once() {
    let mut gate = RestartGate::new(TimeSpan::from_secs(5));
    let mut health = WorkerHealth::default();
    let mut run = JobRun::new();
    assert!(matches!(run.start(false, &gate, &mut health, 0), JobAction::Spawn));
    assert_eq!(health.state, WorkerState::Starting);
    let action = run.spawn_finished(Err(error(RenderErrorCode::WorkerUnavailable, true)), &mut gate, &mut health, SECOND);
    assert!(matches!(action, JobAction::Spawn));
    assert_eq!(health.restart_count, 1);
    assert_eq!(health.state, WorkerState::Starting);
    let action = run.spawn_finished(Err(error(RenderErrorCode::WorkerUnavailable, true)), &mut gate, &mut health, 2 * SECOND);
    match action {
        JobAction::Finish(Err(e)) => assert_eq!(e.code, RenderErrorCode::WorkerUnavailable),
        _ => panic!("second failure should finish"),
    }
    assert_eq!(health.state, WorkerState::Backoff);
    assert_eq!(health.last_error, Some(RenderErrorCode::WorkerUnavailable));
    let mut next = JobRun::new();
    match next.start(false, &gate, &mut health, 3 * SECOND) {
        JobAction::Finish(Err(e)) => assert_eq!(e.message, "Renderer worker restart is temporarily throttled"),
        _ => panic!("blocked gate should throttle"),
    }
}

#[test]
fn render_outcomes_decide_the_worker() {
    let mut gate = RestartGate::new(TimeSpan::from_secs(5));
    let mut health = WorkerHealth::default();
    let mut run = JobRun::new();
    assert!(matches!(run.start(true, &gate, &mut health, 0), JobAction::Render));
    match run.render_finished(Some(Err(error(RenderErrorCode::InvalidTex, false))), &mut health) {
        JobAction::Finish(Err(e)) => assert_eq!(e.code, RenderErrorCode::InvalidTex),
        _ => panic!("syntax errors are replies"),
    }
    assert_eq!(health.state, WorkerState::Ready);

    let mut run = JobRun::new();
    assert!(matches!(run.render_finished(None, &mut health), JobAction::Terminate));
    assert!(matches!(run.terminate_finished(Ok(()), &mut gate, &mut health, SECOND), JobAction::Spawn));
    assert_eq!(health.restart_count, 1);
    assert!(matches!(
        run.spawn_finished(Ok("0.1.0".to_string()), &mut gate, &mut health, SECOND),
        JobAction::Render
    ));
    assert_eq!(health.state, WorkerState::Ready);
    assert_eq!(health.renderer_version.as_deref(), Some("0.1.0"));
    assert_eq!(health.last_error, None);

    let mut run = JobRun::new();
    assert!(matches!(run.render_finished(Some(Err(error(RenderErrorCode::UnsafeOutput, false))), &mut health), JobAction::Terminate));
    match run.terminate_finished(Ok(()), &mut gate, &mut health, 2 * SECOND) {
        JobAction::Finish(Err(e)) => assert_eq!(e.code, RenderErrorCode::UnsafeOutput),
        _ => panic!("unretryable failures are replies"),
    }
    assert_eq!(health.state, WorkerState::Backoff);

    record_stopped(&mut health, &Err(error(RenderErrorCode::Timeout, false)));
    assert_eq!(health.state, WorkerState::Stopped);
    assert_eq!(health.last_error, Some(RenderErrorCode::Timeout));
}
