use player::supervisor::{
    Action, Event, Phase, Supervisor, BACKOFF_MS, FRAME_DURATION_NS, POLL_TIMEOUT_MS,
};

fn keyframe_unit() -> Vec<u8> {
    vec![0, 0, 0, 1, 0x67, 0x42, 0, 0, 1, 0x65, 0x88]
}

fn delta_unit() -> Vec<u8> {
    vec![0, 0, 0, 1, 0x41, 0x9a]
}

fn poll() -> Action {
    Action::Poll { timeout_ms: POLL_TIMEOUT_MS }
}

#[test]
fn starts_by_building() {
    let s = Supervisor::new();
    assert_eq!(s.phase, Phase::Building);
    assert_eq!(s.pending_action(), Action::BuildPipeline);
    assert!(!s.is_stopped());
}

#[test]
fn restarts_once_per_backend_error() {
    let n = 3;
    let mut s = Supervisor::new();
    let mut actions = Vec::new();
    for i in 0..n {
        actions.push(s.step(&Event::Built));
        let failure = if i % 2 == 0 { Event::PipelineError } else { Event::PushFailed };
        actions.push(s.step(&failure));
        actions.push(s.step(&Event::TornDown));
        actions.push(s.step(&Event::BackoffElapsed));
    }
    actions.push(s.step(&Event::Built));
    actions.push(s.step(&Event::Unit(keyframe_unit())));
    let sleeps = actions.iter().filter(|a| **a == Action::Sleep { ms: BACKOFF_MS }).count();
    let builds = actions.iter().filter(|a| **a == Action::BuildPipeline).count();
    assert_eq!(sleeps, n);
    assert_eq!(builds, n);
    for (k, a) in actions.iter().enumerate() {
        if *a == Action::BuildPipeline {
            assert_eq!(actions[k - 1], Action::Sleep { ms: BACKOFF_MS });
        }
    }
    assert_eq!(*actions.last().unwrap(), Action::Push { pts_ns: 0, duration_ns: FRAME_DURATION_NS });
    assert_eq!(s.phase, Phase::Playing);
}

#[test]
fn keyframe_gate_discards_until_stream_start() {
    let mut s = Supervisor::new();
    assert_eq!(s.step(&Event::Built), poll());
    assert_eq!(s.step(&Event::Unit(delta_unit())), Action::Discard);
    assert_eq!(s.step(&Event::Done), poll());
    assert_eq!(s.step(&Event::Unit(delta_unit())), Action::Discard);
    assert_eq!(
        s.step(&Event::Unit(keyframe_unit())),
        Action::Push { pts_ns: 0, duration_ns: FRAME_DURATION_NS }
    );
    assert_eq!(
        s.step(&Event::Unit(delta_unit())),
        Action::Push { pts_ns: FRAME_DURATION_NS, duration_ns: FRAME_DURATION_NS }
    );
    assert_eq!(
        s.step(&Event::Unit(delta_unit())),
        Action::Push { pts_ns: 2 * FRAME_DURATION_NS, duration_ns: FRAME_DURATION_NS }
    );
    assert_eq!(s.next_pts_ns, 3 * FRAME_DURATION_NS);
}

#[test]
fn gate_and_time_reset_after_restart() {
    let mut s = Supervisor::new();
    s.step(&Event::Built);
    s.step(&Event::Unit(keyframe_unit()));
    s.step(&Event::Unit(delta_unit()));
    assert_eq!(s.step(&Event::PipelineError), Action::TearDown);
    assert_eq!(s.step(&Event::TornDown), Action::Sleep { ms: BACKOFF_MS });
    assert_eq!(s.step(&Event::BackoffElapsed), Action::BuildPipeline);
    assert_eq!(s.step(&Event::Built), poll());
    assert!(s.awaiting_keyframe);
    assert_eq!(s.step(&Event::Unit(delta_unit())), Action::Discard);
    assert_eq!(
        s.step(&Event::Unit(keyframe_unit())),
        Action::Push { pts_ns: 0, duration_ns: FRAME_DURATION_NS }
    );
}

#[test]
fn ingest_close_stops_without_backoff() {
    let mut s = Supervisor::new();
    s.step(&Event::Built);
    assert_eq!(s.step(&Event::IngestClosed), Action::TearDown);
    assert_eq!(s.step(&Event::TornDown), Action::Exit);
    assert!(s.is_stopped());
    assert_eq!(s.step(&Event::Built), Action::Exit);
}

#[test]
fn shutdown_request_stops_without_rebuild() {
    let mut s = Supervisor::new();
    s.step(&Event::Built);
    assert_eq!(s.step(&Event::Done), poll());
    assert_eq!(s.step(&Event::ShutdownRequested), Action::TearDown);
    assert_eq!(s.step(&Event::ShutdownRequested), Action::TearDown);
    assert_eq!(s.step(&Event::TornDown), Action::Exit);
    assert_eq!(s.phase, Phase::Stopped);
}

#[test]
fn shutdown_during_teardown_after_error() {
    let mut s = Supervisor::new();
    s.step(&Event::Built);
    s.step(&Event::PushFailed);
    assert!(!s.clean);
    assert_eq!(s.step(&Event::ShutdownRequested), Action::TearDown);
    assert_eq!(s.step(&Event::TornDown), Action::Exit);
}

#[test]
fn shutdown_during_backoff() {
    let mut s = Supervisor::new();
    s.step(&Event::Built);
    s.step(&Event::PipelineError);
    s.step(&Event::TornDown);
    assert_eq!(s.phase, Phase::Backoff);
    assert_eq!(s.step(&Event::ShutdownRequested), Action::Exit);
    assert!(s.is_stopped());
}

#[test]
fn no_backend_is_fatal() {
    let mut s = Supervisor::new();
    assert_eq!(s.step(&Event::BuildFailed), Action::Fatal);
    assert!(s.is_stopped());
    assert_eq!(s.pending_action(), Action::Exit);
}

#[test]
fn presentation_time_saturates() {
    let mut s = Supervisor::new();
    s.step(&Event::Built);
    s.next_pts_ns = u64::MAX - 1;
    assert_eq!(
        s.step(&Event::Unit(keyframe_unit())),
        Action::Push { pts_ns: u64::MAX - 1, duration_ns: FRAME_DURATION_NS }
    );
    assert_eq!(s.next_pts_ns, u64::MAX);
}
