use slasha_server::docker::deployment::readiness::{
    attempt_from_status, probe_step, status_indicates_ready, Attempt, ContainerState, ProbeStep,
    ReadinessConfig, ReadinessOutcome, Round,
};

fn env(pairs: &[(&str, &str)]) -> Vec<(String, String)> {
    pairs.iter().map(|(k, v)| (k.to_string(), v.to_string())).collect()
}

#[test]
fn default_config() {
    let c = ReadinessConfig::default();
    assert_eq!(c.path, "/");
    assert!(!c.explicit_path);
    assert_eq!((c.timeout_secs, c.interval_secs, c.connect_timeout_secs, c.request_timeout_secs), (60, 2, 3, 5));
}

#[test]
fn config_from_env() {
    let c = ReadinessConfig::from_env_map(&env(&[("SLASHA_HEALTH_CHECK_PATH", " healthz "), ("SLASHA_HEALTH_CHECK_TIMEOUT", " 120 ")]));
    assert_eq!(c.path, "/healthz");
    assert!(c.explicit_path);
    assert_eq!(c.timeout_secs, 120);

    let c = ReadinessConfig::from_env_map(&env(&[("SLASHA_HEALTH_CHECK_PATH", "/up")]));
    assert_eq!(c.path, "/up");

    let c = ReadinessConfig::from_env_map(&env(&[("SLASHA_HEALTH_CHECK_PATH", "   "), ("SLASHA_HEALTH_CHECK_TIMEOUT", "0")]));
    assert_eq!(c.path, "/");
    assert!(!c.explicit_path);
    assert_eq!(c.timeout_secs, 60);

    let c = ReadinessConfig::from_env_map(&env(&[("SLASHA_HEALTH_CHECK_TIMEOUT", "soon")]));
    assert_eq!(c.timeout_secs, 60);
}

#[test]
fn status_ranges() {
    assert!(status_indicates_ready(200, true));
    assert!(status_indicates_ready(399, true));
    assert!(!status_indicates_ready(404, true));
    assert!(status_indicates_ready(404, false));
    assert!(!status_indicates_ready(500, false));
    assert!(!status_indicates_ready(199, false));
}

#[test]
fn attempt_message() {
    let c = ReadinessConfig::default();
    assert_eq!(attempt_from_status(503, &c), Attempt::NotReady("received HTTP 503 from GET /".to_string()));
    assert_eq!(attempt_from_status(302, &c), Attempt::Ready);
}

fn finish(step: ProbeStep) -> ReadinessOutcome {
    match step {
        ProbeStep::Finish(o) => o,
        ProbeStep::Wait(_) => panic!("expected the probe to finish"),
    }
}

#[test]
fn crash_loop_fails_at_once() {
    let c = ReadinessConfig::default();
    let round = Round { state: ContainerState::NotRunning { exit_code: Some(1), restarts: 2 }, attempt: None };
    assert_eq!(
        finish(probe_step(&c, None, round, 0)),
        ReadinessOutcome::NotReady { reason: "container is crash looping (restarted 2 times)".to_string() }
    );
}

#[test]
fn ready_round_passes() {
    let c = ReadinessConfig::default();
    let round = Round { state: ContainerState::Running, attempt: Some(Attempt::Ready) };
    assert_eq!(finish(probe_step(&c, None, round, 5)), ReadinessOutcome::Ready { elapsed_nanos: 5 });
}

#[test]
fn waits_then_times_out_with_last_reason() {
    let c = ReadinessConfig::default();
    let round = Round { state: ContainerState::NotRunning { exit_code: Some(-1), restarts: 0 }, attempt: None };
    match probe_step(&c, None, round.clone(), 1_000_000_000) {
        ProbeStep::Wait(r) => assert_eq!(r, Some("container exited with code -1".to_string())),
        ProbeStep::Finish(_) => panic!("should wait"),
    }
    let unknown = Round { state: ContainerState::Unknown, attempt: None };
    assert_eq!(
        finish(probe_step(&c, Some("container is restarting".to_string()), unknown.clone(), 58_000_000_000)),
        ReadinessOutcome::NotReady { reason: "container is restarting".to_string() }
    );
    assert_eq!(finish(probe_step(&c, None, unknown, 59_000_000_000)), ReadinessOutcome::Unreachable);
}
