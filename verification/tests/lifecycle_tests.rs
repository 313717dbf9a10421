use opentainer_core::lifecycle::{
    get_install_instructions, poll_attempts, runtime_probe_program, start_error_message,
    stop_error_message, stop_outcome_ok, timeout_message, unsupported_platform_error, Lifecycle,
    Platform, StartAction,
};

#[test]
fn start_when_engine_already_running_never_claims_ownership() {
    // The engine is running before the start: the probe reports it, and
    // ownership stays with whoever started it.
    let mut lc = Lifecycle::new();
    let action = lc.on_start_requested(Platform::MacOs);
    assert_eq!(action, StartAction::ProbeRuntime);
    let spawn = lc.on_probe_result(true);
    assert!(!spawn);
    assert!(!lc.did_we_start_docker());
    // The stop that follows is a no-op: nothing was ours.
    assert!(!lc.should_stop());
}

#[test]
fn start_when_engine_not_running_takes_ownership_and_stop_releases_it() {
    let mut lc = Lifecycle::new();
    let action = lc.on_start_requested(Platform::MacOs);
    assert_eq!(action, StartAction::ProbeRuntime);
    let spawn = lc.on_probe_result(false);
    assert!(spawn);
    lc.on_start_outcome(true);
    assert!(lc.did_we_start_docker());
    assert!(lc.should_stop());
    lc.on_stopped();
    assert!(!lc.did_we_start_docker());
}

#[test]
fn concurrent_starts_yield_exactly_one_spawn_attempt() {
    // Two start requests in flight: the first takes the guard, the second
    // is told to skip while the first has not finished.
    let mut lc = Lifecycle::new();
    let first = lc.on_start_requested(Platform::MacOs);
    assert_eq!(first, StartAction::ProbeRuntime);
    let second = lc.on_start_requested(Platform::MacOs);
    assert_eq!(second, StartAction::SkipInProgress);
    // The first proceeds alone.
    assert!(lc.on_probe_result(false));
    lc.on_start_outcome(true);
    // A third request after completion skips because the runtime is ours.
    let third = lc.on_start_requested(Platform::MacOs);
    assert_eq!(third, StartAction::SkipAlreadyOurs);
}

#[test]
fn failed_spawn_releases_guard_without_ownership() {
    let mut lc = Lifecycle::new();
    lc.on_start_requested(Platform::MacOs);
    assert!(lc.on_probe_result(false));
    lc.on_start_outcome(false);
    assert!(!lc.did_we_start_docker());
    // The guard is free again: a new start may proceed.
    assert_eq!(
        lc.on_start_requested(Platform::MacOs),
        StartAction::ProbeRuntime
    );
}

#[test]
fn linux_start_runs_the_service_and_windows_is_unsupported() {
    let mut lc = Lifecycle::new();
    assert_eq!(
        lc.on_start_requested(Platform::Linux),
        StartAction::StartService
    );
    lc.on_start_outcome(true);
    assert!(lc.did_we_start_docker());

    let mut lw = Lifecycle::new();
    assert_eq!(
        lw.on_start_requested(Platform::Windows),
        StartAction::Unsupported
    );
    assert!(!lw.did_we_start_docker());
    assert_eq!(
        unsupported_platform_error(),
        "Windows support not yet implemented"
    );
}

#[test]
fn close_request_stops_only_an_owned_runtime() {
    let mut lc = Lifecycle::new();
    assert!(!lc.must_stop_before_close());
    lc.on_start_requested(Platform::MacOs);
    lc.on_probe_result(false);
    lc.on_start_outcome(true);
    assert!(lc.must_stop_before_close());
    lc.on_stopped();
    // The second close request falls through: stopping cleared ownership.
    assert!(!lc.must_stop_before_close());
}

#[test]
fn docker_status_snapshot_reports_the_flags() {
    let mut lc = Lifecycle::new();
    let s = lc.get_docker_status(true, false);
    assert!(s.running);
    assert!(!s.colima_installed);
    assert!(!s.we_started);
    assert!(s.error.is_none());
    lc.on_start_requested(Platform::Linux);
    lc.on_start_outcome(true);
    let s2 = lc.get_docker_status(false, true);
    assert!(s2.we_started);
}

#[test]
fn poll_attempts_is_half_the_timeout() {
    assert_eq!(poll_attempts(30), 15);
    assert_eq!(poll_attempts(1), 0);
    assert_eq!(poll_attempts(0), 0);
    // The probes' sleeps add up to at most the timeout.
    for t in [0u64, 1, 2, 3, 29, 30, 31] {
        assert!(2 * poll_attempts(t) <= t);
    }
}

#[test]
fn timeout_message_carries_the_number() {
    assert_eq!(
        timeout_message(30),
        "Docker did not become ready within 30 seconds"
    );
    assert_eq!(
        timeout_message(0),
        "Docker did not become ready within 0 seconds"
    );
    assert_eq!(
        timeout_message(12345),
        "Docker did not become ready within 12345 seconds"
    );
}

#[test]
fn stop_outcome_tolerates_not_running_only_on_macos() {
    assert!(stop_outcome_ok(Platform::MacOs, true, ""));
    assert!(stop_outcome_ok(
        Platform::MacOs,
        false,
        "colima is not running"
    ));
    assert!(!stop_outcome_ok(Platform::MacOs, false, "permission denied"));
    assert!(stop_outcome_ok(Platform::Linux, true, ""));
    assert!(!stop_outcome_ok(Platform::Linux, false, "is not running"));
}

#[test]
fn start_and_stop_error_messages_name_the_runtime() {
    assert_eq!(
        start_error_message(Platform::MacOs, "boom"),
        "Failed to start Colima: boom"
    );
    assert_eq!(
        start_error_message(Platform::Linux, "unit not found"),
        "Failed to start Docker: unit not found"
    );
    assert_eq!(
        stop_error_message(Platform::MacOs, "boom"),
        "Failed to stop Colima: boom"
    );
    assert_eq!(
        stop_error_message(Platform::Linux, "boom"),
        "Failed to stop Docker: boom"
    );
}

#[test]
fn probe_program_matches_the_platform() {
    assert_eq!(runtime_probe_program(Platform::MacOs), Some("colima"));
    assert_eq!(runtime_probe_program(Platform::Linux), Some("docker"));
    assert_eq!(runtime_probe_program(Platform::Windows), None);
}

#[test]
fn install_instructions_name_the_platform_tooling() {
    assert!(get_install_instructions(Platform::MacOs).contains("brew install colima docker"));
    assert!(get_install_instructions(Platform::Linux).contains("docs.docker.com"));
    assert!(get_install_instructions(Platform::Windows).contains("coming soon"));
}
