use opentainer_core::sessions::{
    effective_dims, event_channel, exec_create_error_line, exec_detached_line, exec_resize_action,
    exec_shell_command, exec_start_error_line, logs_plan, pull_result_envelope, stopping_channel,
    SessionKind, EXEC_INPUT_CAPACITY,
};

#[test]
fn event_channels_are_keyed_by_kind_and_session() {
    assert_eq!(event_channel(SessionKind::Logs, "abc"), "logs-abc");
    assert_eq!(event_channel(SessionKind::Exec, "abc"), "exec-abc");
    assert_eq!(event_channel(SessionKind::Pull, "xyz"), "pull-xyz");
    assert_eq!(stopping_channel(), "docker-stopping");
}

#[test]
fn logs_plan_follows_both_streams_with_hundred_line_tail() {
    let p = logs_plan(None);
    assert!(p.follow && p.stdout && p.stderr);
    assert!(!p.timestamps);
    assert_eq!(p.tail, "100");
    assert!(logs_plan(Some(true)).timestamps);
    assert!(!logs_plan(Some(false)).timestamps);
}

#[test]
fn zero_dims_become_eighty_by_twenty_four() {
    assert_eq!(effective_dims(0, 0), (80, 24));
    assert_eq!(effective_dims(0, 50), (80, 50));
    assert_eq!(effective_dims(120, 0), (120, 24));
    assert_eq!(effective_dims(120, 50), (120, 50));
}

#[test]
fn exec_command_prefers_bash_and_falls_back_to_sh() {
    let c = exec_shell_command();
    assert_eq!(
        c,
        vec![
            "/bin/sh",
            "-c",
            "if command -v bash > /dev/null; then exec bash; else exec sh; fi"
        ]
    );
    assert_eq!(EXEC_INPUT_CAPACITY, 100);
}

#[test]
fn exec_session_lines_match_the_protocol() {
    assert_eq!(
        exec_create_error_line("no such container"),
        "\r\nError creating exec: no such container\r\n"
    );
    assert_eq!(
        exec_start_error_line("gone"),
        "\r\nError starting exec: gone\r\n"
    );
    assert_eq!(exec_detached_line(), "\r\nExec started in detached mode\r\n");
}

#[test]
fn resize_is_silent_until_the_exec_id_is_known() {
    // Unknown session: nothing to do.
    assert_eq!(exec_resize_action(None, 100, 40), None);
    // Session exists but the engine has not returned the exec id yet.
    let empty = String::new();
    assert_eq!(exec_resize_action(Some(&empty), 100, 40), None);
    // Once the id is recorded the resize goes out with the given dims.
    let id = "exec-123".to_string();
    assert_eq!(
        exec_resize_action(Some(&id), 100, 40),
        Some(("exec-123".to_string(), 100, 40))
    );
}

#[test]
fn pull_reply_depends_on_natural_completion() {
    let ok = pull_result_envelope(true);
    assert!(ok.success && ok.data.is_none() && ok.error.is_none());
    let cancelled = pull_result_envelope(false);
    assert!(!cancelled.success);
    assert_eq!(cancelled.error, Some("Pull cancelled or failed".to_string()));
}
