//! Plans and event naming for the three streaming session kinds — logs,
//! exec, pull — that bridge an engine-side stream to a named event channel
//! on the UI side.
//!
//! Each session is registered under its UI-chosen session id (see
//! `registry`); the shell spawns the stream-bridging task a plan describes
//! and emits every payload into the session's channel.

use vstd::prelude::*;
use vstd::string::*;
use crate::envelope::{envelope_wf, CommandResponse};

verus! {

/// A streaming session kind.
#[derive(Clone, Copy, Debug, PartialEq, Eq, Structural)]
pub enum SessionKind {
    Logs,
    Exec,
    Pull,
}

/// The event channel a session emits into: the kind's label, a hyphen, the
/// session id.
pub fn event_channel(kind: SessionKind, session_id: &str) -> (r: String)
    ensures
        kind == SessionKind::Logs ==> r@ == "logs-"@ + session_id@,
        kind == SessionKind::Exec ==> r@ == "exec-"@ + session_id@,
        kind == SessionKind::Pull ==> r@ == "pull-"@ + session_id@,
{
    let mut r = match kind {
        SessionKind::Logs => String::from_str("logs-"),
        SessionKind::Exec => String::from_str("exec-"),
        SessionKind::Pull => String::from_str("pull-"),
    };
    r.append(session_id);
    r
}

/// The singleton channel announcing that the runtime is being stopped on
/// quit.
pub fn stopping_channel() -> (r: &'static str)
    ensures
        r@ == "docker-stopping"@,
{
    "docker-stopping"
}

/// Engine options for a logs stream: follow the stream, take both output
/// streams, start from the last hundred lines, timestamps on request.
pub struct LogsPlan {
    pub follow: bool,
    pub stdout: bool,
    pub stderr: bool,
    pub timestamps: bool,
    pub tail: String,
}

/// The logs options for a session: everything fixed but the timestamp
/// switch, whose absence means off.
pub fn logs_plan(timestamps: Option<bool>) -> (p: LogsPlan)
    ensures
        p.follow && p.stdout && p.stderr,
        p.timestamps == (timestamps == Some(true)),
        p.tail@ == "100"@,
{
    LogsPlan {
        follow: true,
        stdout: true,
        stderr: true,
        timestamps: match timestamps {
            Some(t) => t,
            None => false,
        },
        tail: String::from_str("100"),
    }
}

/// The terminal size an exec session starts with: a zero dimension means
/// the caller had none and gets the conventional 80 by 24.
pub fn effective_dims(cols: u16, rows: u16) -> (d: (u16, u16))
    ensures
        d.0 == (if cols == 0 {
            80u16
        } else {
            cols
        }),
        d.1 == (if rows == 0 {
            24u16
        } else {
            rows
        }),
{
    let c = if cols == 0 {
        80
    } else {
        cols
    };
    let r = if rows == 0 {
        24
    } else {
        rows
    };
    (c, r)
}

/// The command an exec session runs: a login-agnostic shell that prefers
/// bash and falls back to sh.
pub fn exec_shell_command() -> (c: Vec<&'static str>)
    ensures
        c@.len() == 3,
        c@[0]@ == "/bin/sh"@,
        c@[1]@ == "-c"@,
        c@[2]@ == "if command -v bash > /dev/null; then exec bash; else exec sh; fi"@,
{
    let mut c: Vec<&'static str> = Vec::new();
    c.push("/bin/sh");
    c.push("-c");
    c.push("if command -v bash > /dev/null; then exec bash; else exec sh; fi");
    c
}

/// How many pending keystrokes the exec input channel may buffer before
/// senders block.
pub const EXEC_INPUT_CAPACITY: usize = 100;

/// The line emitted when creating the exec instance fails.
pub fn exec_create_error_line(detail: &str) -> (r: String)
    ensures
        r@ == "\r\nError creating exec: "@ + detail@ + "\r\n"@,
{
    let mut m = String::from_str("\r\nError creating exec: ");
    m.append(detail);
    m.append("\r\n");
    m
}

/// The line emitted when starting the exec instance fails.
pub fn exec_start_error_line(detail: &str) -> (r: String)
    ensures
        r@ == "\r\nError starting exec: "@ + detail@ + "\r\n"@,
{
    let mut m = String::from_str("\r\nError starting exec: ");
    m.append(detail);
    m.append("\r\n");
    m
}

/// The line emitted when the engine started the exec detached instead of
/// attached.
pub fn exec_detached_line() -> (r: String)
    ensures
        r@ == "\r\nExec started in detached mode\r\n"@,
{
    String::from_str("\r\nExec started in detached mode\r\n")
}

/// What an exec resize request does: nothing for an unknown session, and a
/// silent success while the engine has not yet handed the exec id back —
/// the initial resize fired at session start covers that window. Only a
/// session with a recorded exec id leads to an engine call.
pub fn exec_resize_action(exec_id: Option<&String>, cols: u16, rows: u16) -> (r: Option<
    (String, u16, u16),
>)
    ensures
        match exec_id {
            Some(id) => {
                if id@.len() == 0 {
                    r is None
                } else {
                    r matches Some(t) && t.0@ == id@ && t.1 == cols && t.2 == rows
                }
            },
            None => r is None,
        },
{
    match exec_id {
        Some(id) => {
            if id.as_str().is_empty() {
                None
            } else {
                Some((id.clone(), cols, rows))
            }
        },
        None => None,
    }
}

/// The reply a pull command returns once its task has been awaited: natural
/// completion is success, cancellation or failure is the one pull error.
pub fn pull_result_envelope(completed: bool) -> (r: CommandResponse<()>)
    ensures
        completed ==> r.success && r.data is None && r.error is None,
        !completed ==> !r.success && r.data is None && (r.error matches Some(m) && m@
            == "Pull cancelled or failed"@),
        envelope_wf(r),
{
    if completed {
        CommandResponse::ok_empty()
    } else {
        CommandResponse::err("Pull cancelled or failed")
    }
}

} // verus!
