//! The runtime lifecycle coordinator: a small state machine that decides
//! when to start or stop the underlying container runtime and remembers
//! whether this process owns it.
//!
//! The state is two flags. `we_started` is set the moment this process
//! successfully launches the runtime, cleared only after a successful stop,
//! and never set when the runtime was already running when we arrived.
//! `start_in_progress` makes a second start request a no-op while the first
//! is mid-flight. The unverified shell holds the flags behind atomics,
//! performs the probes and process spawns these decisions call for, and
//! reports each outcome back through the transition methods here.

use vstd::prelude::*;
use vstd::string::*;
use crate::text::{contains_seq, contains_substr, dec_digits, u64_to_string};

verus! {

/// The host platform, as far as runtime control cares: the runtime is a
/// user-mode VM manager on macOS, a system service on Linux, and not yet
/// supported on Windows.
#[derive(Clone, Copy, Debug, PartialEq, Eq, Structural)]
pub enum Platform {
    MacOs,
    Linux,
    Windows,
}

/// Read-only snapshot of the runtime's state, as reported to the UI.
pub struct DockerStatus {
    pub running: bool,
    pub colima_installed: bool,
    pub we_started: bool,
    pub error: Option<String>,
}

/// What a start request asks the shell to do next.
#[derive(Clone, Copy, Debug, PartialEq, Eq, Structural)]
pub enum StartAction {
    /// Another start is mid-flight: report success and do nothing.
    SkipInProgress,
    /// This process already owns the runtime: report success and do nothing.
    SkipAlreadyOurs,
    /// macOS: probe the runtime's status, then report back.
    ProbeRuntime,
    /// Linux: start the system service, blocking, then report back.
    StartService,
    /// Windows: report the unsupported-platform error.
    Unsupported,
}

/// The lifecycle flags of this process. `we_started` records ownership of
/// the runtime; `start_in_progress` is the guard that serializes starts.
pub struct Lifecycle {
    pub we_started: bool,
    pub start_in_progress: bool,
}

impl Lifecycle {
    /// Fresh state: nothing owned, nothing in progress.
    pub fn new() -> (r: Self)
        ensures
            !r.we_started,
            !r.start_in_progress,
    {
        Lifecycle { we_started: false, start_in_progress: false }
    }

    /// Whether this process started the runtime (decides quit behavior).
    pub fn did_we_start_docker(&self) -> (r: bool)
        ensures
            r == self.we_started,
    {
        self.we_started
    }

    /// A start request arrived. At most one start proceeds at a time: a
    /// request that finds another mid-flight, or the runtime already ours,
    /// is told to skip and changes nothing. Otherwise the request takes the
    /// guard and is told what to run on this platform.
    pub fn on_start_requested(&mut self, platform: Platform) -> (a: StartAction)
        ensures
            a == start_requested_action(*old(self), platform),
            *final(self) == start_requested_state(*old(self), platform),
            final(self).we_started == old(self).we_started,
    {
        if self.start_in_progress {
            StartAction::SkipInProgress
        } else if self.we_started {
            StartAction::SkipAlreadyOurs
        } else {
            match platform {
                Platform::MacOs => {
                    self.start_in_progress = true;
                    StartAction::ProbeRuntime
                },
                Platform::Linux => {
                    self.start_in_progress = true;
                    StartAction::StartService
                },
                Platform::Windows => StartAction::Unsupported,
            }
        }
    }

    /// macOS: the status probe came back. A runtime that already runs is
    /// someone else's: the start finishes successfully without claiming
    /// ownership, and only a runtime that is not running is spawned.
    pub fn on_probe_result(&mut self, runtime_running: bool) -> (spawn: bool)
        requires
            old(self).start_in_progress,
        ensures
            spawn == !runtime_running,
            final(self).we_started == old(self).we_started,
            final(self).start_in_progress == !runtime_running,
    {
        if runtime_running {
            self.start_in_progress = false;
            false
        } else {
            true
        }
    }

    /// The launch attempt finished: a successful spawn or service start
    /// makes the runtime ours, a failed one leaves ownership untouched.
    /// Either way the start is over and the guard is released.
    pub fn on_start_outcome(&mut self, started_by_us: bool)
        requires
            old(self).start_in_progress,
        ensures
            !final(self).start_in_progress,
            final(self).we_started == (old(self).we_started || started_by_us),
    {
        if started_by_us {
            self.we_started = true;
        }
        self.start_in_progress = false;
    }

    /// A stop request arrived: the runtime is stopped only if this process
    /// started it; otherwise the stop is a successful no-op.
    pub fn should_stop(&self) -> (r: bool)
        ensures
            r == self.we_started,
    {
        self.we_started
    }

    /// The runtime was stopped successfully: ownership is released, so
    /// every later stop or close request falls through as a no-op.
    pub fn on_stopped(&mut self)
        ensures
            !final(self).we_started,
            final(self).start_in_progress == old(self).start_in_progress,
    {
        self.we_started = false;
    }

    /// Snapshot for the UI, from the probe results the shell collected.
    pub fn get_docker_status(&self, running: bool, colima_installed: bool) -> (s: DockerStatus)
        ensures
            s.running == running,
            s.colima_installed == colima_installed,
            s.we_started == self.we_started,
            s.error is None,
    {
        DockerStatus {
            running,
            colima_installed,
            we_started: self.we_started,
            error: None,
        }
    }

    /// A window-close or quit request arrived. The native path proceeds
    /// unless this process owns the runtime, in which case the close is
    /// held back until a stop has run.
    pub fn must_stop_before_close(&self) -> (r: bool)
        ensures
            r == self.we_started,
    {
        self.we_started
    }
}

/// The action `on_start_requested` decides on.
pub open spec fn start_requested_action(s: Lifecycle, platform: Platform) -> StartAction {
    if s.start_in_progress {
        StartAction::SkipInProgress
    } else if s.we_started {
        StartAction::SkipAlreadyOurs
    } else if platform == Platform::MacOs {
        StartAction::ProbeRuntime
    } else if platform == Platform::Linux {
        StartAction::StartService
    } else {
        StartAction::Unsupported
    }
}

/// The state `on_start_requested` leaves behind: the guard is taken exactly
/// when the request proceeds to a probe or a service start.
pub open spec fn start_requested_state(s: Lifecycle, platform: Platform) -> Lifecycle {
    if start_requested_action(s, platform) == StartAction::ProbeRuntime
        || start_requested_action(s, platform) == StartAction::StartService {
        Lifecycle { start_in_progress: true, ..s }
    } else {
        s
    }
}

/// Ownership law. A start that finds the runtime already running — whether
/// it skips outright or probes and sees it running — never claims
/// ownership: if `we_started` was false before the start, it is false
/// after, on every path that does not spawn.
pub proof fn lemma_ownership_preserved(s: Lifecycle, platform: Platform)
    requires
        !s.we_started,
    ensures
        !start_requested_state(s, platform).we_started,
        start_requested_action(s, platform) == StartAction::ProbeRuntime ==> !(Lifecycle {
            start_in_progress: false,
            ..start_requested_state(s, platform)
        }).we_started,
{
}

/// Mutual exclusion law. While one start holds the guard, any further
/// request is told to skip: no two starts run concurrently, so at most one
/// spawn attempt is observable downstream.
pub proof fn lemma_start_mutual_exclusion(s: Lifecycle, p1: Platform, p2: Platform)
    requires
        start_requested_action(s, p1) == StartAction::ProbeRuntime
            || start_requested_action(s, p1) == StartAction::StartService,
    ensures
        (start_requested_action(start_requested_state(s, p1), p2)
            == StartAction::SkipInProgress),
{
}

/// Which program to look for when probing whether the runtime is installed:
/// the VM manager on macOS, the engine itself on Linux, nothing on Windows.
pub fn runtime_probe_program(platform: Platform) -> (r: Option<&'static str>)
    ensures
        platform == Platform::MacOs ==> (r matches Some(p) && p@ == "colima"@),
        platform == Platform::Linux ==> (r matches Some(p) && p@ == "docker"@),
        platform == Platform::Windows ==> r is None,
{
    match platform {
        Platform::MacOs => Some("colima"),
        Platform::Linux => Some("docker"),
        Platform::Windows => None,
    }
}

/// Installation instructions for the current platform.
pub fn get_install_instructions(platform: Platform) -> (r: String)
    ensures
        platform == Platform::MacOs ==> r@
            == "Install Colima and Docker CLI:\n\nbrew install colima docker\n\nOpentainer will manage Colima automatically."@,
        platform == Platform::Linux ==> r@
            == "Install Docker Engine:\n\nhttps://docs.docker.com/engine/install/"@,
        platform == Platform::Windows ==> r@ == "Windows support coming soon."@,
{
    match platform {
        Platform::MacOs => String::from_str(
            "Install Colima and Docker CLI:\n\nbrew install colima docker\n\nOpentainer will manage Colima automatically.",
        ),
        Platform::Linux => String::from_str(
            "Install Docker Engine:\n\nhttps://docs.docker.com/engine/install/",
        ),
        Platform::Windows => String::from_str("Windows support coming soon."),
    }
}

/// The unsupported-platform error.
pub fn unsupported_platform_error() -> (r: String)
    ensures
        r@ == "Windows support not yet implemented"@,
{
    String::from_str("Windows support not yet implemented")
}

/// The error reported when launching the runtime fails.
pub fn start_error_message(platform: Platform, detail: &str) -> (r: String)
    ensures
        platform == Platform::MacOs ==> r@ == "Failed to start Colima: "@ + detail@,
        platform == Platform::Linux ==> r@ == "Failed to start Docker: "@ + detail@,
        platform == Platform::Windows ==> r@ == "Windows support not yet implemented"@,
{
    match platform {
        Platform::MacOs => {
            let mut m = String::from_str("Failed to start Colima: ");
            m.append(detail);
            m
        },
        Platform::Linux => {
            let mut m = String::from_str("Failed to start Docker: ");
            m.append(detail);
            m
        },
        Platform::Windows => unsupported_platform_error(),
    }
}

/// Whether a finished stop command counts as a success. On macOS a stop
/// that complains the runtime is not running is tolerated; any other
/// non-zero exit is a failure, as is every non-zero exit on Linux.
pub fn stop_outcome_ok(platform: Platform, status_success: bool, stderr: &str) -> (r: bool)
    ensures
        r == (status_success || (platform == Platform::MacOs && contains_seq(
            stderr@,
            "not running"@,
        ))),
{
    if status_success {
        true
    } else {
        match platform {
            Platform::MacOs => contains_substr(stderr, "not running"),
            _ => false,
        }
    }
}

/// The error reported when stopping the runtime fails.
pub fn stop_error_message(platform: Platform, detail: &str) -> (r: String)
    ensures
        platform == Platform::MacOs ==> r@ == "Failed to stop Colima: "@ + detail@,
        platform == Platform::Linux ==> r@ == "Failed to stop Docker: "@ + detail@,
        platform == Platform::Windows ==> r@ == "Windows support not yet implemented"@,
{
    match platform {
        Platform::MacOs => {
            let mut m = String::from_str("Failed to stop Colima: ");
            m.append(detail);
            m
        },
        Platform::Linux => {
            let mut m = String::from_str("Failed to stop Docker: ");
            m.append(detail);
            m
        },
        Platform::Windows => unsupported_platform_error(),
    }
}

/// How many readiness probes a wait allows: one every two seconds, so the
/// probes' sleeps add up to at most the timeout and the wait returns within
/// one poll interval past it.
pub fn poll_attempts(timeout_secs: u64) -> (n: u64)
    ensures
        n == timeout_secs / 2,
        2 * n <= timeout_secs,
{
    proof {
        vstd::arithmetic::div_mod::lemma_fundamental_div_mod(timeout_secs as int, 2);
        vstd::arithmetic::div_mod::lemma_mod_division_less_than_divisor(timeout_secs as int, 2);
    }
    timeout_secs / 2
}

/// The error reported when the engine never became ready in time.
pub fn timeout_message(timeout_secs: u64) -> (r: String)
    ensures
        r@ == "Docker did not become ready within "@ + dec_digits(timeout_secs as nat)
            + " seconds"@,
{
    let mut m = String::from_str("Docker did not become ready within ");
    let num = u64_to_string(timeout_secs);
    m.append(num.as_str());
    m.append(" seconds");
    m
}

} // verus!
