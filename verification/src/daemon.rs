//! Decisions about the daemon process: whether to use, restart or spawn it,
//! and how long to wait for it.
use vstd::prelude::*;

use crate::api::HealthResponse;
use crate::cache::held;
use crate::markdown::opt_text;
use crate::split::texts;
use crate::text::{decimal, decimal_string, joined, joined3, same_text};

verus! {

/// The name by which the daemon identifies itself.
pub const SERVICE_NAME: &'static str = "brunson";

/// How long starting or stopping the daemon may take, in milliseconds.
pub const DAEMON_WAIT_MS: u64 = 10000;

/// Pause between two looks at a daemon that is to stop.
pub const EXIT_POLL_MS: u64 = 200;

/// Pause between two looks at a daemon that is to start.
pub const START_POLL_MS: u64 = 500;

/// Whether a running daemon reports the same binary modification time as ours.
/// If either side couldn't determine its own, assume it matches rather than
/// forcing an unnecessary restart.
pub open spec fn binary_is_current(reported: Option<u64>, ours: Option<u64>) -> bool {
    match (reported, ours) {
        (Some(a), Some(b)) => a == b,
        _ => true,
    }
}

pub fn daemon_binary_is_current(health: &HealthResponse, our_mtime: Option<u64>) -> (r: bool)
    ensures
        r == binary_is_current(health.binary_mtime, our_mtime),
{
    match (health.binary_mtime, our_mtime) {
        (Some(daemon_mtime), Some(ours)) => daemon_mtime == ours,
        _ => true,
    }
}

/// What to do about the daemon at startup.
#[derive(Debug, Clone, Copy, PartialEq, Eq, Structural)]
pub enum DaemonPlan {
    /// One of the same build is running.
    UseRunning,
    /// One of another build is running: stop it, then spawn a new one.
    Restart,
    Spawn,
}

/// Whether what answers is our daemon.
pub open spec fn is_ours(health: Option<HealthResponse>) -> bool {
    health is Some && health->0.service@ == SERVICE_NAME@
}

pub open spec fn daemon_plan(health: Option<HealthResponse>, ours: Option<u64>) -> DaemonPlan {
    if !is_ours(health) {
        DaemonPlan::Spawn
    } else if binary_is_current(health->0.binary_mtime, ours) {
        DaemonPlan::UseRunning
    } else {
        DaemonPlan::Restart
    }
}

/// Whether what answers is our daemon.
pub fn answers_as_daemon(health: Option<&HealthResponse>) -> (r: bool)
    ensures
        r == is_ours(held(health)),
{
    match health {
        Some(h) => same_text(h.service.as_str(), SERVICE_NAME),
        None => false,
    }
}

/// What to do about the daemon, given its answer and our own build.
pub fn plan_daemon(health: Option<&HealthResponse>, our_mtime: Option<u64>) -> (r: DaemonPlan)
    ensures
        r == daemon_plan(held(health), our_mtime),
{
    match health {
        Some(h) => {
            if !same_text(h.service.as_str(), SERVICE_NAME) {
                DaemonPlan::Spawn
            } else if daemon_binary_is_current(h, our_mtime) {
                DaemonPlan::UseRunning
            } else {
                DaemonPlan::Restart
            }
        },
        None => DaemonPlan::Spawn,
    }
}

/// What to do next while waiting for the daemon.
#[derive(Debug, Clone, Copy, PartialEq, Eq, Structural)]
pub enum WaitStep {
    /// It is where it should be.
    Done,
    /// Look again after so many milliseconds.
    Again(u64),
    GiveUp,
}

pub open spec fn exit_step(elapsed_ms: u64, responding: bool) -> WaitStep {
    if elapsed_ms >= DAEMON_WAIT_MS {
        WaitStep::GiveUp
    } else if responding {
        WaitStep::Again(EXIT_POLL_MS)
    } else {
        WaitStep::Done
    }
}

/// Waiting for a stale daemon to stop answering.
pub fn exit_wait(elapsed_ms: u64, responding: bool) -> (r: WaitStep)
    ensures
        r == exit_step(elapsed_ms, responding),
{
    if elapsed_ms >= DAEMON_WAIT_MS {
        WaitStep::GiveUp
    } else if responding {
        WaitStep::Again(EXIT_POLL_MS)
    } else {
        WaitStep::Done
    }
}

/// What is known of a daemon process that was started.
#[derive(Debug)]
pub enum ChildState {
    Running,
    /// It ended, with its status.
    Exited(String),
    /// Its state could not be learned, with the reason.
    Unknown(String),
}

/// What to do next about a daemon process that was started.
#[derive(Debug)]
pub enum StartStep {
    /// It answers as ours.
    Ready,
    /// Look again after so many milliseconds.
    Again(u64),
    /// It ended or cannot be watched.
    Failed(String),
    /// It took too long: end it and report.
    TimedOut(String),
}

#[verifier::ext_equal]
pub enum StartView {
    Ready,
    Again(u64),
    Failed(Seq<char>),
    TimedOut(Seq<char>),
}

impl View for StartStep {
    type V = StartView;

    open spec fn view(&self) -> StartView {
        match *self {
            StartStep::Ready => StartView::Ready,
            StartStep::Again(ms) => StartView::Again(ms),
            StartStep::Failed(e) => StartView::Failed(e@),
            StartStep::TimedOut(e) => StartView::TimedOut(e@),
        }
    }
}

pub open spec fn start_step(
    elapsed_ms: u64,
    child: ChildState,
    health: Option<HealthResponse>,
    log: Seq<char>,
) -> StartView {
    if elapsed_ms >= DAEMON_WAIT_MS {
        StartView::TimedOut("Daemon did not become ready within 10s. Check log: "@ + log)
    } else {
        match child {
            ChildState::Exited(status) => StartView::Failed(
                "Daemon exited early with status "@ + status@ + ". Check log: "@ + log,
            ),
            ChildState::Unknown(e) => StartView::Failed("Failed to check daemon status: "@ + e@),
            ChildState::Running => if is_ours(health) {
                StartView::Ready
            } else {
                StartView::Again(START_POLL_MS)
            },
        }
    }
}

/// Waiting for a spawned daemon to answer as ours; its output goes to `log`.
pub fn start_wait(
    elapsed_ms: u64,
    child: &ChildState,
    health: Option<&HealthResponse>,
    log: &str,
) -> (r: StartStep)
    ensures
        r@ == start_step(elapsed_ms, *child, held(health), log@),
{
    if elapsed_ms >= DAEMON_WAIT_MS {
        return StartStep::TimedOut(joined("Daemon did not become ready within 10s. Check log: ", log));
    }
    match child {
        ChildState::Exited(status) => {
            let what = joined3("Daemon exited early with status ", status.as_str(), ". Check log: ");
            StartStep::Failed(joined(what.as_str(), log))
        },
        ChildState::Unknown(e) => {
            StartStep::Failed(joined("Failed to check daemon status: ", e.as_str()))
        },
        ChildState::Running => {
            if answers_as_daemon(health) {
                StartStep::Ready
            } else {
                StartStep::Again(START_POLL_MS)
            }
        },
    }
}

/// What a failure to start the daemon's process is reported as.
pub fn spawn_failure(error: &str, log: &str) -> (r: String)
    ensures
        r@ == "Failed to spawn daemon: "@ + error@ + ". Check log: "@ + log@,
{
    joined(joined3("Failed to spawn daemon: ", error, ". Check log: ").as_str(), log)
}

/// The arguments the daemon's process is started with.
pub open spec fn daemon_arguments(config_path: Option<Seq<char>>) -> Seq<Seq<char>> {
    match config_path {
        Some(path) => seq!["daemon"@, "--config"@, path],
        None => seq!["daemon"@],
    }
}

/// The arguments the daemon's process is started with; it reads the
/// configuration at `config_path` where one is given.
pub fn daemon_args(config_path: &Option<String>) -> (r: Vec<String>)
    ensures
        texts(r@) == daemon_arguments(opt_text(*config_path)),
{
    let mut args: Vec<String> = Vec::new();
    args.push("daemon".to_owned());
    if let Some(path) = config_path {
        args.push("--config".to_owned());
        args.push(path.as_str().to_owned());
    }
    proof {
        assert(texts(args@) =~= daemon_arguments(opt_text(*config_path)));
    }
    args
}

/// A spawned daemon is waited for no longer than it may take, and only while
/// it runs and does not answer yet.
pub proof fn start_wait_is_bounded(
    elapsed_ms: u64,
    child: ChildState,
    health: Option<HealthResponse>,
    log: Seq<char>,
)
    ensures
        start_step(elapsed_ms, child, health, log) is Again <==> (elapsed_ms < DAEMON_WAIT_MS
            && child is Running && !is_ours(health)),
        start_step(elapsed_ms, child, health, log) is Ready ==> is_ours(health),
{
}

/// A daemon is restarted only where it is ours and both builds are known and
/// differ.
pub proof fn restart_needs_a_known_difference(health: Option<HealthResponse>, ours: Option<u64>)
    ensures
        daemon_plan(health, ours) == DaemonPlan::Restart <==> (is_ours(health)
            && health->0.binary_mtime is Some && ours is Some && health->0.binary_mtime != ours),
{
}

/// Where the daemon listening on `port` is reached.
pub fn daemon_url(port: u16) -> (r: String)
    ensures
        r@ == "http://127.0.0.1:"@ + decimal(port as nat),
{
    joined("http://127.0.0.1:", decimal_string(port as u64).as_str())
}

} // verus!
