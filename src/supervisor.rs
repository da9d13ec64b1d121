//! The supervisor's start and stop protocols: what it launches through the
//! privilege broker, and how it reads each poll while it waits.

use vstd::prelude::*;
use crate::pidfile::{PidFileState, UsbMediaRemapStatus, is_live, live_paths, running_pid_files};

verus! {

/// The marker that makes the program run as the daemon.
pub const HELPER_FLAG: &'static str = "--usb-media-remap-helper";

/// How long a start waits for the daemon, long enough for an authentication prompt.
pub const START_TIMEOUT_MS: u64 = 90_000;

/// The pause between two polls, in milliseconds.
pub const POLL_INTERVAL_MS: u64 = 100;

/// How many polls a stop makes while it waits for the daemon to go.
pub const STOP_SETTLE_POLLS: u32 = 30;

/// How a start or a stop failed.
#[derive(Clone, Copy, Debug, PartialEq, Eq, Structural)]
pub enum SupervisorError {
    /// The broker could not be launched, or it exited with failure (its exit code,
    /// if it had one).
    PrivilegeBrokerFailed(Option<i32>),
    /// The launched broker exited before the daemon ran (its exit code, if any).
    FailedToStart(Option<i32>),
    /// The daemon did not come up in time; it may still do so.
    Timeout,
    IoError,
    /// The pid file path has no parent directory.
    InvalidPidFilePath,
}

/// How a launched process ended.
#[derive(Clone, Copy, Debug, PartialEq, Eq, Structural)]
pub enum ExitReport {
    Success,
    /// Ended with failure: its exit code, or none when a signal ended it.
    Failure(Option<i32>),
}

/// What a start does first.
#[derive(Clone, Copy, Debug, PartialEq, Eq, Structural)]
pub enum StartPlan {
    /// The daemon runs: succeed without launching anything.
    AlreadyRunning,
    /// Launch the daemon through the broker.
    Launch,
}

/// The reading of one poll while a start waits.
#[derive(Clone, Copy, Debug, PartialEq, Eq, Structural)]
pub enum StartPoll {
    /// The daemon runs: succeed, and reap the broker in the background.
    Started,
    /// The broker ended first: fail with its exit status.
    Failed(SupervisorError),
    /// Time is up: fail with a timeout, and leave the broker running (reaped in the
    /// background), since authentication may still be pending.
    TimedOut,
    /// Sleep and poll again.
    Wait,
}

/// What a stop does.
#[derive(Clone, Debug)]
pub enum StopPlan {
    /// No pid file records a live daemon: succeed without doing anything.
    NothingToStop,
    /// Run the stop through the broker for each of these pid files, in order.
    Stop(Vec<String>),
}

/// What the toggle (hotkey, tray, command line) does.
#[derive(Clone, Copy, Debug, PartialEq, Eq, Structural)]
pub enum ToggleAction {
    Start,
    Stop,
}

pub open spec fn start_plan_spec(status: UsbMediaRemapStatus) -> StartPlan {
    if status.running {
        StartPlan::AlreadyRunning
    } else {
        StartPlan::Launch
    }
}

/// Decides how a start begins, from the current status.
pub fn start_plan(status: &UsbMediaRemapStatus) -> (r: StartPlan)
    ensures
        r == start_plan_spec(*status),
{
    if status.running {
        StartPlan::AlreadyRunning
    } else {
        StartPlan::Launch
    }
}

/// A start while the daemon runs launches nothing, so a second daemon never comes
/// from it.
pub proof fn lemma_start_while_running_launches_nothing(status: UsbMediaRemapStatus)
    requires
        status.running,
    ensures
        start_plan_spec(status) == StartPlan::AlreadyRunning,
{
}

pub open spec fn exit_code(e: ExitReport) -> Option<i32> {
    match e {
        ExitReport::Success => Some(0),
        ExitReport::Failure(c) => c,
    }
}

pub open spec fn start_poll_spec(
    running: bool,
    broker_exit: Option<ExitReport>,
    elapsed_ms: u64,
    timeout_ms: u64,
) -> StartPoll {
    if elapsed_ms >= timeout_ms {
        StartPoll::TimedOut
    } else if running {
        StartPoll::Started
    } else {
        match broker_exit {
            Some(e) => StartPoll::Failed(SupervisorError::FailedToStart(exit_code(e))),
            None => StartPoll::Wait,
        }
    }
}

/// Reads one poll of a start, `elapsed_ms` after the launch: whether the status
/// shows the daemon running, and how the broker ended if it did.
pub fn start_poll(
    running: bool,
    broker_exit: Option<ExitReport>,
    elapsed_ms: u64,
    timeout_ms: u64,
) -> (r: StartPoll)
    ensures
        r == start_poll_spec(running, broker_exit, elapsed_ms, timeout_ms),
{
    if elapsed_ms >= timeout_ms {
        StartPoll::TimedOut
    } else if running {
        StartPoll::Started
    } else {
        match broker_exit {
            Some(ExitReport::Success) => StartPoll::Failed(SupervisorError::FailedToStart(Some(0))),
            Some(ExitReport::Failure(c)) => StartPoll::Failed(SupervisorError::FailedToStart(c)),
            None => StartPoll::Wait,
        }
    }
}

/// The arguments, after the program itself, with which the broker runs the daemon.
pub open spec fn start_args_spec(pid_file: Seq<char>, user: Seq<char>) -> Seq<Seq<char>> {
    seq![HELPER_FLAG@, "--pid-file"@, pid_file, "--user"@, user]
}

/// The arguments, after the program itself, with which the broker stops a daemon.
pub open spec fn stop_args_spec(pid_file: Seq<char>) -> Seq<Seq<char>> {
    seq![HELPER_FLAG@, "--stop"@, "--pid-file"@, pid_file]
}

/// The daemon's arguments for a start: daemon mode, the pid file and the user.
pub fn start_args(pid_file: &str, user: &str) -> (r: Vec<String>)
    ensures
        r@.map_values(|a: String| a@) == start_args_spec(pid_file@, user@),
{
    let mut v: Vec<String> = Vec::new();
    v.push(String::from_str(HELPER_FLAG));
    v.push(String::from_str("--pid-file"));
    v.push(String::from_str(pid_file));
    v.push(String::from_str("--user"));
    v.push(String::from_str(user));
    assert(v@.map_values(|a: String| a@) =~= start_args_spec(pid_file@, user@));
    v
}

/// The daemon's arguments for a stop of the daemon behind `pid_file`.
pub fn stop_args(pid_file: &str) -> (r: Vec<String>)
    ensures
        r@.map_values(|a: String| a@) == stop_args_spec(pid_file@),
{
    let mut v: Vec<String> = Vec::new();
    v.push(String::from_str(HELPER_FLAG));
    v.push(String::from_str("--stop"));
    v.push(String::from_str("--pid-file"));
    v.push(String::from_str(pid_file));
    assert(v@.map_values(|a: String| a@) =~= stop_args_spec(pid_file@));
    v
}

/// Decides what a stop does, from the candidate pid files and their probes.
pub fn stop_plan(candidates: &Vec<PidFileState>) -> (r: StopPlan)
    ensures
        match r {
            StopPlan::NothingToStop => live_paths(candidates@).len() == 0,
            StopPlan::Stop(paths) => paths@.len() > 0 && paths@.map_values(|p: String| p@)
                == live_paths(candidates@),
        },
{
    let paths = running_pid_files(candidates);
    if paths.len() == 0 {
        StopPlan::NothingToStop
    } else {
        StopPlan::Stop(paths)
    }
}

proof fn lemma_no_live_no_paths(s: Seq<PidFileState>)
    requires
        forall|i: int| 0 <= i < s.len() ==> !is_live(#[trigger] s[i]),
    ensures
        live_paths(s).len() == 0,
    decreases s.len(),
{
    if s.len() > 0 {
        assert(!is_live(s[s.len() - 1]));
        lemma_no_live_no_paths(s.drop_last());
    }
}

/// A stop when no pid file records a live daemon has nothing to stop: it succeeds
/// without launching anything, however often it is called.
pub proof fn lemma_stop_when_idle_does_nothing(candidates: Seq<PidFileState>)
    requires
        forall|i: int| 0 <= i < candidates.len() ==> !is_live(#[trigger] candidates[i]),
    ensures
        live_paths(candidates).len() == 0,
{
    lemma_no_live_no_paths(candidates);
}

/// How one stop through the broker ended.
pub fn stop_invocation_result(exit: ExitReport) -> (r: Result<(), SupervisorError>)
    ensures
        match exit {
            ExitReport::Success => r is Ok,
            ExitReport::Failure(c) => r == Err::<(), SupervisorError>(
                SupervisorError::PrivilegeBrokerFailed(c),
            ),
        },
{
    match exit {
        ExitReport::Success => Ok(()),
        ExitReport::Failure(c) => Err(SupervisorError::PrivilegeBrokerFailed(c)),
    }
}

/// Whether a stop keeps waiting for the daemon to go, after `polls` polls; the
/// stop succeeds either way once it gives up.
pub fn stop_settle_continues(polls: u32, running: bool) -> (r: bool)
    ensures
        r == (running && polls < STOP_SETTLE_POLLS),
{
    running && polls < STOP_SETTLE_POLLS
}

/// What the toggle does: stop a running daemon, start one otherwise.
pub fn toggle_action(status: &UsbMediaRemapStatus) -> (r: ToggleAction)
    ensures
        r == (if status.running {
            ToggleAction::Stop
        } else {
            ToggleAction::Start
        }),
{
    if status.running {
        ToggleAction::Stop
    } else {
        ToggleAction::Start
    }
}

} // verus!
