//! The remap daemon's own decisions: its command line, which device it grabs,
//! whether it may start, what it writes as its pid, and how `--stop` ends it.

use vstd::prelude::*;
use crate::pidfile::{PidProbe, pid_path, pid_path_spec, probe_alive, read_pid, pid_of_text, is_alive};
use crate::text::{contains_str, contains_text, decimal, decimal_text, ends_with_str, ends_with_text, same_text};

verus! {

/// Where the stable names of input devices are listed.
pub const BY_ID_DIR: &'static str = "/dev/input/by-id/";

/// Product identifiers of the keyboard, as they appear in its by-id names.
pub const KEYBOARD_ID: &'static str = "Zenbook_Duo_Keyboard";

pub const KEYBOARD_ID_ASUS: &'static str = "ASUS_Zenbook_Duo_Keyboard";

/// Suffix of the by-id name of a keyboard's event node.
pub const EVENT_KBD_SUFFIX: &'static str = "event-kbd";

/// How long `--stop` waits for a terminated daemon to go, in milliseconds.
pub const STOP_GRACE_MS: u64 = 2000;

/// How the daemon failed.
#[derive(Clone, Copy, Debug, PartialEq, Eq, Structural)]
pub enum DaemonError {
    DeviceNotFound,
    GrabFailed,
    VirtualDeviceFailed,
    /// A live daemon already holds the pid file; its pid.
    AlreadyRunning(u32),
    IoError,
    InvalidPidFileContents,
}

/// The daemon's command line.
#[derive(Clone, Debug)]
pub struct DaemonArgs {
    pub pid_file: String,
    pub user: Option<String>,
    pub device: Option<String>,
    pub stop: bool,
}

/// The command line as values.
pub struct ArgsModel {
    pub pid_file: Seq<char>,
    pub user: Option<Seq<char>>,
    pub device: Option<Seq<char>>,
    pub stop: bool,
}

pub open spec fn args_model(a: DaemonArgs) -> ArgsModel {
    ArgsModel {
        pid_file: a.pid_file@,
        user: match a.user {
            Some(u) => Some(u@),
            None => None,
        },
        device: match a.device {
            Some(d) => Some(d@),
            None => None,
        },
        stop: a.stop,
    }
}

/// Reads `args` from position `i` on, starting from `acc`: `--pid-file`, `--user`
/// and `--device` take the next argument (where there is one), `--stop` sets the
/// stop mode, and anything else is passed over.
pub open spec fn parse_args_from(args: Seq<Seq<char>>, i: int, acc: ArgsModel) -> ArgsModel
    decreases args.len() - i,
{
    if i < 0 || i >= args.len() {
        acc
    } else if args[i] == "--pid-file"@ {
        if i + 1 < args.len() {
            parse_args_from(args, i + 2, ArgsModel { pid_file: args[i + 1], ..acc })
        } else {
            acc
        }
    } else if args[i] == "--user"@ {
        if i + 1 < args.len() {
            parse_args_from(args, i + 2, ArgsModel { user: Some(args[i + 1]), ..acc })
        } else {
            acc
        }
    } else if args[i] == "--device"@ {
        if i + 1 < args.len() {
            parse_args_from(args, i + 2, ArgsModel { device: Some(args[i + 1]), ..acc })
        } else {
            acc
        }
    } else if args[i] == "--stop"@ {
        parse_args_from(args, i + 1, ArgsModel { stop: true, ..acc })
    } else {
        parse_args_from(args, i + 1, acc)
    }
}

/// The command line read from the start, with the per-user pid file as default.
pub open spec fn parse_args_spec(args: Seq<Seq<char>>, uid: u32) -> ArgsModel {
    parse_args_from(
        args,
        0,
        ArgsModel { pid_file: pid_path_spec(uid), user: None, device: None, stop: false },
    )
}

/// Reads the daemon's arguments (without the program name); `uid` is the id of the
/// user it runs as, whose pid file is the default.
pub fn parse_args(args: &Vec<String>, uid: u32) -> (r: DaemonArgs)
    ensures
        args_model(r) == parse_args_spec(args@.map_values(|a: String| a@), uid),
{
    let ghost av = args@.map_values(|a: String| a@);
    let mut out = DaemonArgs { pid_file: pid_path(uid), user: None, device: None, stop: false };
    let mut i: usize = 0;
    while i < args.len()
        invariant
            av == args@.map_values(|a: String| a@),
            i <= args@.len(),
            parse_args_spec(av, uid) == parse_args_from(av, i as int, args_model(out)),
        decreases args@.len() - i,
    {
        let a = args[i].as_str();
        assert(a@ == av[i as int]);
        if same_text(a, "--pid-file") {
            if i + 1 < args.len() {
                out.pid_file = args[i + 1].clone();
                i = i + 2;
            } else {
                return out;
            }
        } else if same_text(a, "--user") {
            if i + 1 < args.len() {
                out.user = Some(args[i + 1].clone());
                i = i + 2;
            } else {
                return out;
            }
        } else if same_text(a, "--device") {
            if i + 1 < args.len() {
                out.device = Some(args[i + 1].clone());
                i = i + 2;
            } else {
                return out;
            }
        } else if same_text(a, "--stop") {
            out.stop = true;
            i = i + 1;
        } else {
            i = i + 1;
        }
    }
    out
}

/// A by-id name of the keyboard's event node: it names one of the two product
/// identifiers and ends in the event-keyboard suffix.
pub open spec fn is_keyboard_name(name: Seq<char>) -> bool {
    (contains_text(name, KEYBOARD_ID@) || contains_text(name, KEYBOARD_ID_ASUS@))
        && ends_with_text(name, EVENT_KBD_SUFFIX@)
}

/// Whether a by-id name is that of the keyboard's event node.
pub fn is_keyboard_entry(name: &str) -> (r: bool)
    ensures
        r == is_keyboard_name(name@),
{
    (contains_str(name, KEYBOARD_ID) || contains_str(name, KEYBOARD_ID_ASUS)) && ends_with_str(
        name,
        EVENT_KBD_SUFFIX,
    )
}

/// The first of `names` that is the keyboard's, if any.
pub fn find_keyboard_device(names: &Vec<String>) -> (r: Option<usize>)
    ensures
        match r {
            Some(i) => i < names@.len() && is_keyboard_name(names@[i as int]@) && forall|j: int|
                0 <= j < i ==> !is_keyboard_name(#[trigger] names@[j]@),
            None => forall|j: int| 0 <= j < names@.len() ==> !is_keyboard_name(#[trigger] names@[j]@),
        },
{
    let mut i: usize = 0;
    while i < names.len()
        invariant
            i <= names@.len(),
            forall|j: int| 0 <= j < i ==> !is_keyboard_name(#[trigger] names@[j]@),
        decreases names@.len() - i,
    {
        if is_keyboard_entry(names[i].as_str()) {
            return Some(i);
        }
        i = i + 1;
    }
    None
}

/// The device that the daemon opens: the one given on the command line, else the
/// first keyboard entry of the by-id listing `names`.
pub fn select_device(device: &Option<String>, names: &Vec<String>) -> (r: Result<String, DaemonError>)
    ensures
        match device {
            Some(d) => r == Ok::<String, DaemonError>(*d),
            None => match r {
                Ok(p) => exists|i: int|
                    0 <= i < names@.len() && is_keyboard_name(names@[i]@) && (forall|j: int|
                        0 <= j < i ==> !is_keyboard_name(#[trigger] names@[j]@)) && p@ == BY_ID_DIR@
                        + names@[i]@,
                Err(e) => e == DaemonError::DeviceNotFound && forall|j: int|
                    0 <= j < names@.len() ==> !is_keyboard_name(#[trigger] names@[j]@),
            },
        },
{
    match device {
        Some(d) => Ok(d.clone()),
        None => match find_keyboard_device(names) {
            Some(i) => {
                let p = String::from_str(BY_ID_DIR).concat(names[i].as_str());
                Ok(p)
            },
            None => Err(DaemonError::DeviceNotFound),
        },
    }
}

/// The first startup step: a live pid in the target pid file means another
/// daemon runs, and this one stops before it touches the device.
pub fn check_not_running(record: Option<PidProbe>) -> (r: Result<(), DaemonError>)
    ensures
        match record {
            Some(p) if probe_alive(p.probe) => r == Err::<(), DaemonError>(
                DaemonError::AlreadyRunning(p.pid),
            ),
            _ => r is Ok,
        },
{
    match record {
        Some(p) => if is_alive(p.probe) {
            Err(DaemonError::AlreadyRunning(p.pid))
        } else {
            Ok(())
        },
        None => Ok(()),
    }
}

/// The text that the daemon writes to its pid file: its pid in decimal.
pub fn pid_file_text(pid: u32) -> (r: String)
    ensures
        r@ == decimal(pid as nat),
{
    decimal_text(pid as u128)
}

/// The pid that `--stop` signals, read from the pid file's text.
pub fn pid_to_stop(text: &str) -> (r: Result<u32, DaemonError>)
    ensures
        match pid_of_text(text@) {
            Some(p) => r == Ok::<u32, DaemonError>(p),
            None => r == Err::<u32, DaemonError>(DaemonError::InvalidPidFileContents),
        },
{
    match read_pid(text) {
        Some(p) => Ok(p),
        None => Err(DaemonError::InvalidPidFileContents),
    }
}

/// The next move of `--stop` after the terminate signal went out.
#[derive(Clone, Copy, Debug, PartialEq, Eq, Structural)]
pub enum StopWaitStep {
    /// The process is gone: remove the pid file and succeed.
    Exited,
    /// Wait a little and probe again.
    Wait,
    /// The grace period is over and it still answers: kill it, remove the pid
    /// file and succeed.
    ForceKill,
}

pub open spec fn stop_wait_spec(alive: bool, elapsed_ms: u64) -> StopWaitStep {
    if !alive {
        StopWaitStep::Exited
    } else if elapsed_ms >= STOP_GRACE_MS {
        StopWaitStep::ForceKill
    } else {
        StopWaitStep::Wait
    }
}

/// Decides the next move of `--stop`, `elapsed_ms` after the terminate signal,
/// from whether the process still answers the probe: a process that is gone is
/// never killed.
pub fn stop_wait_step(alive: bool, elapsed_ms: u64) -> (r: StopWaitStep)
    ensures
        r == stop_wait_spec(alive, elapsed_ms),
{
    if !alive {
        StopWaitStep::Exited
    } else if elapsed_ms >= STOP_GRACE_MS {
        StopWaitStep::ForceKill
    } else {
        StopWaitStep::Wait
    }
}

/// The daemon's startup steps, in the order in which each must succeed.
#[derive(Clone, Copy, Debug, PartialEq, Eq, Structural)]
pub enum StartupStep {
    /// Refuse to start next to a live daemon.
    CheckPidFile,
    /// Find the keyboard's event device.
    FindDevice,
    /// Open the device and take it exclusively.
    GrabDevice,
    /// Create the virtual device.
    CreateVirtualDevice,
    /// Install the terminate and interrupt flags.
    InstallSignalHandlers,
    /// Write the pid file: the sign that the daemon runs.
    WritePidFile,
}

/// What follows a startup step.
#[derive(Clone, Copy, Debug, PartialEq, Eq, Structural)]
pub enum StartupNext {
    /// Perform this step.
    Do(StartupStep),
    /// Every step succeeded: run the event loop.
    Run,
    /// Stop with this error; no later step is performed.
    Fail(DaemonError),
}

/// Number of startup steps.
pub const STARTUP_STEPS: usize = 6;

/// The step at position `i` of the startup order.
pub open spec fn step_at(i: int) -> StartupStep {
    if i <= 0 {
        StartupStep::CheckPidFile
    } else if i == 1 {
        StartupStep::FindDevice
    } else if i == 2 {
        StartupStep::GrabDevice
    } else if i == 3 {
        StartupStep::CreateVirtualDevice
    } else if i == 4 {
        StartupStep::InstallSignalHandlers
    } else {
        StartupStep::WritePidFile
    }
}

pub open spec fn after_step_spec(step: StartupStep, outcome: Result<(), DaemonError>) -> StartupNext {
    match outcome {
        Err(e) => StartupNext::Fail(e),
        Ok(()) => match step {
            StartupStep::CheckPidFile => StartupNext::Do(StartupStep::FindDevice),
            StartupStep::FindDevice => StartupNext::Do(StartupStep::GrabDevice),
            StartupStep::GrabDevice => StartupNext::Do(StartupStep::CreateVirtualDevice),
            StartupStep::CreateVirtualDevice => StartupNext::Do(StartupStep::InstallSignalHandlers),
            StartupStep::InstallSignalHandlers => StartupNext::Do(StartupStep::WritePidFile),
            StartupStep::WritePidFile => StartupNext::Run,
        },
    }
}

/// The steps that a startup performs from position `i` on, where the steps come
/// out as `outcomes`, in order.
pub open spec fn performed_from(outcomes: Seq<Result<(), DaemonError>>, i: nat) -> Seq<StartupStep>
    decreases STARTUP_STEPS - i,
{
    if i >= STARTUP_STEPS || i >= outcomes.len() {
        Seq::empty()
    } else {
        seq![step_at(i as int)] + match after_step_spec(step_at(i as int), outcomes[i as int]) {
            StartupNext::Do(_) => performed_from(outcomes, i + 1),
            _ => Seq::empty(),
        }
    }
}

/// Where a startup ends from position `i` on, where the steps come out as `outcomes`.
pub open spec fn startup_end(outcomes: Seq<Result<(), DaemonError>>, i: nat) -> StartupNext
    decreases STARTUP_STEPS - i,
{
    if i >= STARTUP_STEPS {
        StartupNext::Run
    } else if i >= outcomes.len() {
        StartupNext::Do(step_at(i as int))
    } else {
        match after_step_spec(step_at(i as int), outcomes[i as int]) {
            StartupNext::Do(_) => startup_end(outcomes, i + 1),
            other => other,
        }
    }
}

/// The first startup step.
pub fn first_startup_step() -> (r: StartupStep)
    ensures
        r == step_at(0),
{
    StartupStep::CheckPidFile
}

/// What follows `step`, given how it came out.
pub fn after_startup_step(step: StartupStep, outcome: Result<(), DaemonError>) -> (r: StartupNext)
    ensures
        r == after_step_spec(step, outcome),
{
    match outcome {
        Err(e) => StartupNext::Fail(e),
        Ok(()) => match step {
            StartupStep::CheckPidFile => StartupNext::Do(StartupStep::FindDevice),
            StartupStep::FindDevice => StartupNext::Do(StartupStep::GrabDevice),
            StartupStep::GrabDevice => StartupNext::Do(StartupStep::CreateVirtualDevice),
            StartupStep::CreateVirtualDevice => StartupNext::Do(StartupStep::InstallSignalHandlers),
            StartupStep::InstallSignalHandlers => StartupNext::Do(StartupStep::WritePidFile),
            StartupStep::WritePidFile => StartupNext::Run,
        },
    }
}

proof fn lemma_performed_needs_success(outcomes: Seq<Result<(), DaemonError>>, i: nat, k: nat)
    requires
        i <= k < STARTUP_STEPS,
        performed_from(outcomes, i).contains(step_at(k as int)),
    ensures
        k < outcomes.len(),
        forall|j: int| i <= j < k ==> outcomes[j] is Ok,
    decreases STARTUP_STEPS - i,
{
    let p = performed_from(outcomes, i);
    let idx = choose|idx: int| 0 <= idx < p.len() && p[idx] == step_at(k as int);
    if k > i {
        assert(step_at(i as int) != step_at(k as int));
        assert(idx > 0);
        let rest = match after_step_spec(step_at(i as int), outcomes[i as int]) {
            StartupNext::Do(_) => performed_from(outcomes, i + 1),
            _ => Seq::<StartupStep>::empty(),
        };
        assert(p == seq![step_at(i as int)] + rest);
        assert(rest[idx - 1] == step_at(k as int));
        assert(outcomes[i as int] is Ok);
        lemma_performed_needs_success(outcomes, i + 1, k);
    }
}

/// A startup step is performed only when every step before it succeeded; in
/// particular the pid file is written only after the device was found and
/// grabbed, the virtual device created and the signal flags installed.
pub proof fn lemma_step_only_after_earlier_success(outcomes: Seq<Result<(), DaemonError>>, k: nat)
    requires
        k < STARTUP_STEPS,
        performed_from(outcomes, 0).contains(step_at(k as int)),
    ensures
        forall|j: int| 0 <= j < k ==> outcomes[j] is Ok,
{
    lemma_performed_needs_success(outcomes, 0, k);
}

proof fn lemma_end_at_first_failure(outcomes: Seq<Result<(), DaemonError>>, i: nat, k: nat, e: DaemonError)
    requires
        i <= k < STARTUP_STEPS,
        k < outcomes.len(),
        forall|j: int| i <= j < k ==> outcomes[j] is Ok,
        outcomes[k as int] == Err::<(), DaemonError>(e),
    ensures
        startup_end(outcomes, i) == StartupNext::Fail(e),
    decreases k - i,
{
    if i < k {
        assert(outcomes[i as int] is Ok);
        lemma_end_at_first_failure(outcomes, i + 1, k, e);
    }
}

/// The first step that fails ends the startup with its error, and no later step
/// is performed: a daemon that finds no device, or cannot grab it, writes no pid
/// file and never counts as running.
pub proof fn lemma_first_failure_ends_startup(
    outcomes: Seq<Result<(), DaemonError>>,
    k: nat,
    e: DaemonError,
)
    requires
        k < STARTUP_STEPS,
        k < outcomes.len(),
        forall|j: int| 0 <= j < k ==> outcomes[j] is Ok,
        outcomes[k as int] == Err::<(), DaemonError>(e),
    ensures
        startup_end(outcomes, 0) == StartupNext::Fail(e),
        forall|m: nat| k < m < STARTUP_STEPS ==> !performed_from(outcomes, 0).contains(
            #[trigger] step_at(m as int),
        ),
{
    lemma_end_at_first_failure(outcomes, 0, k, e);
    assert forall|m: nat| k < m < STARTUP_STEPS implies !performed_from(outcomes, 0).contains(
        #[trigger] step_at(m as int),
    ) by {
        if performed_from(outcomes, 0).contains(step_at(m as int)) {
            lemma_performed_needs_success(outcomes, 0, m);
            assert(outcomes[k as int] is Ok);
        }
    }
}

} // verus!
