//! The pid file: where it lives, what it holds, and what a liveness probe of the
//! recorded pid means for the status and for stale files.

use vstd::prelude::*;
use crate::supervisor::SupervisorError;
use crate::text::{decimal, decimal_text, parse_unsigned, parse_unsigned_text};

verus! {

/// The shared location that older installations wrote; it is read and stopped,
/// never written.
pub const LEGACY_PID_PATH: &'static str = "/tmp/duo/usb_media_remap.pid";

/// Largest value that a pid file may record.
pub const MAX_PID: u32 = 0x7fff_ffff;

/// What a zero signal sent to a recorded pid came back with.
#[derive(Clone, Copy, Debug, PartialEq, Eq, Structural)]
pub enum ProbeOutcome {
    /// The signal could be delivered.
    Delivered,
    /// The process exists but belongs to someone else.
    PermissionDenied,
    /// Any other error: no such process.
    Failed,
}

/// A pid read from a pid file, with the outcome of probing it.
#[derive(Clone, Copy, Debug, PartialEq, Eq, Structural)]
pub struct PidProbe {
    pub pid: u32,
    pub probe: ProbeOutcome,
}

/// What the supervisor reports of the daemon.
#[derive(Clone, Copy, Debug, PartialEq, Eq, Structural)]
pub struct UsbMediaRemapStatus {
    pub running: bool,
    pub pid: Option<u32>,
}

/// A status check: the status, and whether the pid files are stale and go.
#[derive(Clone, Copy, Debug, PartialEq, Eq, Structural)]
pub struct StatusCheck {
    pub status: UsbMediaRemapStatus,
    pub remove_pid_files: bool,
}

/// What the status finds in the pid files (the per-user one first, then the
/// legacy one), before any probe.
#[derive(Clone, Copy, Debug, PartialEq, Eq, Structural)]
pub enum PidLookup {
    /// Neither pid file exists.
    NoFile,
    /// A pid file exists, but none records a pid.
    NoPid,
    /// The recorded pid.
    Pid(u32),
}

/// What the status goes by: the lookup, with the probe of a recorded pid.
#[derive(Clone, Copy, Debug, PartialEq, Eq, Structural)]
pub enum PidRecord {
    NoFile,
    NoPid,
    Recorded(PidProbe),
}

/// One candidate pid file and, where it records a pid, the probe of that pid.
#[derive(Clone, Debug)]
pub struct PidFileState {
    pub path: String,
    pub record: Option<PidProbe>,
}

pub open spec fn probe_alive(p: ProbeOutcome) -> bool {
    p == ProbeOutcome::Delivered || p == ProbeOutcome::PermissionDenied
}

/// The pid that a pid file's text records: a positive decimal number of at most
/// `MAX_PID`, white space around it ignored.
pub open spec fn pid_of_text(s: Seq<char>) -> Option<u32> {
    match parse_unsigned(s, MAX_PID as nat) {
        Some(v) if v >= 1 => Some(v as u32),
        _ => None,
    }
}

/// The status that a record gives: running exactly when a pid is recorded and
/// answers the probe as alive; otherwise any pid file that exists is stale.
pub open spec fn status_spec(record: PidRecord) -> StatusCheck {
    match record {
        PidRecord::Recorded(r) if probe_alive(r.probe) => StatusCheck {
            status: UsbMediaRemapStatus { running: true, pid: Some(r.pid) },
            remove_pid_files: false,
        },
        PidRecord::NoFile => StatusCheck {
            status: UsbMediaRemapStatus { running: false, pid: None },
            remove_pid_files: false,
        },
        _ => StatusCheck {
            status: UsbMediaRemapStatus { running: false, pid: None },
            remove_pid_files: true,
        },
    }
}

/// The pid that the text of a pid file records, where the file exists.
pub open spec fn pid_in_file(text: Option<Seq<char>>) -> Option<u32> {
    match text {
        Some(t) => pid_of_text(t),
        None => None,
    }
}

/// The lookup over the texts of the two pid files (`None` where a file does not
/// exist or cannot be read): the per-user file's pid, else the legacy file's.
pub open spec fn lookup_spec(current: Option<Seq<char>>, legacy: Option<Seq<char>>) -> PidLookup {
    match pid_in_file(current) {
        Some(p) => PidLookup::Pid(p),
        None => match pid_in_file(legacy) {
            Some(p) => PidLookup::Pid(p),
            None => if current is Some || legacy is Some {
                PidLookup::NoPid
            } else {
                PidLookup::NoFile
            },
        },
    }
}

pub open spec fn text_view(t: Option<&str>) -> Option<Seq<char>> {
    match t {
        Some(s) => Some(s@),
        None => None,
    }
}

pub open spec fn is_live(s: PidFileState) -> bool {
    match s.record {
        Some(r) => probe_alive(r.probe),
        None => false,
    }
}

/// The paths of the candidates whose recorded pid is alive, in order.
pub open spec fn live_paths(s: Seq<PidFileState>) -> Seq<Seq<char>>
    decreases s.len(),
{
    if s.len() == 0 {
        Seq::empty()
    } else if is_live(s.last()) {
        live_paths(s.drop_last()).push(s.last().path@)
    } else {
        live_paths(s.drop_last())
    }
}

/// The per-user pid file of the user with id `uid`.
pub open spec fn pid_path_spec(uid: u32) -> Seq<char> {
    "/tmp/duo-"@ + decimal(uid as nat) + "/usb_media_remap.pid"@
}

/// Whether a probe outcome means that the process is alive.
pub fn is_alive(p: ProbeOutcome) -> (r: bool)
    ensures
        r == probe_alive(p),
{
    match p {
        ProbeOutcome::Delivered => true,
        ProbeOutcome::PermissionDenied => true,
        ProbeOutcome::Failed => false,
    }
}

/// Reads the pid that a pid file's text records.
pub fn read_pid(text: &str) -> (r: Option<u32>)
    ensures
        r == pid_of_text(text@),
{
    match parse_unsigned_text(text, MAX_PID as u128) {
        Some(v) => if v >= 1 {
            Some(v as u32)
        } else {
            None
        },
        None => None,
    }
}

fn pid_in(text: Option<&str>) -> (r: Option<u32>)
    ensures
        r == pid_in_file(text_view(text)),
{
    match text {
        Some(t) => read_pid(t),
        None => None,
    }
}

/// What the status finds in the two pid files, given their texts (`None` where a
/// file does not exist or cannot be read).
pub fn recorded_pid(current: Option<&str>, legacy: Option<&str>) -> (r: PidLookup)
    ensures
        r == lookup_spec(text_view(current), text_view(legacy)),
{
    match pid_in(current) {
        Some(p) => PidLookup::Pid(p),
        None => match pid_in(legacy) {
            Some(p) => PidLookup::Pid(p),
            None => if current.is_some() || legacy.is_some() {
                PidLookup::NoPid
            } else {
                PidLookup::NoFile
            },
        },
    }
}

/// The status of the daemon from what the pid files hold and the probe of a
/// recorded pid.
pub fn status_from_probe(record: PidRecord) -> (r: StatusCheck)
    ensures
        r == status_spec(record),
{
    let not_running = UsbMediaRemapStatus { running: false, pid: None };
    match record {
        PidRecord::Recorded(rec) => if is_alive(rec.probe) {
            StatusCheck {
                status: UsbMediaRemapStatus { running: true, pid: Some(rec.pid) },
                remove_pid_files: false,
            }
        } else {
            StatusCheck { status: not_running, remove_pid_files: true }
        },
        PidRecord::NoPid => StatusCheck { status: not_running, remove_pid_files: true },
        PidRecord::NoFile => StatusCheck { status: not_running, remove_pid_files: false },
    }
}

pub open spec fn recorded_alive(record: PidRecord) -> bool {
    match record {
        PidRecord::Recorded(r) => probe_alive(r.probe),
        _ => false,
    }
}

/// For every pid-file state: the daemon counts as running exactly when a pid is
/// recorded and answers the probe as alive, and the status then names that pid;
/// otherwise it is not running, and every pid file that exists is removed.
pub proof fn lemma_status_iff_recorded_and_alive(record: PidRecord)
    ensures
        status_spec(record).status.running <==> recorded_alive(record),
        status_spec(record).status.running ==> status_spec(record).status.pid == Some(
            record->Recorded_0.pid,
        ),
        !status_spec(record).status.running ==> status_spec(record).status.pid is None,
        status_spec(record).remove_pid_files <==> (!recorded_alive(record) && record
            != PidRecord::NoFile),
{
}

/// The candidate pid files whose recorded pid is alive: those a stop must end.
pub fn running_pid_files(candidates: &Vec<PidFileState>) -> (r: Vec<String>)
    ensures
        r@.map_values(|p: String| p@) == live_paths(candidates@),
{
    let mut out: Vec<String> = Vec::new();
    let mut i: usize = 0;
    while i < candidates.len()
        invariant
            i <= candidates@.len(),
            out@.map_values(|p: String| p@) == live_paths(candidates@.subrange(0, i as int)),
        decreases candidates@.len() - i,
    {
        let c = &candidates[i];
        let ghost pre = candidates@.subrange(0, i as int);
        let ghost next = candidates@.subrange(0, i + 1);
        assert(next.drop_last() =~= pre);
        assert(next.last() == *c);
        let live = match c.record {
            Some(rec) => is_alive(rec.probe),
            None => false,
        };
        if live {
            let ghost before = out@;
            out.push(c.path.clone());
            assert(out@.map_values(|p: String| p@) =~= before.map_values(|p: String| p@).push(
                c.path@,
            ));
        }
        i = i + 1;
    }
    assert(candidates@.subrange(0, i as int) =~= candidates@);
    out
}

/// The per-user pid file of the user with id `uid`.
pub fn pid_path(uid: u32) -> (r: String)
    ensures
        r@ == pid_path_spec(uid),
{
    let id = decimal_text(uid as u128);
    let head = String::from_str("/tmp/duo-");
    let with_id = head.concat(id.as_str());
    with_id.concat("/usb_media_remap.pid")
}

/// The pid files that status and stop look at: the per-user one, then the legacy one.
pub fn pid_file_candidates(uid: u32) -> (r: Vec<String>)
    ensures
        r@.len() == 2,
        r@[0]@ == pid_path_spec(uid),
        r@[1]@ == LEGACY_PID_PATH@,
{
    let mut v: Vec<String> = Vec::new();
    v.push(pid_path(uid));
    v.push(String::from_str(LEGACY_PID_PATH));
    v
}

/// The directory part of a path, as `std::path::Path::parent` gives it: `None` for
/// a root or an empty path.
pub uninterp spec fn path_parent(p: Seq<char>) -> Option<Seq<char>>;

/// Relies on `std::path::Path::parent`, which depends on the path's text alone; a
/// parent of a path given as text is text too.
#[verifier::external_body]
fn parent_dir(p: &str) -> (r: Option<String>)
    ensures
        match r {
            Some(d) => path_parent(p@) == Some(d@),
            None => path_parent(p@) is None,
        },
{
    std::path::Path::new(p).parent().map(|d| d.to_string_lossy().into_owned())
}

/// Where state files live when a pid file path has no directory part.
pub const FALLBACK_DIR: &'static str = "/tmp";

pub open spec fn base_dir_spec(parent: Option<Seq<char>>) -> Seq<char> {
    match parent {
        Some(d) => d,
        None => FALLBACK_DIR@,
    }
}

/// The state directory given the pid file's parent directory, if it has one.
pub fn base_dir_or_fallback(parent: Option<String>) -> (r: String)
    ensures
        r@ == base_dir_spec(match parent {
            Some(d) => Some(d@),
            None => None,
        }),
{
    match parent {
        Some(d) => d,
        None => String::from_str(FALLBACK_DIR),
    }
}

/// The directory of the state files that sit beside a pid file.
pub fn base_dir_from_pid_file(pid_file: &str) -> (r: String)
    ensures
        r@ == base_dir_spec(path_parent(pid_file@)),
{
    base_dir_or_fallback(parent_dir(pid_file))
}

/// The directory that must exist before a pid file can be written there; a path
/// without one is refused.
pub fn pid_file_dir(pid_file: &str) -> (r: Result<String, SupervisorError>)
    ensures
        match r {
            Ok(d) => path_parent(pid_file@) == Some(d@),
            Err(e) => path_parent(pid_file@) is None && e == SupervisorError::InvalidPidFilePath,
        },
{
    match parent_dir(pid_file) {
        Some(d) => Ok(d),
        None => Err(SupervisorError::InvalidPidFilePath),
    }
}

/// How tightening a directory's permissions to its owner went.
#[derive(Clone, Copy, Debug, PartialEq, Eq, Structural)]
pub enum ChmodOutcome {
    Done,
    PermissionDenied,
    OtherError,
}

/// Whether the state directory may be used after tightening its permissions: a
/// refusal for lack of permission (a directory that another owner made) is
/// tolerated, any other failure is not.
pub fn chmod_tolerated(o: ChmodOutcome) -> (r: bool)
    ensures
        r == (o != ChmodOutcome::OtherError),
{
    match o {
        ChmodOutcome::OtherError => false,
        _ => true,
    }
}

} // verus!
