use duo_remap::pidfile::{
    base_dir_from_pid_file, base_dir_or_fallback, chmod_tolerated, is_alive, pid_file_candidates,
    pid_file_dir, pid_path, read_pid, recorded_pid, running_pid_files, status_from_probe,
    ChmodOutcome, PidFileState, PidLookup, PidProbe, PidRecord, ProbeOutcome, StatusCheck, UsbMediaRemapStatus,
    LEGACY_PID_PATH,
};
use duo_remap::supervisor::{
    start_args, start_plan, start_poll, stop_args, stop_invocation_result, stop_plan,
    stop_settle_continues, toggle_action, ExitReport, StartPlan, StartPoll, StopPlan,
    SupervisorError, ToggleAction, START_TIMEOUT_MS,
};

fn probe(pid: u32, probe: ProbeOutcome) -> Option<PidProbe> {
    Some(PidProbe { pid, probe })
}

fn recorded(pid: u32, probe: ProbeOutcome) -> PidRecord {
    PidRecord::Recorded(PidProbe { pid, probe })
}

#[test]
fn status_running_only_for_live_pid() {
    let c = status_from_probe(recorded(4242, ProbeOutcome::Delivered));
    assert_eq!(
        c,
        StatusCheck {
            status: UsbMediaRemapStatus { running: true, pid: Some(4242) },
            remove_pid_files: false
        }
    );
    let c = status_from_probe(recorded(4242, ProbeOutcome::PermissionDenied));
    assert!(c.status.running);
    assert!(!c.remove_pid_files);
    let stale = StatusCheck {
        status: UsbMediaRemapStatus { running: false, pid: None },
        remove_pid_files: true,
    };
    assert_eq!(status_from_probe(recorded(4242, ProbeOutcome::Failed)), stale);
    // A pid file whose text is not a pid is stale too.
    assert_eq!(status_from_probe(PidRecord::NoPid), stale);
    assert_eq!(
        status_from_probe(PidRecord::NoFile),
        StatusCheck {
            status: UsbMediaRemapStatus { running: false, pid: None },
            remove_pid_files: false
        }
    );
}

#[test]
fn liveness_probe_outcomes() {
    assert!(is_alive(ProbeOutcome::Delivered));
    assert!(is_alive(ProbeOutcome::PermissionDenied));
    assert!(!is_alive(ProbeOutcome::Failed));
}

#[test]
fn pid_text_reading() {
    assert_eq!(read_pid("1234\n"), Some(1234));
    assert_eq!(read_pid("0"), None);
    assert_eq!(read_pid("2147483648"), None);
    assert_eq!(read_pid("2147483647"), Some(2147483647));
    assert_eq!(read_pid("12ab"), None);
    assert_eq!(read_pid(""), None);
}

#[test]
fn current_pid_file_comes_before_legacy() {
    assert_eq!(recorded_pid(Some("10"), Some("20")), PidLookup::Pid(10));
    assert_eq!(recorded_pid(None, Some("20\n")), PidLookup::Pid(20));
    assert_eq!(recorded_pid(Some("junk"), Some("30")), PidLookup::Pid(30));
    assert_eq!(recorded_pid(Some("junk"), None), PidLookup::NoPid);
    assert_eq!(recorded_pid(None, Some("")), PidLookup::NoPid);
    assert_eq!(recorded_pid(None, None), PidLookup::NoFile);
}

#[test]
fn pid_paths() {
    assert_eq!(pid_path(1000), "/tmp/duo-1000/usb_media_remap.pid");
    assert_eq!(
        pid_file_candidates(0),
        vec!["/tmp/duo-0/usb_media_remap.pid".to_string(), LEGACY_PID_PATH.to_string()]
    );
}

#[test]
fn state_dir_beside_pid_file() {
    assert_eq!(base_dir_from_pid_file("/tmp/duo-1000/usb_media_remap.pid"), "/tmp/duo-1000");
    assert_eq!(base_dir_from_pid_file("/"), "/tmp");
    assert_eq!(base_dir_or_fallback(None), "/tmp");
    assert_eq!(base_dir_or_fallback(Some("/run/x".to_string())), "/run/x");
    assert_eq!(pid_file_dir("/tmp/duo/usb_media_remap.pid"), Ok("/tmp/duo".to_string()));
    assert_eq!(pid_file_dir("/"), Err(SupervisorError::InvalidPidFilePath));
}

#[test]
fn chmod_permission_denied_is_tolerated() {
    assert!(chmod_tolerated(ChmodOutcome::Done));
    assert!(chmod_tolerated(ChmodOutcome::PermissionDenied));
    assert!(!chmod_tolerated(ChmodOutcome::OtherError));
}

fn candidates(live_current: bool, live_legacy: bool) -> Vec<PidFileState> {
    let outcome = |live: bool| if live { ProbeOutcome::Delivered } else { ProbeOutcome::Failed };
    vec![
        PidFileState { path: "/tmp/duo-1000/usb_media_remap.pid".to_string(), record: probe(11, outcome(live_current)) },
        PidFileState { path: LEGACY_PID_PATH.to_string(), record: probe(22, outcome(live_legacy)) },
    ]
}

#[test]
fn running_pid_files_keeps_live_ones_in_order() {
    assert_eq!(
        running_pid_files(&candidates(true, true)),
        vec!["/tmp/duo-1000/usb_media_remap.pid".to_string(), LEGACY_PID_PATH.to_string()]
    );
    assert_eq!(running_pid_files(&candidates(false, true)), vec![LEGACY_PID_PATH.to_string()]);
    let none = vec![PidFileState { path: "/x".to_string(), record: None }];
    assert!(running_pid_files(&none).is_empty());
}

#[test]
fn stop_when_nothing_runs_is_a_no_op() {
    assert!(matches!(stop_plan(&candidates(false, false)), StopPlan::NothingToStop));
    assert!(matches!(stop_plan(&Vec::new()), StopPlan::NothingToStop));
    match stop_plan(&candidates(true, false)) {
        StopPlan::Stop(paths) => assert_eq!(paths, vec!["/tmp/duo-1000/usb_media_remap.pid".to_string()]),
        StopPlan::NothingToStop => panic!("a live daemon must be stopped"),
    }
}

#[test]
fn second_start_while_running_launches_nothing() {
    let running = UsbMediaRemapStatus { running: true, pid: Some(7) };
    assert_eq!(start_plan(&running), StartPlan::AlreadyRunning);
    let idle = UsbMediaRemapStatus { running: false, pid: None };
    assert_eq!(start_plan(&idle), StartPlan::Launch);
}

#[test]
fn broker_exit_before_running_fails_with_its_status() {
    assert_eq!(
        start_poll(false, Some(ExitReport::Failure(Some(126))), 1_500, START_TIMEOUT_MS),
        StartPoll::Failed(SupervisorError::FailedToStart(Some(126)))
    );
    assert_eq!(
        start_poll(false, Some(ExitReport::Success), 300, START_TIMEOUT_MS),
        StartPoll::Failed(SupervisorError::FailedToStart(Some(0)))
    );
}

#[test]
fn start_poll_readings() {
    assert_eq!(start_poll(true, None, 100, START_TIMEOUT_MS), StartPoll::Started);
    assert_eq!(start_poll(true, Some(ExitReport::Failure(Some(1))), 100, START_TIMEOUT_MS), StartPoll::Started);
    assert_eq!(start_poll(false, None, 100, START_TIMEOUT_MS), StartPoll::Wait);
    assert_eq!(start_poll(false, None, START_TIMEOUT_MS, START_TIMEOUT_MS), StartPoll::TimedOut);
    assert_eq!(start_poll(true, None, START_TIMEOUT_MS + 1, START_TIMEOUT_MS), StartPoll::TimedOut);
}

#[test]
fn broker_arguments() {
    assert_eq!(
        start_args("/tmp/duo-1000/usb_media_remap.pid", "alice"),
        vec![
            "--usb-media-remap-helper".to_string(),
            "--pid-file".to_string(),
            "/tmp/duo-1000/usb_media_remap.pid".to_string(),
            "--user".to_string(),
            "alice".to_string()
        ]
    );
    assert_eq!(
        stop_args("/tmp/duo/usb_media_remap.pid"),
        vec![
            "--usb-media-remap-helper".to_string(),
            "--stop".to_string(),
            "--pid-file".to_string(),
            "/tmp/duo/usb_media_remap.pid".to_string()
        ]
    );
}

#[test]
fn stop_invocation_and_settle() {
    assert_eq!(stop_invocation_result(ExitReport::Success), Ok(()));
    assert_eq!(
        stop_invocation_result(ExitReport::Failure(Some(127))),
        Err(SupervisorError::PrivilegeBrokerFailed(Some(127)))
    );
    assert!(stop_settle_continues(0, true));
    assert!(!stop_settle_continues(30, true));
    assert!(!stop_settle_continues(3, false));
}

#[test]
fn toggle_follows_status() {
    assert_eq!(toggle_action(&UsbMediaRemapStatus { running: true, pid: Some(5) }), ToggleAction::Stop);
    assert_eq!(toggle_action(&UsbMediaRemapStatus { running: false, pid: None }), ToggleAction::Start);
}
