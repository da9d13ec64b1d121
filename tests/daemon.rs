use duo_remap::daemon::{
    after_startup_step, check_not_running, find_keyboard_device, first_startup_step, is_keyboard_entry, parse_args, pid_file_text,
    pid_to_stop, select_device, stop_wait_step, DaemonError, StartupNext, StartupStep,
    StopWaitStep,
};
use duo_remap::pidfile::{PidProbe, ProbeOutcome};

fn strings(v: &[&str]) -> Vec<String> {
    v.iter().map(|s| s.to_string()).collect()
}

#[test]
fn no_matching_device_is_device_not_found() {
    let names = strings(&["usb-Logitech_USB_Receiver-event-kbd", "usb-ASUSTeK_Zenbook_Duo_Keyboard-if02-event-mouse"]);
    assert_eq!(select_device(&None, &names), Err(DaemonError::DeviceNotFound));
    assert_eq!(select_device(&None, &Vec::new()), Err(DaemonError::DeviceNotFound));
}

#[test]
fn first_keyboard_entry_wins() {
    let names = strings(&[
        "usb-Other-event-kbd",
        "usb-ASUSTeK_Computer_Inc._ASUS_Zenbook_Duo_Keyboard-event-kbd",
        "usb-ASUSTeK_Zenbook_Duo_Keyboard-if01-event-kbd",
    ]);
    assert_eq!(find_keyboard_device(&names), Some(1));
    assert_eq!(
        select_device(&None, &names),
        Ok("/dev/input/by-id/usb-ASUSTeK_Computer_Inc._ASUS_Zenbook_Duo_Keyboard-event-kbd".to_string())
    );
    assert_eq!(
        select_device(&Some("/dev/input/event7".to_string()), &names),
        Ok("/dev/input/event7".to_string())
    );
}

#[test]
fn keyboard_entry_names() {
    assert!(is_keyboard_entry("usb-Zenbook_Duo_Keyboard-event-kbd"));
    assert!(!is_keyboard_entry("usb-Zenbook_Duo_Keyboard-event-kbd-extra"));
    assert!(!is_keyboard_entry("usb-Zenbook_Duo-event-kbd"));
    assert!(!is_keyboard_entry(""));
}

#[test]
fn live_pid_refuses_startup() {
    assert_eq!(
        check_not_running(Some(PidProbe { pid: 321, probe: ProbeOutcome::Delivered })),
        Err(DaemonError::AlreadyRunning(321))
    );
    assert_eq!(check_not_running(Some(PidProbe { pid: 321, probe: ProbeOutcome::Failed })), Ok(()));
    assert_eq!(check_not_running(None), Ok(()));
}

#[test]
fn args_defaults_and_flags() {
    let a = parse_args(&Vec::new(), 1000);
    assert_eq!(a.pid_file, "/tmp/duo-1000/usb_media_remap.pid");
    assert_eq!(a.user, None);
    assert_eq!(a.device, None);
    assert!(!a.stop);

    let a = parse_args(
        &strings(&["--usb-media-remap-helper", "--pid-file", "/tmp/p.pid", "--user", "bob", "--device", "/dev/input/event3", "--stop"]),
        0,
    );
    assert_eq!(a.pid_file, "/tmp/p.pid");
    assert_eq!(a.user, Some("bob".to_string()));
    assert_eq!(a.device, Some("/dev/input/event3".to_string()));
    assert!(a.stop);

    let a = parse_args(&strings(&["--user"]), 5);
    assert_eq!(a.user, None);
    assert_eq!(a.pid_file, "/tmp/duo-5/usb_media_remap.pid");
}

#[test]
fn pid_file_contents() {
    assert_eq!(pid_file_text(4242), "4242");
    assert_eq!(pid_to_stop("4242\n"), Ok(4242));
    assert_eq!(pid_to_stop("x"), Err(DaemonError::InvalidPidFileContents));
}

#[test]
fn stop_waits_then_kills() {
    assert_eq!(stop_wait_step(false, 100), StopWaitStep::Exited);
    assert_eq!(stop_wait_step(true, 100), StopWaitStep::Wait);
    assert_eq!(stop_wait_step(true, 2000), StopWaitStep::ForceKill);
    assert_eq!(stop_wait_step(false, 2500), StopWaitStep::Exited);
}

/// Runs the startup steps with the given outcomes and lists the steps performed.
fn run_startup(outcomes: &[Result<(), DaemonError>]) -> (Vec<StartupStep>, StartupNext) {
    let mut performed = Vec::new();
    let mut step = first_startup_step();
    for outcome in outcomes {
        performed.push(step);
        match after_startup_step(step, *outcome) {
            StartupNext::Do(next) => step = next,
            end => return (performed, end),
        }
    }
    (performed, StartupNext::Do(step))
}

#[test]
fn startup_runs_steps_in_order_pid_file_last() {
    let (steps, end) = run_startup(&[Ok(()); 6]);
    assert_eq!(
        steps,
        vec![
            StartupStep::CheckPidFile,
            StartupStep::FindDevice,
            StartupStep::GrabDevice,
            StartupStep::CreateVirtualDevice,
            StartupStep::InstallSignalHandlers,
            StartupStep::WritePidFile
        ]
    );
    assert_eq!(end, StartupNext::Run);
}

#[test]
fn no_device_writes_no_pid_file() {
    let (steps, end) = run_startup(&[Ok(()), Err(DaemonError::DeviceNotFound), Ok(()), Ok(()), Ok(()), Ok(())]);
    assert_eq!(end, StartupNext::Fail(DaemonError::DeviceNotFound));
    assert_eq!(steps, vec![StartupStep::CheckPidFile, StartupStep::FindDevice]);
}

#[test]
fn failed_grab_creates_nothing() {
    let (steps, end) = run_startup(&[Ok(()), Ok(()), Err(DaemonError::GrabFailed), Ok(()), Ok(()), Ok(())]);
    assert_eq!(end, StartupNext::Fail(DaemonError::GrabFailed));
    assert!(!steps.contains(&StartupStep::CreateVirtualDevice));
    assert!(!steps.contains(&StartupStep::WritePidFile));
}

#[test]
fn live_daemon_stops_startup_first() {
    let (steps, end) = run_startup(&[Err(DaemonError::AlreadyRunning(9)), Ok(())]);
    assert_eq!(end, StartupNext::Fail(DaemonError::AlreadyRunning(9)));
    assert_eq!(steps, vec![StartupStep::CheckPidFile]);
}
