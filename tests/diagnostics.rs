use duo_remap::diagnostics::{
    is_event_node_name, parse_hid_id, parse_report_descriptor, validate_dev_input_event,
    validate_hid_device_id, validate_hidraw, DiagError,
};

#[test]
fn event_node_names() {
    assert!(is_event_node_name("event0"));
    assert!(is_event_node_name("event12"));
    assert!(is_event_node_name("event"));
    assert!(!is_event_node_name("event1a"));
    assert!(!is_event_node_name("mouse0"));
    assert!(!is_event_node_name("even"));
}

#[test]
fn event_paths() {
    assert_eq!(validate_dev_input_event("/dev/input/event3"), Ok(()));
    assert_eq!(validate_dev_input_event("/dev/input/event"), Err(DiagError::InvalidEventNode));
    assert_eq!(validate_dev_input_event("/dev/input/event3x"), Err(DiagError::InvalidEventNode));
    assert_eq!(validate_dev_input_event("/dev/input/mice"), Err(DiagError::NotEventPath));
    assert_eq!(validate_dev_input_event("/etc/passwd"), Err(DiagError::NotEventPath));
}

#[test]
fn hidraw_paths() {
    assert_eq!(validate_hidraw("/dev/hidraw0"), Ok(()));
    assert_eq!(validate_hidraw("/dev/hidraw"), Err(DiagError::InvalidHidrawPath));
    assert_eq!(validate_hidraw("/dev/hidraw0/../x"), Err(DiagError::InvalidHidrawPath));
    assert_eq!(validate_hidraw("/dev/input/event0"), Err(DiagError::NotHidrawPath));
}

#[test]
fn hid_device_ids() {
    assert_eq!(validate_hid_device_id("0003:0B05:1B2C.0004"), Ok(()));
    assert_eq!(validate_hid_device_id(""), Err(DiagError::EmptyHidDeviceId));
    assert_eq!(validate_hid_device_id("../x"), Err(DiagError::InvalidHidDeviceId));
    assert_eq!(validate_hid_device_id("a/b"), Err(DiagError::InvalidHidDeviceId));
    assert_eq!(validate_hid_device_id("a..b"), Err(DiagError::InvalidHidDeviceId));
}

#[test]
fn hid_id_parts() {
    assert_eq!(
        parse_hid_id("0003:00000B05:00001B2C"),
        Some(("0003".to_string(), "00000B05".to_string(), "00001B2C".to_string()))
    );
    assert_eq!(parse_hid_id("::"), Some((String::new(), String::new(), String::new())));
    assert_eq!(parse_hid_id("0003:0B05"), None);
    assert_eq!(parse_hid_id("1:2:3:4"), None);
}

#[test]
fn report_descriptor_parse() {
    let bytes = vec![0x05, 0x01, 0x85, 0x5A, 0x09, 0x85, 0x02, 0x85, 0x5A, 0x00, 0x00, 0x00];
    let d = parse_report_descriptor(&bytes);
    assert_eq!(d.len, 9);
    assert_eq!(d.hex, "0501855a098502855a");
    assert_eq!(d.report_ids, vec![0x02, 0x5A]);

    let empty = parse_report_descriptor(&vec![0, 0]);
    assert_eq!(empty.len, 0);
    assert_eq!(empty.hex, "");
    assert!(empty.report_ids.is_empty());

    // A tag in the last byte has no id after it.
    let d = parse_report_descriptor(&vec![0xFF, 0x85]);
    assert_eq!(d.hex, "ff85");
    assert!(d.report_ids.is_empty());
}

#[test]
fn uevent_pairs() {
    let pairs = duo_remap::diagnostics::parse_hid_uevent(
        "DRIVER=hid-generic\nHID_ID=0003:00000B05:00001B2C\nHID_NAME=ASUSTeK Zenbook Duo Keyboard\n",
    );
    assert_eq!(pairs.len(), 3);
    assert_eq!(pairs[1], ("HID_ID".to_string(), "0003:00000B05:00001B2C".to_string()));
}

#[test]
fn hid_id_parts_match_ignoring_zeros_and_case() {
    let m = duo_remap::diagnostics::hid_id_part_matches;
    assert!(m("00000B05", " 0b05 "));
    assert!(m("0B05", "b05"));
    assert!(m("00001B2C", "1B2C"));
    assert!(!m("00001B2C", "1b2d"));
    assert!(!m("0B05", ""));
    assert!(m("0000", "0"));
    assert!(!m("0B05", "0B050"));
}
