use duo_remap::keyvalue::{lookup_value, parse_key_values};
use duo_remap::models::{ConnectionType, DuoStatus, Orientation};
use duo_remap::status::{
    backlight_level_from_text, connection_type_from_uevents, is_bluetooth_uevent_text,
    is_keyboard_uevent, get_full_status, u32_or,
    HardwareReadings,
};

fn readings() -> HardwareReadings {
    HardwareReadings {
        connection_type: ConnectionType::Usb,
        backlight_level: 2,
        display_brightness: 400,
        max_brightness: 1000,
        service_active: true,
    }
}

#[test]
fn key_values_in_order_and_trimmed() {
    let pairs = parse_key_values(" A = 1 \r\nno pair here\nB==x\n\nA=2");
    assert_eq!(
        pairs,
        vec![
            ("A".to_string(), "1".to_string()),
            ("B".to_string(), "=x".to_string()),
            ("A".to_string(), "2".to_string())
        ]
    );
    assert_eq!(lookup_value(&pairs, "A"), Some("2".to_string()));
    assert_eq!(lookup_value(&pairs, "B"), Some("=x".to_string()));
    assert_eq!(lookup_value(&pairs, "C"), None);
    assert!(parse_key_values("").is_empty());
    assert_eq!(parse_key_values("K=v\r"), vec![("K".to_string(), "v".to_string())]);
}

#[test]
fn full_status_from_file() {
    let text = "KEYBOARD_ATTACHED=true\nMONITOR_COUNT=2\nWIFI_BEFORE=unblocked\nWIFI_ENABLED=0\nBT_ENABLED=1\n";
    let s = get_full_status(text, &readings());
    assert_eq!(
        s,
        DuoStatus {
            keyboard_attached: true,
            connection_type: ConnectionType::Usb,
            monitor_count: 2,
            wifi_enabled: true,
            bluetooth_enabled: true,
            backlight_level: 2,
            display_brightness: 400,
            max_brightness: 1000,
            service_active: true,
            orientation: Orientation::Normal,
        }
    );
}

#[test]
fn full_status_defaults() {
    let s = get_full_status("", &readings());
    assert!(!s.keyboard_attached);
    assert_eq!(s.monitor_count, 0);
    assert!(!s.wifi_enabled);
    assert!(!s.bluetooth_enabled);
    let s = get_full_status("WIFI_BEFORE=blocked\nWIFI_ENABLED=true\nMONITOR_COUNT=x\nKEYBOARD_ATTACHED=1", &readings());
    assert!(!s.wifi_enabled);
    assert_eq!(s.monitor_count, 0);
    assert!(s.keyboard_attached);
}

#[test]
fn connection_from_uevents() {
    let usb = "DRIVER=hid-generic\nHID_ID=0003:00000B05:00001B2C\nHID_NAME=ASUSTeK Zenbook Duo Keyboard\n".to_string();
    let bt = "HID_ID=0005:00000B05:00001B2D\nHID_NAME=ASUS_DUO\n".to_string();
    let other = "HID_ID=0003:0000046D:0000C52B\nHID_NAME=Logitech\n".to_string();
    assert_eq!(connection_type_from_uevents(&vec![other.clone()]), ConnectionType::NotConnected);
    assert_eq!(connection_type_from_uevents(&vec![other.clone(), usb.clone()]), ConnectionType::Usb);
    assert_eq!(connection_type_from_uevents(&vec![usb, bt, other]), ConnectionType::Bluetooth);
    assert_eq!(connection_type_from_uevents(&Vec::new()), ConnectionType::NotConnected);
}

#[test]
fn numbers_from_sysfs_text() {
    assert_eq!(u32_or("512\n", 0), 512);
    assert_eq!(u32_or("", 1), 1);
    assert_eq!(backlight_level_from_text("3\n"), 3);
    assert_eq!(backlight_level_from_text("300"), 0);
}

#[test]
fn keyboard_uevent_texts() {
    assert!(is_keyboard_uevent("HID_NAME=ASUSTeK Zenbook Duo Keyboard"));
    assert!(is_keyboard_uevent("ASUS_DUO"));
    assert!(!is_keyboard_uevent("HID_NAME=Logitech"));
    assert!(is_bluetooth_uevent_text("HID_ID=0005:00000B05:00001B2D"));
    assert!(!is_bluetooth_uevent_text("HID_ID=0003:00000B05:00001B2C"));
}
