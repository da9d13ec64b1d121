//! The machine status that the interface shows, from the status file and from
//! readings of the hardware.

use vstd::prelude::*;
use crate::keyvalue::{key_values, lookup, lookup_value, pair_views, parse_key_values};
use crate::models::{ConnectionType, DuoStatus, Orientation};
use crate::text::{contains_str, contains_text, parse_unsigned, parse_unsigned_text, same_text};

verus! {

/// What the status file does not hold, read from the hardware.
#[derive(Clone, Copy, Debug, PartialEq, Eq, Structural)]
pub struct HardwareReadings {
    pub connection_type: ConnectionType,
    pub backlight_level: u8,
    pub display_brightness: u32,
    pub max_brightness: u32,
    pub service_active: bool,
}

pub open spec fn is_true_text(v: Seq<char>) -> bool {
    v == "true"@ || v == "1"@
}

pub open spec fn is_on_text(v: Seq<char>) -> bool {
    v == "enabled"@ || v == "unblocked"@
}

pub open spec fn flag_of(pairs: Seq<(Seq<char>, Seq<char>)>, key: Seq<char>) -> bool {
    match lookup(pairs, key) {
        Some(v) => is_true_text(v),
        None => false,
    }
}

/// A radio's state: the state saved before a change where there is one, else its
/// enabled flag.
pub open spec fn radio_of(pairs: Seq<(Seq<char>, Seq<char>)>, before: Seq<char>, enabled: Seq<char>) -> bool {
    match lookup(pairs, before) {
        Some(v) => is_on_text(v),
        None => flag_of(pairs, enabled),
    }
}

pub open spec fn count_of(pairs: Seq<(Seq<char>, Seq<char>)>, key: Seq<char>) -> u32 {
    match lookup(pairs, key) {
        Some(v) => match parse_unsigned(v, u32::MAX as nat) {
            Some(n) => n as u32,
            None => 0,
        },
        None => 0,
    }
}

pub open spec fn full_status_spec(text: Seq<char>, hw: HardwareReadings) -> DuoStatus {
    let pairs = key_values(text);
    DuoStatus {
        keyboard_attached: flag_of(pairs, "KEYBOARD_ATTACHED"@),
        connection_type: hw.connection_type,
        monitor_count: count_of(pairs, "MONITOR_COUNT"@),
        wifi_enabled: radio_of(pairs, "WIFI_BEFORE"@, "WIFI_ENABLED"@),
        bluetooth_enabled: radio_of(pairs, "BLUETOOTH_BEFORE"@, "BT_ENABLED"@),
        backlight_level: hw.backlight_level,
        display_brightness: hw.display_brightness,
        max_brightness: hw.max_brightness,
        service_active: hw.service_active,
        orientation: Orientation::Normal,
    }
}

fn flag(pairs: &Vec<(String, String)>, key: &str) -> (r: bool)
    ensures
        r == flag_of(pair_views(pairs@), key@),
{
    match lookup_value(pairs, key) {
        Some(v) => same_text(v.as_str(), "true") || same_text(v.as_str(), "1"),
        None => false,
    }
}

fn radio(pairs: &Vec<(String, String)>, before: &str, enabled: &str) -> (r: bool)
    ensures
        r == radio_of(pair_views(pairs@), before@, enabled@),
{
    match lookup_value(pairs, before) {
        Some(v) => same_text(v.as_str(), "enabled") || same_text(v.as_str(), "unblocked"),
        None => flag(pairs, enabled),
    }
}

fn count(pairs: &Vec<(String, String)>, key: &str) -> (r: u32)
    ensures
        r == count_of(pair_views(pairs@), key@),
{
    match lookup_value(pairs, key) {
        Some(v) => match parse_unsigned_text(v.as_str(), u32::MAX as u128) {
            Some(n) => n as u32,
            None => 0,
        },
        None => 0,
    }
}

/// The status from the status file's text and the hardware readings.
pub fn get_full_status(status_text: &str, hw: &HardwareReadings) -> (r: DuoStatus)
    ensures
        r == full_status_spec(status_text@, *hw),
{
    let pairs = parse_key_values(status_text);
    DuoStatus {
        keyboard_attached: flag(&pairs, "KEYBOARD_ATTACHED"),
        connection_type: hw.connection_type,
        monitor_count: count(&pairs, "MONITOR_COUNT"),
        wifi_enabled: radio(&pairs, "WIFI_BEFORE", "WIFI_ENABLED"),
        bluetooth_enabled: radio(&pairs, "BLUETOOTH_BEFORE", "BT_ENABLED"),
        backlight_level: hw.backlight_level,
        display_brightness: hw.display_brightness,
        max_brightness: hw.max_brightness,
        service_active: hw.service_active,
        orientation: Orientation::Normal,
    }
}

/// A `uevent` text that names the keyboard.
pub open spec fn names_keyboard(u: Seq<char>) -> bool {
    contains_text(u, "Zenbook Duo Keyboard"@) || contains_text(u, "ASUS_DUO"@)
}

/// A keyboard `uevent` on the Bluetooth bus.
pub open spec fn is_bluetooth_uevent(u: Seq<char>) -> bool {
    contains_text(u, "HID_ID=0005:"@)
}

/// Whether a `uevent` text (or a USB product string) names the keyboard.
pub fn is_keyboard_uevent(u: &str) -> (r: bool)
    ensures
        r == names_keyboard(u@),
{
    contains_str(u, "Zenbook Duo Keyboard") || contains_str(u, "ASUS_DUO")
}

/// Whether a `uevent` text is that of a device on the Bluetooth bus.
pub fn is_bluetooth_uevent_text(u: &str) -> (r: bool)
    ensures
        r == is_bluetooth_uevent(u@),
{
    contains_str(u, "HID_ID=0005:")
}

pub open spec fn connection_spec(uevents: Seq<Seq<char>>) -> ConnectionType {
    if exists|i: int| 0 <= i < uevents.len() && names_keyboard(#[trigger] uevents[i]) && is_bluetooth_uevent(uevents[i]) {
        ConnectionType::Bluetooth
    } else if exists|i: int| 0 <= i < uevents.len() && names_keyboard(#[trigger] uevents[i]) && !is_bluetooth_uevent(uevents[i]) {
        ConnectionType::Usb
    } else {
        ConnectionType::NotConnected
    }
}

/// How the keyboard is connected, from the `uevent` texts of the hidraw nodes: a
/// Bluetooth keyboard node wins over a USB one (any other bus counts as USB).
pub fn connection_type_from_uevents(uevents: &Vec<String>) -> (r: ConnectionType)
    ensures
        r == connection_spec(uevents@.map_values(|u: String| u@)),
{
    let ghost us = uevents@.map_values(|u: String| u@);
    let mut saw_usb = false;
    let mut saw_bt = false;
    let mut i: usize = 0;
    while i < uevents.len()
        invariant
            us == uevents@.map_values(|u: String| u@),
            i <= uevents@.len(),
            saw_bt <==> exists|j: int| 0 <= j < i && names_keyboard(#[trigger] us[j]) && is_bluetooth_uevent(us[j]),
            saw_usb <==> exists|j: int| 0 <= j < i && names_keyboard(#[trigger] us[j]) && !is_bluetooth_uevent(us[j]),
        decreases uevents@.len() - i,
    {
        let u = uevents[i].as_str();
        assert(us[i as int] == u@);
        if is_keyboard_uevent(u) {
            if is_bluetooth_uevent_text(u) {
                saw_bt = true;
            } else {
                saw_usb = true;
            }
        }
        i = i + 1;
    }
    if saw_bt {
        ConnectionType::Bluetooth
    } else if saw_usb {
        ConnectionType::Usb
    } else {
        ConnectionType::NotConnected
    }
}

/// A number read from a sysfs or state file, or `default` where the text holds none.
pub fn u32_or(text: &str, default: u32) -> (r: u32)
    ensures
        r == (match parse_unsigned(text@, u32::MAX as nat) {
            Some(n) => n as u32,
            None => default,
        }),
{
    match parse_unsigned_text(text, u32::MAX as u128) {
        Some(n) => n as u32,
        None => default,
    }
}

/// The backlight level that a state file holds, 0 where it holds none.
pub fn backlight_level_from_text(text: &str) -> (r: u8)
    ensures
        r == (match parse_unsigned(text@, u8::MAX as nat) {
            Some(n) => n as u8,
            None => 0,
        }),
{
    match parse_unsigned_text(text, u8::MAX as u128) {
        Some(n) => n as u8,
        None => 0,
    }
}

} // verus!
