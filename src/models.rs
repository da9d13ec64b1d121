//! Values that the user interface shows and stores.

use vstd::prelude::*;

verus! {

/// How the keyboard is connected.
#[derive(Clone, Copy, Debug, PartialEq, Eq, Structural)]
pub enum ConnectionType {
    Usb,
    Bluetooth,
    NotConnected,
}

/// Screen orientation.
#[derive(Clone, Copy, Debug, PartialEq, Eq, Structural)]
pub enum Orientation {
    Normal,
    Left,
    Right,
    Inverted,
}

/// Colour theme of the interface.
#[derive(Clone, Copy, Debug, PartialEq, Eq, Structural)]
pub enum ThemePreference {
    System,
    Light,
    Dark,
}

/// What a hardware event concerns.
#[derive(Clone, Copy, Debug, PartialEq, Eq, Structural)]
pub enum EventCategory {
    Usb,
    Display,
    Keyboard,
    Network,
    Rotation,
    Bluetooth,
    Service,
}

/// How serious a hardware event is.
#[derive(Clone, Copy, Debug, PartialEq, Eq, Structural)]
pub enum EventSeverity {
    Info,
    Warning,
    Error,
}

/// The state of the machine as the interface shows it.
#[derive(Clone, Copy, Debug, PartialEq, Eq, Structural)]
pub struct DuoStatus {
    pub keyboard_attached: bool,
    pub connection_type: ConnectionType,
    pub monitor_count: u32,
    pub wifi_enabled: bool,
    pub bluetooth_enabled: bool,
    pub backlight_level: u8,
    pub display_brightness: u32,
    pub max_brightness: u32,
    pub service_active: bool,
    pub orientation: Orientation,
}

impl Default for ConnectionType {
    fn default() -> (r: ConnectionType)
        ensures
            r == ConnectionType::NotConnected,
    {
        ConnectionType::NotConnected
    }
}

impl Default for Orientation {
    fn default() -> (r: Orientation)
        ensures
            r == Orientation::Normal,
    {
        Orientation::Normal
    }
}

impl Default for ThemePreference {
    fn default() -> (r: ThemePreference)
        ensures
            r == ThemePreference::System,
    {
        ThemePreference::System
    }
}

pub open spec fn duo_arg_spec(o: Orientation) -> Seq<char> {
    match o {
        Orientation::Normal => "normal"@,
        Orientation::Left => "left-up"@,
        Orientation::Right => "right-up"@,
        Orientation::Inverted => "bottom-up"@,
    }
}

impl Orientation {
    /// The orientation as the display tool names it.
    pub fn as_duo_arg(&self) -> (r: &'static str)
        ensures
            r@ == duo_arg_spec(*self),
    {
        match self {
            Orientation::Normal => "normal",
            Orientation::Left => "left-up",
            Orientation::Right => "right-up",
            Orientation::Inverted => "bottom-up",
        }
    }
}

/// The backlight level that settings start with.
pub fn default_backlight() -> (r: u8)
    ensures
        r == 3,
{
    3
}

/// Whether the remapper is enabled in fresh settings.
pub fn default_usb_media_remap_enabled() -> (r: bool)
    ensures
        r,
{
    true
}

} // verus!
