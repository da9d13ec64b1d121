use duo_remap::hotkey::{BridgeError, HotkeyOutcome, HotkeyState};
use duo_remap::models::{default_backlight, default_usb_media_remap_enabled, ConnectionType, Orientation, ThemePreference};

#[test]
fn apply_releases_previous_binding_first() {
    let mut s = HotkeyState::new();
    let step = s.set_usb_media_remap_hotkey(true, "  Ctrl+Alt+M ", false);
    assert_eq!(step.unregister, None);
    match step.outcome {
        HotkeyOutcome::Register(a) => {
            assert_eq!(a, "Ctrl+Alt+M");
            s.confirm_registration(a);
        }
        _ => panic!("expected a registration"),
    }
    assert_eq!(s.active(), Some("Ctrl+Alt+M".to_string()));

    let step = s.set_usb_media_remap_hotkey(false, "Ctrl+Alt+M", false);
    assert_eq!(step.unregister, Some("Ctrl+Alt+M".to_string()));
    assert!(matches!(step.outcome, HotkeyOutcome::Disabled));
    assert_eq!(s.active(), None);
}

#[test]
fn apply_refusals() {
    let mut s = HotkeyState::new();
    s.confirm_registration("Super+K".to_string());
    let step = s.set_usb_media_remap_hotkey(true, "Super+K", true);
    assert_eq!(step.unregister, Some("Super+K".to_string()));
    assert!(matches!(step.outcome, HotkeyOutcome::Rejected(BridgeError::UnsupportedSessionProtocol)));
    let step = s.set_usb_media_remap_hotkey(true, "   ", false);
    assert_eq!(step.unregister, None);
    assert!(matches!(step.outcome, HotkeyOutcome::Rejected(BridgeError::EmptyAccelerator)));
    let step = s.set_usb_media_remap_hotkey(false, "", true);
    assert!(matches!(step.outcome, HotkeyOutcome::Disabled));
}

#[test]
fn model_defaults_and_names() {
    assert_eq!(Orientation::Normal.as_duo_arg(), "normal");
    assert_eq!(Orientation::Left.as_duo_arg(), "left-up");
    assert_eq!(Orientation::Right.as_duo_arg(), "right-up");
    assert_eq!(Orientation::Inverted.as_duo_arg(), "bottom-up");
    assert_eq!(Orientation::default(), Orientation::Normal);
    assert_eq!(ConnectionType::default(), ConnectionType::NotConnected);
    assert_eq!(ThemePreference::default(), ThemePreference::System);
    assert_eq!(default_backlight(), 3);
    assert!(default_usb_media_remap_enabled());
}
