use duo_remap::backlight::{backlight_report, counter_from_files, cycle_from_files, cycle_step, BacklightCounter};
use duo_remap::text::{decimal_text, parse_unsigned_text};

#[test]
fn two_presses_within_debounce_step_once() {
    let c0 = BacklightCounter { last_trigger_ms: None, level: 1 };
    let c1 = cycle_step(&c0, 10_000).expect("first press steps");
    assert_eq!(c1, BacklightCounter { last_trigger_ms: Some(10_000), level: 2 });
    assert_eq!(cycle_step(&c1, 10_599), None);
    assert_eq!(cycle_step(&c1, 10_000), None);
}

#[test]
fn two_presses_apart_step_twice_and_wrap() {
    let c0 = BacklightCounter { last_trigger_ms: Some(1_000), level: 2 };
    let c1 = cycle_step(&c0, 5_000).expect("first press steps");
    assert_eq!(c1.level, 3);
    let c2 = cycle_step(&c1, 5_600).expect("second press steps");
    assert_eq!(c2, BacklightCounter { last_trigger_ms: Some(5_600), level: 0 });
}

#[test]
fn clock_going_back_is_debounced() {
    let c = BacklightCounter { last_trigger_ms: Some(50_000), level: 0 };
    assert_eq!(cycle_step(&c, 1_000), None);
}

#[test]
fn counter_from_missing_or_bad_files() {
    assert_eq!(
        counter_from_files("", ""),
        BacklightCounter { last_trigger_ms: None, level: 0 }
    );
    assert_eq!(
        counter_from_files("abc", "7x"),
        BacklightCounter { last_trigger_ms: None, level: 0 }
    );
    assert_eq!(
        counter_from_files(" 1700000000123\n", "2\n"),
        BacklightCounter { last_trigger_ms: Some(1_700_000_000_123), level: 2 }
    );
}

#[test]
fn cycle_from_files_writes_texts() {
    let w = cycle_from_files("1000", "3", 2000).expect("steps");
    assert_eq!(w.counter, BacklightCounter { last_trigger_ms: Some(2000), level: 0 });
    assert_eq!(w.stamp_text, "2000");
    assert_eq!(w.level_text, "0");
    assert!(cycle_from_files("1000", "3", 1599).is_none());
}

#[test]
fn level_text_round_trip() {
    for level in 0u8..4 {
        let t = decimal_text(level as u128);
        let back = counter_from_files("", &t);
        assert_eq!(back.level, level);
    }
    let t = decimal_text(u128::MAX);
    assert_eq!(parse_unsigned_text(&t, u128::MAX), Some(u128::MAX));
}

#[test]
fn parse_unsigned_edges() {
    assert_eq!(parse_unsigned_text("+42", 100), Some(42));
    assert_eq!(parse_unsigned_text("\t 7 \n", 100), Some(7));
    assert_eq!(parse_unsigned_text("101", 100), None);
    assert_eq!(parse_unsigned_text("+", 100), None);
    assert_eq!(parse_unsigned_text("-1", 100), None);
    assert_eq!(parse_unsigned_text("1 2", 100), None);
    assert_eq!(parse_unsigned_text("", 100), None);
    assert_eq!(parse_unsigned_text("0", 0), Some(0));
    assert_eq!(parse_unsigned_text("340282366920938463463374607431768211456", u128::MAX), None);
    assert_eq!(parse_unsigned_text("\u{a0}9\u{3000}", 100), Some(9));
}

#[test]
fn decimal_text_is_decimal() {
    assert_eq!(decimal_text(0), "0");
    assert_eq!(decimal_text(600), "600");
}

#[test]
fn backlight_report_layout() {
    assert_eq!(
        backlight_report(2),
        vec![0x5A, 0xBA, 0xC5, 0xC4, 2, 0, 0, 0, 0, 0, 0, 0, 0, 0, 0, 0]
    );
    assert_eq!(backlight_report(9)[4], 3);
}
