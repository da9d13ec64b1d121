use duo_remap::diagnostics::{decode_input_events, EvdevEvent};
use duo_remap::events::{create_event_buffer, get_recent_events, push_event, HardwareEvent, EVENT_BUFFER_CAPACITY};
use duo_remap::models::{EventCategory, EventSeverity};

fn ev(i: i64) -> HardwareEvent {
    HardwareEvent::info(i, EventCategory::Usb, format!("event {i}"), "test".to_string())
}

#[test]
fn constructors_set_severity() {
    let e = HardwareEvent::warning(5, EventCategory::Display, "m".to_string(), "s".to_string());
    assert_eq!(e.severity, EventSeverity::Warning);
    assert_eq!(e.timestamp_ms, 5);
    assert_eq!(e.category, EventCategory::Display);
    assert_eq!(e.message, "m");
    assert_eq!(e.source, "s");
    assert_eq!(HardwareEvent::error(0, EventCategory::Service, String::new(), String::new()).severity, EventSeverity::Error);
    assert_eq!(ev(1).severity, EventSeverity::Info);
}

#[test]
fn buffer_keeps_newest_in_order() {
    let mut b = create_event_buffer();
    assert!(get_recent_events(&b, 10).is_empty());
    for i in 0..3 {
        push_event(&mut b, ev(i));
    }
    let r = get_recent_events(&b, 2);
    assert_eq!(r.iter().map(|e| e.timestamp_ms).collect::<Vec<_>>(), vec![1, 2]);
    let r = get_recent_events(&b, 10);
    assert_eq!(r.iter().map(|e| e.timestamp_ms).collect::<Vec<_>>(), vec![0, 1, 2]);
    assert!(get_recent_events(&b, 0).is_empty());
}

#[test]
fn full_buffer_drops_oldest() {
    let mut b = create_event_buffer();
    for i in 0..(EVENT_BUFFER_CAPACITY as i64 + 2) {
        push_event(&mut b, ev(i));
    }
    let all = get_recent_events(&b, usize::MAX);
    assert_eq!(all.len(), EVENT_BUFFER_CAPACITY);
    assert_eq!(all[0].timestamp_ms, 2);
    assert_eq!(all[EVENT_BUFFER_CAPACITY - 1].timestamp_ms, EVENT_BUFFER_CAPACITY as i64 + 1);
}

fn record(sec: i64, usec: i64, ty: u16, code: u16, value: i32) -> Vec<u8> {
    let mut v = Vec::new();
    v.extend_from_slice(&sec.to_le_bytes());
    v.extend_from_slice(&usec.to_le_bytes());
    v.extend_from_slice(&ty.to_le_bytes());
    v.extend_from_slice(&code.to_le_bytes());
    v.extend_from_slice(&value.to_le_bytes());
    v
}

#[test]
fn decodes_input_event_records() {
    let mut buf = record(1_700_000_000, 123_456, 1, 60, 1);
    buf.extend(record(-1, 999_999, 0, 0, 0));
    buf.extend(record(3, 4, 4, 4, -458_811));
    buf.extend_from_slice(&[1, 2, 3]);
    let evs = decode_input_events(&buf);
    assert_eq!(
        evs,
        vec![
            EvdevEvent { ts_sec: 1_700_000_000, ts_usec: 123_456, type_code: 1, code: 60, value: 1 },
            EvdevEvent { ts_sec: -1, ts_usec: 999_999, type_code: 0, code: 0, value: 0 },
            EvdevEvent { ts_sec: 3, ts_usec: 4, type_code: 4, code: 4, value: -458_811 },
        ]
    );
    assert!(decode_input_events(&vec![0u8; 23]).is_empty());
}
