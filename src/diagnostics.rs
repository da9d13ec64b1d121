//! Checks on the device paths and identifiers that the diagnostics views accept,
//! so that only event nodes, hidraw nodes and plain sysfs names reach the system.

use vstd::prelude::*;
use crate::keyvalue::{key_values, pair_views, parse_key_values};
use crate::text::{all_digits, contains_str, contains_text, occurs_at, matches_at, trim, trim_bounds};

verus! {

/// Why a diagnostics path or identifier was refused.
#[derive(Clone, Copy, Debug, PartialEq, Eq, Structural)]
pub enum DiagError {
    /// Not under `/dev/input/event`.
    NotEventPath,
    /// `/dev/input/event` not followed by a node number.
    InvalidEventNode,
    /// Not under `/dev/hidraw`.
    NotHidrawPath,
    /// `/dev/hidraw` not followed by a node number.
    InvalidHidrawPath,
    EmptyHidDeviceId,
    /// A device id that could leave its directory.
    InvalidHidDeviceId,
}

pub const EVENT_PREFIX: &'static str = "event";

pub const DEV_INPUT_EVENT_PREFIX: &'static str = "/dev/input/event";

pub const DEV_HIDRAW_PREFIX: &'static str = "/dev/hidraw";

pub open spec fn starts_with_text(s: Seq<char>, p: Seq<char>) -> bool {
    occurs_at(s, p, 0)
}

/// What follows the prefix `p` in `s`.
pub open spec fn after_prefix(s: Seq<char>, p: Seq<char>) -> Seq<char> {
    s.subrange(p.len() as int, s.len() as int)
}

/// Whether the characters of `s` from position `from` on are all decimal digits.
fn digits_from(s: &str, from: usize) -> (r: bool)
    requires
        from <= s@.len(),
    ensures
        r == all_digits(s@.subrange(from as int, s@.len() as int)),
{
    let n = s.unicode_len();
    let mut i: usize = from;
    while i < n
        invariant
            n == s@.len(),
            from <= i <= n,
            forall|j: int| from <= j < i ==> crate::text::is_digit(#[trigger] s@[j]),
        decreases n - i,
    {
        let c = s.get_char(i);
        if !((c as u32) >= 48 && (c as u32) <= 57) {
            assert(!crate::text::is_digit(s@.subrange(from as int, n as int)[i - from]));
            return false;
        }
        i = i + 1;
    }
    assert forall|j: int| 0 <= j < n - from implies #[trigger] crate::text::is_digit(
        s@.subrange(from as int, n as int)[j],
    ) by {
        assert(s@.subrange(from as int, n as int)[j] == s@[from + j]);
    }
    true
}

/// An event node's name: `event` followed only by digits.
pub open spec fn is_event_node_name_spec(name: Seq<char>) -> bool {
    starts_with_text(name, EVENT_PREFIX@) && all_digits(after_prefix(name, EVENT_PREFIX@))
}

/// Whether `name` is the name of an input event node.
pub fn is_event_node_name(name: &str) -> (r: bool)
    ensures
        r == is_event_node_name_spec(name@),
{
    if !matches_at(name, EVENT_PREFIX, 0) {
        return false;
    }
    digits_from(name, EVENT_PREFIX.unicode_len())
}

/// A node path: `prefix` then a non-empty node number.
pub open spec fn node_path_result(path: Seq<char>, prefix: Seq<char>, not_under: DiagError, bad_node: DiagError) -> Result<(), DiagError> {
    if !starts_with_text(path, prefix) {
        Err(not_under)
    } else if after_prefix(path, prefix).len() == 0 || !all_digits(after_prefix(path, prefix)) {
        Err(bad_node)
    } else {
        Ok(())
    }
}

fn check_node_path(path: &str, prefix: &str, not_under: DiagError, bad_node: DiagError) -> (r: Result<(), DiagError>)
    ensures
        r == node_path_result(path@, prefix@, not_under, bad_node),
{
    if !matches_at(path, prefix, 0) {
        return Err(not_under);
    }
    let n = path.unicode_len();
    let m = prefix.unicode_len();
    if n == m || !digits_from(path, m) {
        return Err(bad_node);
    }
    Ok(())
}

/// Accepts only `/dev/input/event<N>`.
pub fn validate_dev_input_event(path: &str) -> (r: Result<(), DiagError>)
    ensures
        r == node_path_result(path@, DEV_INPUT_EVENT_PREFIX@, DiagError::NotEventPath, DiagError::InvalidEventNode),
{
    check_node_path(path, DEV_INPUT_EVENT_PREFIX, DiagError::NotEventPath, DiagError::InvalidEventNode)
}

/// Accepts only `/dev/hidraw<N>`.
pub fn validate_hidraw(path: &str) -> (r: Result<(), DiagError>)
    ensures
        r == node_path_result(path@, DEV_HIDRAW_PREFIX@, DiagError::NotHidrawPath, DiagError::InvalidHidrawPath),
{
    check_node_path(path, DEV_HIDRAW_PREFIX, DiagError::NotHidrawPath, DiagError::InvalidHidrawPath)
}

/// Accepts a HID device id that names one entry of its directory: not empty, no
/// `/`, no `..`.
pub fn validate_hid_device_id(id: &str) -> (r: Result<(), DiagError>)
    ensures
        id@.len() == 0 ==> r == Err::<(), DiagError>(DiagError::EmptyHidDeviceId),
        id@.len() > 0 && (contains_text(id@, "/"@) || contains_text(id@, ".."@)) ==> r == Err::<
            (),
            DiagError,
        >(DiagError::InvalidHidDeviceId),
        id@.len() > 0 && !contains_text(id@, "/"@) && !contains_text(id@, ".."@) ==> r is Ok,
{
    if id.unicode_len() == 0 {
        return Err(DiagError::EmptyHidDeviceId);
    }
    if contains_str(id, "/") || contains_str(id, "..") {
        return Err(DiagError::InvalidHidDeviceId);
    }
    Ok(())
}

pub open spec fn colon_count(s: Seq<char>) -> nat
    decreases s.len(),
{
    if s.len() == 0 {
        0
    } else {
        colon_count(s.drop_last()) + if s.last() == ':' {
            1nat
        } else {
            0nat
        }
    }
}

/// A HID id split at its colons: bus, vendor and product, where there are exactly
/// three parts.
pub open spec fn hid_id_parts(s: Seq<char>, i: int, j: int) -> bool {
    0 <= i < j < s.len() && s[i] == ':' && s[j] == ':' && colon_count(s) == 2
}

proof fn lemma_colon_count_prefix(s: Seq<char>, k: int)
    requires
        0 <= k < s.len(),
    ensures
        colon_count(s.subrange(0, k + 1)) == colon_count(s.subrange(0, k)) + if s[k] == ':' {
            1nat
        } else {
            0nat
        },
{
    assert(s.subrange(0, k + 1).drop_last() =~= s.subrange(0, k));
}

/// Splits a `HID_ID` value such as `0003:00000B05:00001B2C` into its three parts.
pub fn parse_hid_id(hid_id: &str) -> (r: Option<(String, String, String)>)
    ensures
        match r {
            Some((a, b, c)) => exists|i: int, j: int|
                hid_id_parts(hid_id@, i, j) && a@ == hid_id@.subrange(0, i) && b@ == hid_id@.subrange(i + 1, j)
                    && c@ == hid_id@.subrange(j + 1, hid_id@.len() as int),
            None => colon_count(hid_id@) != 2,
        },
{
    let n = hid_id.unicode_len();
    let mut count: usize = 0;
    let mut first: usize = 0;
    let mut second: usize = 0;
    let mut k: usize = 0;
    while k < n
        invariant
            n == hid_id@.len(),
            k <= n,
            count as nat == colon_count(hid_id@.subrange(0, k as int)),
            count >= 1 ==> first < k && hid_id@[first as int] == ':' && colon_count(hid_id@.subrange(0, first as int)) == 0,
            count >= 2 ==> first < second < k && hid_id@[second as int] == ':' && colon_count(hid_id@.subrange(0, second as int)) == 1,
            count <= k,
        decreases n - k,
    {
        proof {
            lemma_colon_count_prefix(hid_id@, k as int);
        }
        if hid_id.get_char(k) == ':' {
            if count == 0 {
                first = k;
            } else if count == 1 {
                second = k;
            }
            count = count + 1;
        }
        k = k + 1;
    }
    assert(hid_id@.subrange(0, n as int) =~= hid_id@);
    if count != 2 {
        return None;
    }
    let a = String::from_str(hid_id.substring_char(0, first));
    let b = String::from_str(hid_id.substring_char(first + 1, second));
    let c = String::from_str(hid_id.substring_char(second + 1, n));
    assert(hid_id_parts(hid_id@, first as int, second as int));
    Some((a, b, c))
}

/// Prefix byte of a report-id item in a HID report descriptor.
pub const REPORT_ID_TAG: u8 = 0x85;

/// A report descriptor as the diagnostics view shows it.
#[derive(Clone, Debug)]
pub struct ReportDescriptor {
    pub len: usize,
    pub hex: String,
    pub report_ids: Vec<u8>,
}

/// The descriptor without the zero padding at its end.
pub open spec fn without_trailing_zeros(b: Seq<u8>) -> Seq<u8>
    decreases b.len(),
{
    if b.len() > 0 && b.last() == 0 {
        without_trailing_zeros(b.drop_last())
    } else {
        b
    }
}

/// The report ids that a scan from position `i` finds: a report-id tag with a
/// byte after it names that byte, and the scan goes on after both.
pub open spec fn report_ids_from(b: Seq<u8>, i: int) -> Set<u8>
    decreases b.len() - i,
{
    if i < 0 || i + 1 >= b.len() {
        Set::empty()
    } else if b[i] == REPORT_ID_TAG {
        report_ids_from(b, i + 2).insert(b[i + 1])
    } else {
        report_ids_from(b, i + 1)
    }
}

pub open spec fn hex_digit(d: int) -> char {
    if d < 10 {
        (('0' as int) + d) as char
    } else {
        (('a' as int) + d - 10) as char
    }
}

/// Two lowercase hex digits per byte.
pub open spec fn hex_spec(b: Seq<u8>) -> Seq<char>
    decreases b.len(),
{
    if b.len() == 0 {
        Seq::empty()
    } else {
        hex_spec(b.drop_last()) + seq![hex_digit((b.last() / 16) as int), hex_digit((b.last() % 16) as int)]
    }
}

/// The text of one lowercase hex digit.
fn hex_digit_text(d: u8) -> (r: &'static str)
    requires
        d < 16,
    ensures
        r@ == seq![hex_digit(d as int)],
{
    match d {
        0 => {
            proof {
                reveal_strlit("0");
            }
            "0"
        },
        1 => {
            proof {
                reveal_strlit("1");
            }
            "1"
        },
        2 => {
            proof {
                reveal_strlit("2");
            }
            "2"
        },
        3 => {
            proof {
                reveal_strlit("3");
            }
            "3"
        },
        4 => {
            proof {
                reveal_strlit("4");
            }
            "4"
        },
        5 => {
            proof {
                reveal_strlit("5");
            }
            "5"
        },
        6 => {
            proof {
                reveal_strlit("6");
            }
            "6"
        },
        7 => {
            proof {
                reveal_strlit("7");
            }
            "7"
        },
        8 => {
            proof {
                reveal_strlit("8");
            }
            "8"
        },
        9 => {
            proof {
                reveal_strlit("9");
            }
            "9"
        },
        10 => {
            proof {
                reveal_strlit("a");
            }
            "a"
        },
        11 => {
            proof {
                reveal_strlit("b");
            }
            "b"
        },
        12 => {
            proof {
                reveal_strlit("c");
            }
            "c"
        },
        13 => {
            proof {
                reveal_strlit("d");
            }
            "d"
        },
        14 => {
            proof {
                reveal_strlit("e");
            }
            "e"
        },
        _ => {
            proof {
                reveal_strlit("f");
            }
            "f"
        },
    }
}

/// The two lowercase hex digits of a byte.
fn hex_byte(b: u8) -> (r: String)
    ensures
        r@ == seq![hex_digit((b / 16) as int), hex_digit((b % 16) as int)],
{
    let r = String::from_str(hex_digit_text(b / 16)).concat(hex_digit_text(b % 16));
    assert(r@ =~= seq![hex_digit((b / 16) as int), hex_digit((b % 16) as int)]);
    r
}

/// Reads a report descriptor: the zero padding at its end is dropped, the rest is
/// shown in hex, and its report ids are listed once each, in increasing order.
pub fn parse_report_descriptor(bytes: &Vec<u8>) -> (r: ReportDescriptor)
    ensures
        r.len == without_trailing_zeros(bytes@).len(),
        r.hex@ == hex_spec(without_trailing_zeros(bytes@)),
        forall|i: int, j: int| 0 <= i < j < r.report_ids@.len() ==> r.report_ids@[i] < r.report_ids@[j],
        forall|x: u8| r.report_ids@.contains(x) <==> report_ids_from(without_trailing_zeros(bytes@), 0).contains(x),
{
    let mut end: usize = bytes.len();
    assert(bytes@.subrange(0, end as int) =~= bytes@);
    while end > 0 && bytes[end - 1] == 0
        invariant
            end <= bytes@.len(),
            without_trailing_zeros(bytes@) == without_trailing_zeros(bytes@.subrange(0, end as int)),
        decreases end,
    {
        assert(bytes@.subrange(0, end as int).drop_last() =~= bytes@.subrange(0, end - 1));
        end = end - 1;
    }
    let ghost t = bytes@.subrange(0, end as int);
    assert(without_trailing_zeros(bytes@) == t);

    let mut seen: Vec<bool> = Vec::new();
    let mut k: usize = 0;
    while k < 256
        invariant
            k <= 256,
            seen@.len() == k,
            forall|j: int| 0 <= j < k ==> !seen@[j],
        decreases 256 - k,
    {
        seen.push(false);
        k = k + 1;
    }
    let mut i: usize = 0;
    assert forall|x: u8| report_ids_from(t, 0).contains(x) <==> (seen@[x as int] || report_ids_from(t, 0).contains(x)) by {
        assert(!seen@[x as int]);
    }
    while end - i > 1
        invariant
            end <= bytes@.len(),
            t == bytes@.subrange(0, end as int),
            seen@.len() == 256,
            i <= end,
            forall|x: u8| report_ids_from(t, 0).contains(x) <==> (seen@[x as int] || report_ids_from(t, i as int).contains(x)),
        decreases end - i,
    {
        assert(t[i as int] == bytes@[i as int] && t[i + 1] == bytes@[i + 1]);
        let ghost before = seen@;
        let ghost old_i = i as int;
        if bytes[i] == REPORT_ID_TAG {
            seen.set(bytes[i + 1] as usize, true);
            i = i + 2;
        } else {
            i = i + 1;
        }
        assert forall|x: u8| report_ids_from(t, 0).contains(x) <==> (seen@[x as int]
            || report_ids_from(t, i as int).contains(x)) by {
            assert(report_ids_from(t, 0).contains(x) <==> (before[x as int] || report_ids_from(
                t,
                old_i,
            ).contains(x)));
            if t[old_i] == REPORT_ID_TAG {
                let id = t[old_i + 1];
                assert(report_ids_from(t, old_i) == report_ids_from(t, old_i + 2).insert(id));
                if x != id {
                    assert(seen@[x as int] == before[x as int]);
                }
            } else {
                assert(report_ids_from(t, old_i) == report_ids_from(t, old_i + 1));
                assert(seen@ == before);
            }
        }
    }
    let mut ids: Vec<u8> = Vec::new();
    let mut v: usize = 0;
    while v < 256
        invariant
            v <= 256,
            seen@.len() == 256,
            forall|a: int, b: int| 0 <= a < b < ids@.len() ==> ids@[a] < ids@[b],
            forall|a: int| 0 <= a < ids@.len() ==> ids@[a] < v,
            forall|x: u8| ids@.contains(x) <==> (x < v && seen@[x as int]),
        decreases 256 - v,
    {
        let ghost before = ids@;
        if seen[v] {
            ids.push(v as u8);
            assert forall|x: u8| ids@.contains(x) <==> (x < v + 1 && seen@[x as int]) by {
                if before.contains(x) {
                    let j = choose|j: int| 0 <= j < before.len() && before[j] == x;
                    assert(ids@[j] == x);
                }
                if x == v as u8 {
                    assert(ids@[ids@.len() - 1] == x);
                }
                if ids@.contains(x) {
                    let j = choose|j: int| 0 <= j < ids@.len() && ids@[j] == x;
                    if j < before.len() {
                        assert(before[j] == x);
                    }
                }
            }
        } else {
            assert forall|x: u8| ids@.contains(x) <==> (x < v + 1 && seen@[x as int]) by {
                if x == v as u8 {
                    assert(!seen@[x as int]);
                }
            }
        }
        v = v + 1;
    }
    let mut hex = String::new();
    let mut h: usize = 0;
    while h < end
        invariant
            h <= end <= bytes@.len(),
            hex@ == hex_spec(bytes@.subrange(0, h as int)),
        decreases end - h,
    {
        let pair = hex_byte(bytes[h]);
        assert(bytes@.subrange(0, h + 1).drop_last() =~= bytes@.subrange(0, h as int));
        hex = hex.concat(pair.as_str());
        h = h + 1;
    }
    ReportDescriptor { len: end, hex, report_ids: ids }
}

/// Size of one kernel input event record: a 64-bit `timeval`, type, code, value.
pub const INPUT_EVENT_SIZE: usize = 24;

/// One input event as captured from an event node.
#[derive(Clone, Copy, Debug, PartialEq, Eq, Structural)]
pub struct EvdevEvent {
    pub ts_sec: i64,
    pub ts_usec: i64,
    pub type_code: u16,
    pub code: u16,
    pub value: i32,
}

/// The unsigned little-endian number held in `len` bytes of `b` from `off`.
pub open spec fn le_value(b: Seq<u8>, off: int, len: nat) -> nat
    decreases len,
{
    if len == 0 {
        0
    } else {
        b[off + len - 1] as nat * pow256((len - 1) as nat) + le_value(b, off, (len - 1) as nat)
    }
}

pub open spec fn pow256(n: nat) -> nat
    decreases n,
{
    if n == 0 {
        1
    } else {
        256 * pow256((n - 1) as nat)
    }
}

/// The two's-complement reading of a 64-bit unsigned value.
pub open spec fn signed64(u: nat) -> int {
    if u >= 0x8000_0000_0000_0000 {
        u - 0x1_0000_0000_0000_0000
    } else {
        u as int
    }
}

/// The two's-complement reading of a 32-bit unsigned value.
pub open spec fn signed32(u: nat) -> int {
    if u >= 0x8000_0000 {
        u - 0x1_0000_0000
    } else {
        u as int
    }
}

/// The event recorded at byte `off`.
pub open spec fn record_at(b: Seq<u8>, off: int) -> EvdevEvent {
    EvdevEvent {
        ts_sec: signed64(le_value(b, off, 8)) as i64,
        ts_usec: signed64(le_value(b, off + 8, 8)) as i64,
        type_code: le_value(b, off + 16, 2) as u16,
        code: le_value(b, off + 18, 2) as u16,
        value: signed32(le_value(b, off + 20, 4)) as i32,
    }
}

proof fn lemma_le_step(b: Seq<u8>, off: int, len: nat)
    ensures
        le_value(b, off, len + 1) == b[off + len] as nat * pow256(len) + le_value(b, off, len),
{
}

proof fn lemma_pow256_values()
    ensures
        pow256(0) == 1,
        pow256(1) == 0x100,
        pow256(2) == 0x1_0000,
        pow256(3) == 0x100_0000,
        pow256(4) == 0x1_0000_0000,
        pow256(5) == 0x100_0000_0000,
        pow256(6) == 0x1_0000_0000_0000,
        pow256(7) == 0x100_0000_0000_0000,
{
    reveal_with_fuel(pow256, 8);
}

/// Reads two little-endian bytes of `b` from `off`.
fn read_le2(b: &Vec<u8>, off: usize) -> (r: u64)
    requires
        off + 2 <= b@.len(),
    ensures
        r as nat == le_value(b@, off as int, 2),
        r < 0x1_0000,
{
    proof {
        lemma_pow256_values();
        lemma_le_step(b@, off as int, 0);
        lemma_le_step(b@, off as int, 1);
    }
    let n = b.len();
    assert(off + 2 <= n);
    let b0 = b[off] as u64;
    let b1 = b[off + 1] as u64;
    assert(le_value(b@, off as int, 0) == 0);
    assert(le_value(b@, off as int, 1) == b0);
    assert(le_value(b@, off as int, 2) == b0 + b1 * 0x100);
    b0 + b1 * 0x100
}

/// Reads four little-endian bytes of `b` from `off`.
fn read_le4(b: &Vec<u8>, off: usize) -> (r: u64)
    requires
        off + 4 <= b@.len(),
    ensures
        r as nat == le_value(b@, off as int, 4),
        r < 0x1_0000_0000,
{
    proof {
        lemma_pow256_values();
        lemma_le_step(b@, off as int, 0);
        lemma_le_step(b@, off as int, 1);
        lemma_le_step(b@, off as int, 2);
        lemma_le_step(b@, off as int, 3);
    }
    let n = b.len();
    assert(off + 4 <= n);
    let ghost o = off as int;
    let ghost v = b@;
    let b0 = b[off] as u64;
    let b1 = b[off + 1] as u64;
    let b2 = b[off + 2] as u64;
    let b3 = b[off + 3] as u64;
    assert(le_value(v, o, 0) == 0);
    assert(le_value(v, o, 1) == b0);
    assert(le_value(v, o, 2) == b0 + b1 * 0x100);
    assert(le_value(v, o, 3) == b0 + b1 * 0x100 + b2 * 0x1_0000);
    assert(le_value(v, o, 4) == b0 + b1 * 0x100 + b2 * 0x1_0000 + b3 * 0x100_0000);
    b0 + b1 * 0x100 + b2 * 0x1_0000 + b3 * 0x100_0000
}

/// Reads eight little-endian bytes of `b` from `off`.
fn read_le8(b: &Vec<u8>, off: usize) -> (r: u64)
    requires
        off + 8 <= b@.len(),
    ensures
        r as nat == le_value(b@, off as int, 8),
{
    let n = b.len();
    assert(off + 8 <= n);
    let lo = read_le4(b, off);
    let hi = read_le4(b, off + 4);
    let ghost o = off as int;
    let ghost v = b@;
    proof {
        lemma_pow256_values();
        lemma_le_step(v, o + 4, 0);
        lemma_le_step(v, o + 4, 1);
        lemma_le_step(v, o + 4, 2);
        lemma_le_step(v, o + 4, 3);
        lemma_le_step(v, o, 4);
        lemma_le_step(v, o, 5);
        lemma_le_step(v, o, 6);
        lemma_le_step(v, o, 7);
        assert(le_value(v, o + 4, 4) == v[o + 4] as nat + v[o + 5] as nat * 0x100 + v[o + 6] as nat
            * 0x1_0000 + v[o + 7] as nat * 0x100_0000);
        assert(le_value(v, o, 5) == le_value(v, o, 4) + v[o + 4] as nat * 0x1_0000_0000);
        assert(le_value(v, o, 6) == le_value(v, o, 5) + v[o + 5] as nat * 0x100_0000_0000);
        assert(le_value(v, o, 7) == le_value(v, o, 6) + v[o + 6] as nat * 0x1_0000_0000_0000);
        assert(le_value(v, o, 8) == le_value(v, o, 7) + v[o + 7] as nat * 0x100_0000_0000_0000);
    }
    assert(hi * 0x1_0000_0000 + lo < 0x1_0000_0000_0000_0000) by (nonlinear_arith)
        requires
            lo < 0x1_0000_0000,
            hi < 0x1_0000_0000,
    ;
    lo + hi * 0x1_0000_0000
}

/// Decodes the input event records in a buffer read from an event node; a partial
/// record at the end is left out.
pub fn decode_input_events(buf: &Vec<u8>) -> (r: Vec<EvdevEvent>)
    ensures
        r@.len() == buf@.len() / (INPUT_EVENT_SIZE as nat),
        forall|k: int| 0 <= k < r@.len() ==> #[trigger] r@[k] == record_at(buf@, k * INPUT_EVENT_SIZE),
{
    let mut out: Vec<EvdevEvent> = Vec::new();
    let mut off: usize = 0;
    while buf.len() - off >= INPUT_EVENT_SIZE
        invariant
            off <= buf@.len(),
            off == out@.len() * INPUT_EVENT_SIZE,
            forall|k: int| 0 <= k < out@.len() ==> #[trigger] out@[k] == record_at(buf@, k * INPUT_EVENT_SIZE),
        decreases buf@.len() - off,
    {
        let sec = read_le8(buf, off);
        let usec = read_le8(buf, off + 8);
        let ty = read_le2(buf, off + 16);
        let code = read_le2(buf, off + 18);
        let value = read_le4(buf, off + 20);
        let ev = EvdevEvent {
            ts_sec: if sec >= 0x8000_0000_0000_0000 {
                ((sec as i128) - 0x1_0000_0000_0000_0000) as i64
            } else {
                sec as i64
            },
            ts_usec: if usec >= 0x8000_0000_0000_0000 {
                ((usec as i128) - 0x1_0000_0000_0000_0000) as i64
            } else {
                usec as i64
            },
            type_code: ty as u16,
            code: code as u16,
            value: if value >= 0x8000_0000 {
                ((value as i64) - 0x1_0000_0000) as i32
            } else {
                value as i32
            },
        };
        assert(ev == record_at(buf@, out@.len() * INPUT_EVENT_SIZE));
        out.push(ev);
        off = off + INPUT_EVENT_SIZE;
    }
    assert(out@.len() == buf@.len() / (INPUT_EVENT_SIZE as nat)) by (nonlinear_arith)
        requires
            off == out@.len() * 24,
            off <= buf@.len(),
            buf@.len() - off < 24,
    ;
    out
}

/// The `KEY=VALUE` pairs of a HID device's `uevent` text, in order; a later pair
/// for a key overrides an earlier one.
pub fn parse_hid_uevent(contents: &str) -> (r: Vec<(String, String)>)
    ensures
        pair_views(r@) == key_values(contents@),
{
    parse_key_values(contents)
}

/// The text without its leading zeros.
pub open spec fn strip_zeros(s: Seq<char>) -> Seq<char>
    decreases s.len(),
{
    if s.len() > 0 && s[0] == '0' {
        strip_zeros(s.drop_first())
    } else {
        s
    }
}

/// A character's code with ASCII capitals taken as small letters.
pub open spec fn lower_code(c: char) -> u32 {
    if 65 <= (c as u32) && (c as u32) <= 90 {
        (c as u32 + 32) as u32
    } else {
        c as u32
    }
}

/// Two hex ids denote the same id: equal but for ASCII case once leading zeros
/// are dropped.
pub open spec fn same_hex_id(a: Seq<char>, b: Seq<char>) -> bool {
    let x = strip_zeros(a);
    let y = strip_zeros(b);
    x.len() == y.len() && forall|k: int| 0 <= k < x.len() ==> lower_code(#[trigger] x[k]) == lower_code(y[k])
}

fn skip_zeros(s: &str, from: usize, to: usize) -> (r: usize)
    requires
        from <= to <= s@.len(),
    ensures
        from <= r <= to,
        strip_zeros(s@.subrange(from as int, to as int)) == s@.subrange(r as int, to as int),
{
    let mut i = from;
    while i < to && s.get_char(i) == '0'
        invariant
            from <= i <= to <= s@.len(),
            strip_zeros(s@.subrange(from as int, to as int)) == strip_zeros(s@.subrange(i as int, to as int)),
        decreases to - i,
    {
        assert(s@.subrange(i as int, to as int).drop_first() =~= s@.subrange(i + 1, to as int));
        i = i + 1;
    }
    i
}

fn lower_code_of(c: char) -> (r: u32)
    ensures
        r == lower_code(c),
{
    let u = c as u32;
    if 65 <= u && u <= 90 {
        u + 32
    } else {
        u
    }
}

/// Whether an id part found in a `HID_ID` (such as `00000B05`) is the one asked
/// for (such as ` 0b05 `, white space around it ignored).
pub fn hid_id_part_matches(found: &str, wanted: &str) -> (r: bool)
    ensures
        r == same_hex_id(found@, trim(wanted@)),
{
    let n = found.unicode_len();
    assert(found@.subrange(0, n as int) =~= found@);
    let a = skip_zeros(found, 0, n);
    let (lo, hi) = trim_bounds(wanted);
    let b = skip_zeros(wanted, lo, hi);
    let ghost x = found@.subrange(a as int, n as int);
    let ghost y = wanted@.subrange(b as int, hi as int);
    if n - a != hi - b {
        return false;
    }
    let mut k: usize = 0;
    while k < n - a
        invariant
            n == found@.len(),
            a <= n,
            b <= hi <= wanted@.len(),
            n - a == hi - b,
            x == found@.subrange(a as int, n as int),
            y == wanted@.subrange(b as int, hi as int),
            x == strip_zeros(found@),
            y == strip_zeros(trim(wanted@)),
            k <= n - a,
            forall|j: int| 0 <= j < k ==> lower_code(#[trigger] x[j]) == lower_code(y[j]),
        decreases n - a - k,
    {
        if lower_code_of(found.get_char(a + k)) != lower_code_of(wanted.get_char(b + k)) {
            assert(x[k as int] == found@[a + k]);
            assert(y[k as int] == wanted@[b + k]);
            return false;
        }
        assert(x[k as int] == found@[a + k]);
        assert(y[k as int] == wanted@[b + k]);
        k = k + 1;
    }
    true
}

} // verus!
