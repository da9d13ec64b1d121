//! The keyboard-backlight level and the time of the last cycle, shared through two
//! state files that are only touched under one exclusive lock.

use vstd::prelude::*;
use crate::text::{decimal, decimal_text, parse_unsigned, parse_unsigned_text};

verus! {

/// Shortest time between two cycles, in milliseconds.
pub const DEBOUNCE_MS: u128 = 600;

/// Number of backlight levels: the level is in `0..BACKLIGHT_LEVELS`.
pub const BACKLIGHT_LEVELS: u8 = 4;

/// The shared counter: when it last stepped (epoch milliseconds) and its level.
#[derive(Clone, Copy, Debug, PartialEq, Eq, Structural)]
pub struct BacklightCounter {
    pub last_trigger_ms: Option<u128>,
    pub level: u8,
}

/// What a cycle writes back: the new stamp and level, and their file texts.
#[derive(Clone, Debug)]
pub struct CycleWrite {
    pub counter: BacklightCounter,
    pub stamp_text: String,
    pub level_text: String,
}

pub open spec fn elapsed_since(now: u128, last: u128) -> nat {
    if now >= last {
        (now - last) as nat
    } else {
        0
    }
}

/// One press of the cycle key at `now`: nothing happens while the last cycle is
/// less than the debounce interval ago; otherwise the stamp becomes `now` and the
/// level steps by one modulo the number of levels.
pub open spec fn cycle_spec(c: BacklightCounter, now: u128) -> Option<BacklightCounter> {
    match c.last_trigger_ms {
        Some(last) if elapsed_since(now, last) < DEBOUNCE_MS => None,
        _ => Some(
            BacklightCounter {
                last_trigger_ms: Some(now),
                level: ((c.level + 1) % (BACKLIGHT_LEVELS as int)) as u8,
            },
        ),
    }
}

/// The counter that two state-file texts hold: an unreadable stamp means no
/// earlier cycle, an unreadable level means level 0.
pub open spec fn counter_from_texts(stamp: Seq<char>, level: Seq<char>) -> BacklightCounter {
    BacklightCounter {
        last_trigger_ms: match parse_unsigned(stamp, u128::MAX as nat) {
            Some(v) => Some(v as u128),
            None => None,
        },
        level: match parse_unsigned(level, u8::MAX as nat) {
            Some(v) => v as u8,
            None => 0,
        },
    }
}

/// Reads the counter from the texts of its two state files.
pub fn counter_from_files(stamp: &str, level: &str) -> (r: BacklightCounter)
    ensures
        r == counter_from_texts(stamp@, level@),
{
    let last = parse_unsigned_text(stamp, u128::MAX);
    let lv = match parse_unsigned_text(level, u8::MAX as u128) {
        Some(v) => v as u8,
        None => 0,
    };
    BacklightCounter { last_trigger_ms: last, level: lv }
}

/// Decides one press of the cycle key at `now_ms`.
pub fn cycle_step(c: &BacklightCounter, now_ms: u128) -> (r: Option<BacklightCounter>)
    ensures
        r == cycle_spec(*c, now_ms),
{
    if let Some(last) = c.last_trigger_ms {
        let elapsed = if now_ms >= last {
            now_ms - last
        } else {
            0
        };
        if elapsed < DEBOUNCE_MS {
            return None;
        }
    }
    let next = ((c.level as u16 + 1) % (BACKLIGHT_LEVELS as u16)) as u8;
    Some(BacklightCounter { last_trigger_ms: Some(now_ms), level: next })
}

/// A press of the cycle key at `now_ms` against the state-file texts: `None` where
/// the press is debounced, else what to write back (and the level to apply).
pub fn cycle_from_files(stamp: &str, level: &str, now_ms: u128) -> (r: Option<CycleWrite>)
    ensures
        match r {
            None => cycle_spec(counter_from_texts(stamp@, level@), now_ms) is None,
            Some(w) => {
                &&& cycle_spec(counter_from_texts(stamp@, level@), now_ms) == Some(w.counter)
                &&& w.stamp_text@ == decimal(now_ms as nat)
                &&& w.level_text@ == decimal(w.counter.level as nat)
            },
        },
{
    let c = counter_from_files(stamp, level);
    match cycle_step(&c, now_ms) {
        None => None,
        Some(next) => Some(
            CycleWrite {
                counter: next,
                stamp_text: decimal_text(now_ms),
                level_text: decimal_text(next.level as u128),
            },
        ),
    }
}

/// Two presses less than the debounce interval apart, where the first one is not
/// itself debounced: exactly one of them steps the counter, so the level goes up by
/// one, not two.
pub proof fn lemma_close_presses_step_once(c: BacklightCounter, t1: u128, t2: u128)
    requires
        cycle_spec(c, t1) is Some,
        elapsed_since(t2, t1) < DEBOUNCE_MS,
    ensures
        cycle_spec(cycle_spec(c, t1)->0, t2) is None,
        cycle_spec(c, t1)->0.level == (c.level + 1) % 4,
{
}

/// Two presses at least the debounce interval apart, where the first one is not
/// itself debounced: both step the counter, so the level goes up by two modulo the
/// number of levels (3 wraps to 0).
pub proof fn lemma_spaced_presses_step_twice(c: BacklightCounter, t1: u128, t2: u128)
    requires
        cycle_spec(c, t1) is Some,
        t2 >= t1 + DEBOUNCE_MS,
    ensures
        cycle_spec(cycle_spec(c, t1)->0, t2) is Some,
        cycle_spec(cycle_spec(c, t1)->0, t2)->0.level == (c.level + 2) % 4,
        cycle_spec(cycle_spec(c, t1)->0, t2)->0.last_trigger_ms == Some(t2),
{
}

/// A counter written as its two state-file texts reads back as the same counter.
pub proof fn lemma_counter_round_trip(stamp: u128, level: u8)
    ensures
        counter_from_texts(decimal(stamp as nat), decimal(level as nat)) == (BacklightCounter {
            last_trigger_ms: Some(stamp),
            level,
        }),
{
    crate::text::lemma_decimal_round_trip(stamp as nat, u128::MAX as nat);
    crate::text::lemma_decimal_round_trip(level as nat, u8::MAX as nat);
}

/// Highest level that the keyboard accepts.
pub const MAX_LEVEL: u8 = 3;

/// Length of the backlight feature report.
pub const REPORT_LEN: usize = 16;

/// The feature report that sets the keyboard backlight to `level` (levels above
/// the highest are taken as the highest): report id, three fixed bytes, the level,
/// then zeros.
pub open spec fn backlight_report_spec(level: u8) -> Seq<u8> {
    let l: u8 = if level > MAX_LEVEL {
        MAX_LEVEL
    } else {
        level
    };
    seq![0x5Au8, 0xBAu8, 0xC5u8, 0xC4u8, l] + Seq::new(11, |i: int| 0u8)
}

/// Builds the backlight feature report for `level`.
pub fn backlight_report(level: u8) -> (r: Vec<u8>)
    ensures
        r@ == backlight_report_spec(level),
        r@.len() == REPORT_LEN,
{
    let l = if level > MAX_LEVEL {
        MAX_LEVEL
    } else {
        level
    };
    let mut v: Vec<u8> = Vec::new();
    v.push(0x5A);
    v.push(0xBA);
    v.push(0xC5);
    v.push(0xC4);
    v.push(l);
    let mut i: usize = 5;
    while i < REPORT_LEN
        invariant
            5 <= i <= REPORT_LEN,
            v@ == seq![0x5Au8, 0xBAu8, 0xC5u8, 0xC4u8, l] + Seq::new((i - 5) as nat, |j: int| 0u8),
        decreases REPORT_LEN - i,
    {
        v.push(0);
        assert(seq![0x5Au8, 0xBAu8, 0xC5u8, 0xC4u8, l] + Seq::new((i + 1 - 5) as nat, |j: int| 0u8)
            =~= (seq![0x5Au8, 0xBAu8, 0xC5u8, 0xC4u8, l] + Seq::new((i - 5) as nat, |j: int| 0u8)).push(0u8));
        i = i + 1;
    }
    v
}

} // verus!
