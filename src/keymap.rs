//! The fixed remap table and what the daemon does with each input event.

use vstd::prelude::*;

verus! {

/// Event type of a synchronization event.
pub const EV_SYN: u16 = 0;

/// Event type of a key event.
pub const EV_KEY: u16 = 1;

pub const KEY_F1: u16 = 59;

pub const KEY_F2: u16 = 60;

pub const KEY_F3: u16 = 61;

pub const KEY_F4: u16 = 62;

pub const KEY_F5: u16 = 63;

pub const KEY_F6: u16 = 64;

pub const KEY_F11: u16 = 87;

pub const KEY_MUTE: u16 = 113;

pub const KEY_VOLUMEDOWN: u16 = 114;

pub const KEY_VOLUMEUP: u16 = 115;

pub const KEY_BRIGHTNESSDOWN: u16 = 224;

pub const KEY_BRIGHTNESSUP: u16 = 225;

/// Key value of a release.
pub const KEY_RELEASE: i32 = 0;

/// Key value of a press.
pub const KEY_PRESS: i32 = 1;

/// Key value of an autorepeat.
pub const KEY_REPEAT: i32 = 2;

/// One input event: its type, its code and its value.
#[derive(Clone, Copy, Debug, PartialEq, Eq, Structural)]
pub struct KeyEvent {
    pub type_code: u16,
    pub code: u16,
    pub value: i32,
}

/// What the table says of a physical key.
#[derive(Clone, Copy, Debug, PartialEq, Eq, Structural)]
pub enum KeyMapping {
    /// Sent on as the given key.
    Forward(u16),
    /// Steps the keyboard backlight on a press; never sent on.
    BacklightCycle,
    /// Opens the emoji picker on a press; never sent on.
    EmojiPicker,
    /// Sent on unchanged.
    Passthrough,
}

/// A stateful action that an event asks for.
#[derive(Clone, Copy, Debug, PartialEq, Eq, Structural)]
pub enum SideEffect {
    Nothing,
    CycleBacklight,
    OpenEmojiPicker,
}

/// The events to send on the virtual device, in order, and the action to take.
#[derive(Clone, Debug)]
pub struct EventResponse {
    pub emit: Vec<KeyEvent>,
    pub side_effect: SideEffect,
}

pub open spec fn mapping_of(code: u16) -> KeyMapping {
    if code == KEY_F1 {
        KeyMapping::Forward(KEY_MUTE)
    } else if code == KEY_F2 {
        KeyMapping::Forward(KEY_VOLUMEDOWN)
    } else if code == KEY_F3 {
        KeyMapping::Forward(KEY_VOLUMEUP)
    } else if code == KEY_F4 {
        KeyMapping::BacklightCycle
    } else if code == KEY_F5 {
        KeyMapping::Forward(KEY_BRIGHTNESSDOWN)
    } else if code == KEY_F6 {
        KeyMapping::Forward(KEY_BRIGHTNESSUP)
    } else if code == KEY_F11 {
        KeyMapping::EmojiPicker
    } else {
        KeyMapping::Passthrough
    }
}

/// The key event with the given code and value.
pub open spec fn key_event(code: u16, value: i32) -> KeyEvent {
    KeyEvent { type_code: EV_KEY, code, value }
}

/// The synchronization event that closes a report.
pub open spec fn sync_event() -> KeyEvent {
    KeyEvent { type_code: EV_SYN, code: 0, value: 0 }
}

/// The events sent on for one input event: a key event is sent on under its mapped
/// code with its value, then a synchronization event; other events are dropped.
pub open spec fn emitted_for(ev: KeyEvent) -> Seq<KeyEvent> {
    if ev.type_code != EV_KEY {
        Seq::empty()
    } else {
        match mapping_of(ev.code) {
            KeyMapping::Forward(target) => seq![key_event(target, ev.value), sync_event()],
            KeyMapping::Passthrough => seq![key_event(ev.code, ev.value), sync_event()],
            _ => Seq::empty(),
        }
    }
}

/// The side action of one input event: only a press of a side-action key has one.
pub open spec fn side_effect_for(ev: KeyEvent) -> SideEffect {
    if ev.type_code != EV_KEY || ev.value != KEY_PRESS {
        SideEffect::Nothing
    } else {
        match mapping_of(ev.code) {
            KeyMapping::BacklightCycle => SideEffect::CycleBacklight,
            KeyMapping::EmojiPicker => SideEffect::OpenEmojiPicker,
            _ => SideEffect::Nothing,
        }
    }
}

/// The keys that the virtual device adds to the physical device's own.
pub open spec fn is_synthesized_target(code: u16) -> bool {
    code == KEY_MUTE || code == KEY_VOLUMEDOWN || code == KEY_VOLUMEUP || code
        == KEY_BRIGHTNESSDOWN || code == KEY_BRIGHTNESSUP
}

/// Looks a physical key up in the remap table.
pub fn key_mapping(code: u16) -> (r: KeyMapping)
    ensures
        r == mapping_of(code),
{
    if code == KEY_F1 {
        KeyMapping::Forward(KEY_MUTE)
    } else if code == KEY_F2 {
        KeyMapping::Forward(KEY_VOLUMEDOWN)
    } else if code == KEY_F3 {
        KeyMapping::Forward(KEY_VOLUMEUP)
    } else if code == KEY_F4 {
        KeyMapping::BacklightCycle
    } else if code == KEY_F5 {
        KeyMapping::Forward(KEY_BRIGHTNESSDOWN)
    } else if code == KEY_F6 {
        KeyMapping::Forward(KEY_BRIGHTNESSUP)
    } else if code == KEY_F11 {
        KeyMapping::EmojiPicker
    } else {
        KeyMapping::Passthrough
    }
}

/// A key event followed by its synchronization event.
pub fn emit_key(code: u16, value: i32) -> (r: Vec<KeyEvent>)
    ensures
        r@ == seq![key_event(code, value), sync_event()],
{
    let mut v: Vec<KeyEvent> = Vec::new();
    v.push(KeyEvent { type_code: EV_KEY, code, value });
    v.push(KeyEvent { type_code: EV_SYN, code: 0, value: 0 });
    assert(v@ =~= seq![key_event(code, value), sync_event()]);
    v
}

/// Decides what one input event read from the grabbed device leads to.
pub fn handle_event(ev: KeyEvent) -> (r: EventResponse)
    ensures
        r.emit@ == emitted_for(ev),
        r.side_effect == side_effect_for(ev),
{
    if ev.type_code != EV_KEY {
        return EventResponse { emit: Vec::new(), side_effect: SideEffect::Nothing };
    }
    match key_mapping(ev.code) {
        KeyMapping::Forward(target) => EventResponse {
            emit: emit_key(target, ev.value),
            side_effect: SideEffect::Nothing,
        },
        KeyMapping::Passthrough => EventResponse {
            emit: emit_key(ev.code, ev.value),
            side_effect: SideEffect::Nothing,
        },
        KeyMapping::BacklightCycle => EventResponse {
            emit: Vec::new(),
            side_effect: if ev.value == KEY_PRESS {
                SideEffect::CycleBacklight
            } else {
                SideEffect::Nothing
            },
        },
        KeyMapping::EmojiPicker => EventResponse {
            emit: Vec::new(),
            side_effect: if ev.value == KEY_PRESS {
                SideEffect::OpenEmojiPicker
            } else {
                SideEffect::Nothing
            },
        },
    }
}

/// A key that the table forwards is sent on as exactly one key event under its
/// target code, with the value it came with (press, release or repeat), followed
/// by exactly one synchronization event, and asks for no side action.
pub proof fn lemma_forward_emits_key_then_sync(ev: KeyEvent, target: u16)
    requires
        ev.type_code == EV_KEY,
        mapping_of(ev.code) == KeyMapping::Forward(target),
    ensures
        emitted_for(ev).len() == 2,
        emitted_for(ev)[0] == key_event(target, ev.value),
        emitted_for(ev)[1] == sync_event(),
        side_effect_for(ev) == SideEffect::Nothing,
{
}

/// A side-action key never reaches the virtual device, whatever its value.
pub proof fn lemma_side_action_keys_not_forwarded(ev: KeyEvent)
    requires
        mapping_of(ev.code) == KeyMapping::BacklightCycle || mapping_of(ev.code)
            == KeyMapping::EmojiPicker,
    ensures
        emitted_for(ev).len() == 0,
{
}

fn contains_code(v: &Vec<u16>, c: u16) -> (r: bool)
    ensures
        r == v@.contains(c),
{
    let mut i: usize = 0;
    while i < v.len()
        invariant
            i <= v@.len(),
            forall|j: int| 0 <= j < i ==> v@[j] != c,
        decreases v@.len() - i,
    {
        if v[i] == c {
            return true;
        }
        i = i + 1;
    }
    false
}

fn push_if_absent(v: &mut Vec<u16>, c: u16)
    requires
        old(v)@.no_duplicates(),
    ensures
        final(v)@.no_duplicates(),
        forall|x: u16| final(v)@.contains(x) <==> (old(v)@.contains(x) || x == c),
{
    if !contains_code(v, c) {
        v.push(c);
        assert forall|x: u16| v@.contains(x) <==> (old(v)@.contains(x) || x == c) by {
            if old(v)@.contains(x) {
                let j = choose|j: int| 0 <= j < old(v)@.len() && old(v)@[j] == x;
                assert(v@[j] == x);
            }
            if x == c {
                assert(v@[v@.len() - 1] == c);
            }
        }
    }
}

/// The keys that the virtual device advertises: those of the physical device and
/// the five synthesized targets, each once.
pub fn virtual_device_keys(supported: &Vec<u16>) -> (r: Vec<u16>)
    ensures
        r@.no_duplicates(),
        forall|c: u16| r@.contains(c) <==> (supported@.contains(c) || is_synthesized_target(c)),
{
    let mut out: Vec<u16> = Vec::new();
    let mut i: usize = 0;
    while i < supported.len()
        invariant
            i <= supported@.len(),
            out@.no_duplicates(),
            forall|c: u16| out@.contains(c) <==> supported@.subrange(0, i as int).contains(c),
        decreases supported@.len() - i,
    {
        push_if_absent(&mut out, supported[i]);
        assert forall|c: u16| out@.contains(c) <==> supported@.subrange(0, i + 1).contains(c) by {
            let s1 = supported@.subrange(0, i + 1);
            let s0 = supported@.subrange(0, i as int);
            if s1.contains(c) {
                let j = choose|j: int| 0 <= j < s1.len() && s1[j] == c;
                if j < i {
                    assert(s0[j] == c);
                }
            }
            if s0.contains(c) {
                let j = choose|j: int| 0 <= j < s0.len() && s0[j] == c;
                assert(s1[j] == c);
            }
            assert(s1[i as int] == supported@[i as int]);
        }
        i = i + 1;
    }
    assert(supported@.subrange(0, i as int) =~= supported@);
    push_if_absent(&mut out, KEY_MUTE);
    push_if_absent(&mut out, KEY_VOLUMEDOWN);
    push_if_absent(&mut out, KEY_VOLUMEUP);
    push_if_absent(&mut out, KEY_BRIGHTNESSDOWN);
    push_if_absent(&mut out, KEY_BRIGHTNESSUP);
    out
}

} // verus!
