use vstd::prelude::*;

use crate::pressed_keys::PressedKeys;
use crate::text::{split_on, split_on_char, str_eq};

verus! {

/// The keys that hotkeys can be made of, as reported by the keyboard hook.
#[derive(Debug, Clone, Copy, PartialEq, Eq, Structural)]
pub enum KeyCode {
    ControlLeft,
    ControlRight,
    ShiftLeft,
    ShiftRight,
    Alt,
    AltGr,
    MetaLeft,
    MetaRight,
    Space,
    Escape,
    Return,
    Backspace,
    Tab,
    F1,
    F2,
    F3,
    F4,
    F5,
    F6,
    F7,
    F8,
    F9,
    F10,
    F11,
    F12,
    KeyA,
    KeyB,
    KeyC,
    KeyD,
    KeyE,
    KeyF,
    KeyG,
    KeyH,
    KeyI,
    KeyJ,
    KeyK,
    KeyL,
    KeyM,
    KeyN,
    KeyO,
    KeyP,
    KeyQ,
    KeyR,
    KeyS,
    KeyT,
    KeyU,
    KeyV,
    KeyW,
    KeyX,
    KeyY,
    KeyZ,
    Num0,
    Num1,
    Num2,
    Num3,
    Num4,
    Num5,
    Num6,
    Num7,
    Num8,
    Num9,
}

/// The name under which a key appears in hotkey settings.
pub open spec fn key_name(key: KeyCode) -> Seq<char> {
    match key {
        KeyCode::ControlLeft => "ControlLeft"@,
        KeyCode::ControlRight => "ControlRight"@,
        KeyCode::ShiftLeft => "ShiftLeft"@,
        KeyCode::ShiftRight => "ShiftRight"@,
        KeyCode::Alt => "AltLeft"@,
        KeyCode::AltGr => "AltRight"@,
        KeyCode::MetaLeft => "MetaLeft"@,
        KeyCode::MetaRight => "MetaRight"@,
        KeyCode::Space => "Space"@,
        KeyCode::Escape => "Escape"@,
        KeyCode::Return => "Enter"@,
        KeyCode::Backspace => "Backspace"@,
        KeyCode::Tab => "Tab"@,
        KeyCode::F1 => "F1"@,
        KeyCode::F2 => "F2"@,
        KeyCode::F3 => "F3"@,
        KeyCode::F4 => "F4"@,
        KeyCode::F5 => "F5"@,
        KeyCode::F6 => "F6"@,
        KeyCode::F7 => "F7"@,
        KeyCode::F8 => "F8"@,
        KeyCode::F9 => "F9"@,
        KeyCode::F10 => "F10"@,
        KeyCode::F11 => "F11"@,
        KeyCode::F12 => "F12"@,
        KeyCode::KeyA => "A"@,
        KeyCode::KeyB => "B"@,
        KeyCode::KeyC => "C"@,
        KeyCode::KeyD => "D"@,
        KeyCode::KeyE => "E"@,
        KeyCode::KeyF => "F"@,
        KeyCode::KeyG => "G"@,
        KeyCode::KeyH => "H"@,
        KeyCode::KeyI => "I"@,
        KeyCode::KeyJ => "J"@,
        KeyCode::KeyK => "K"@,
        KeyCode::KeyL => "L"@,
        KeyCode::KeyM => "M"@,
        KeyCode::KeyN => "N"@,
        KeyCode::KeyO => "O"@,
        KeyCode::KeyP => "P"@,
        KeyCode::KeyQ => "Q"@,
        KeyCode::KeyR => "R"@,
        KeyCode::KeyS => "S"@,
        KeyCode::KeyT => "T"@,
        KeyCode::KeyU => "U"@,
        KeyCode::KeyV => "V"@,
        KeyCode::KeyW => "W"@,
        KeyCode::KeyX => "X"@,
        KeyCode::KeyY => "Y"@,
        KeyCode::KeyZ => "Z"@,
        KeyCode::Num0 => "0"@,
        KeyCode::Num1 => "1"@,
        KeyCode::Num2 => "2"@,
        KeyCode::Num3 => "3"@,
        KeyCode::Num4 => "4"@,
        KeyCode::Num5 => "5"@,
        KeyCode::Num6 => "6"@,
        KeyCode::Num7 => "7"@,
        KeyCode::Num8 => "8"@,
        KeyCode::Num9 => "9"@,
    }
}

/// The name under which `key` appears in hotkey settings.
pub fn key_to_string(key: KeyCode) -> (name: &'static str)
    ensures
        name@ == key_name(key),
{
    match key {
        KeyCode::ControlLeft => "ControlLeft",
        KeyCode::ControlRight => "ControlRight",
        KeyCode::ShiftLeft => "ShiftLeft",
        KeyCode::ShiftRight => "ShiftRight",
        KeyCode::Alt => "AltLeft",
        KeyCode::AltGr => "AltRight",
        KeyCode::MetaLeft => "MetaLeft",
        KeyCode::MetaRight => "MetaRight",
        KeyCode::Space => "Space",
        KeyCode::Escape => "Escape",
        KeyCode::Return => "Enter",
        KeyCode::Backspace => "Backspace",
        KeyCode::Tab => "Tab",
        KeyCode::F1 => "F1",
        KeyCode::F2 => "F2",
        KeyCode::F3 => "F3",
        KeyCode::F4 => "F4",
        KeyCode::F5 => "F5",
        KeyCode::F6 => "F6",
        KeyCode::F7 => "F7",
        KeyCode::F8 => "F8",
        KeyCode::F9 => "F9",
        KeyCode::F10 => "F10",
        KeyCode::F11 => "F11",
        KeyCode::F12 => "F12",
        KeyCode::KeyA => "A",
        KeyCode::KeyB => "B",
        KeyCode::KeyC => "C",
        KeyCode::KeyD => "D",
        KeyCode::KeyE => "E",
        KeyCode::KeyF => "F",
        KeyCode::KeyG => "G",
        KeyCode::KeyH => "H",
        KeyCode::KeyI => "I",
        KeyCode::KeyJ => "J",
        KeyCode::KeyK => "K",
        KeyCode::KeyL => "L",
        KeyCode::KeyM => "M",
        KeyCode::KeyN => "N",
        KeyCode::KeyO => "O",
        KeyCode::KeyP => "P",
        KeyCode::KeyQ => "Q",
        KeyCode::KeyR => "R",
        KeyCode::KeyS => "S",
        KeyCode::KeyT => "T",
        KeyCode::KeyU => "U",
        KeyCode::KeyV => "V",
        KeyCode::KeyW => "W",
        KeyCode::KeyX => "X",
        KeyCode::KeyY => "Y",
        KeyCode::KeyZ => "Z",
        KeyCode::Num0 => "0",
        KeyCode::Num1 => "1",
        KeyCode::Num2 => "2",
        KeyCode::Num3 => "3",
        KeyCode::Num4 => "4",
        KeyCode::Num5 => "5",
        KeyCode::Num6 => "6",
        KeyCode::Num7 => "7",
        KeyCode::Num8 => "8",
        KeyCode::Num9 => "9",
    }
}


/// The side-specific names of a modifier key.
pub open spec fn is_modifier_name(k: Seq<char>) -> bool {
    ||| k == "ControlLeft"@
    ||| k == "ControlRight"@
    ||| k == "ShiftLeft"@
    ||| k == "ShiftRight"@
    ||| k == "AltLeft"@
    ||| k == "AltRight"@
    ||| k == "MetaLeft"@
    ||| k == "MetaRight"@
}

/// Whether `key_str` names a modifier key (either side).
pub fn is_modifier_key(key_str: &str) -> (r: bool)
    ensures
        r == is_modifier_name(key_str@),
{
    str_eq(key_str, "ControlLeft") || str_eq(key_str, "ControlRight") || str_eq(key_str, "ShiftLeft")
        || str_eq(key_str, "ShiftRight") || str_eq(key_str, "AltLeft") || str_eq(key_str, "AltRight")
        || str_eq(key_str, "MetaLeft") || str_eq(key_str, "MetaRight")
}

/// A side-neutral modifier in a hotkey ("Control", "Shift", "Alt", "Meta")
/// stands for either of two side-specific keys.
pub open spec fn sides_of(part: Seq<char>) -> Option<(Seq<char>, Seq<char>)> {
    if part == "Control"@ {
        Some(("ControlLeft"@, "ControlRight"@))
    } else if part == "Shift"@ {
        Some(("ShiftLeft"@, "ShiftRight"@))
    } else if part == "Alt"@ {
        Some(("AltLeft"@, "AltRight"@))
    } else if part == "Meta"@ {
        Some(("MetaLeft"@, "MetaRight"@))
    } else {
        None
    }
}

fn generic_sides(part: &str) -> (r: Option<(&'static str, &'static str)>)
    ensures
        match r {
            Some((l, rr)) => sides_of(part@) == Some((l@, rr@)),
            None => sides_of(part@) is None,
        },
{
    if str_eq(part, "Control") {
        Some(("ControlLeft", "ControlRight"))
    } else if str_eq(part, "Shift") {
        Some(("ShiftLeft", "ShiftRight"))
    } else if str_eq(part, "Alt") {
        Some(("AltLeft", "AltRight"))
    } else if str_eq(part, "Meta") {
        Some(("MetaLeft", "MetaRight"))
    } else {
        None
    }
}

/// A part of a hotkey is held when its key is held; a side-neutral
/// modifier is held when either of its sides is.
pub open spec fn part_held(part: Seq<char>, pressed: Set<Seq<char>>) -> bool {
    match sides_of(part) {
        Some((l, r)) => pressed.contains(l) || pressed.contains(r),
        None => pressed.contains(part),
    }
}

/// A part of a hotkey covers a key with the same name and, for a
/// side-neutral modifier, both of its sides.
pub open spec fn part_covers(part: Seq<char>, key: Seq<char>) -> bool {
    ||| part == key
    ||| match sides_of(part) {
        Some((l, r)) => key == l || key == r,
        None => false,
    }
}

/// Some part of the hotkey covers `key`.
pub open spec fn key_in(key: Seq<char>, hotkey: Seq<Seq<char>>) -> bool {
    exists|i: int| 0 <= i < hotkey.len() && part_covers(#[trigger] hotkey[i], key)
}

/// A hotkey is pressed when it has parts, every part is held, and no
/// modifier outside the hotkey is held.
pub open spec fn hotkey_held(hotkey: Seq<Seq<char>>, pressed: Set<Seq<char>>) -> bool {
    &&& hotkey.len() > 0
    &&& forall|i: int| 0 <= i < hotkey.len() ==> part_held(#[trigger] hotkey[i], pressed)
    &&& forall|k: Seq<char>| #[trigger] pressed.contains(k) && is_modifier_name(k) ==> key_in(k, hotkey)
}

/// Whether `key_str` is covered by some part of `hotkey`.
pub fn is_key_in_hotkey(key_str: &str, hotkey: &Vec<String>) -> (r: bool)
    ensures
        r == key_in(key_str@, hotkey.deep_view()),
{
    let mut i: usize = 0;
    while i < hotkey.len()
        invariant
            i <= hotkey@.len(),
            forall|j: int| 0 <= j < i ==> !part_covers(#[trigger] hotkey.deep_view()[j], key_str@),
        decreases hotkey@.len() - i,
    {
        let part = hotkey[i].as_str();
        if str_eq(part, key_str) {
            assert(part_covers(hotkey.deep_view()[i as int], key_str@));
            return true;
        }
        match generic_sides(part) {
            Some((l, r)) => {
                if str_eq(key_str, l) || str_eq(key_str, r) {
                    assert(part_covers(hotkey.deep_view()[i as int], key_str@));
                    return true;
                }
            },
            None => {},
        }
        i = i + 1;
    }
    false
}

/// Whether `hotkey` is pressed given the held keys.
pub fn is_hotkey_pressed(hotkey: &Vec<String>, pressed: &PressedKeys) -> (r: bool)
    ensures
        r == hotkey_held(hotkey.deep_view(), pressed.view().dom()),
{
    if hotkey.len() == 0 {
        return false;
    }
    let mut i: usize = 0;
    while i < hotkey.len()
        invariant
            i <= hotkey@.len(),
            forall|j: int| 0 <= j < i ==> part_held(#[trigger] hotkey.deep_view()[j], pressed.view().dom()),
        decreases hotkey@.len() - i,
    {
        let part = hotkey[i].as_str();
        let held = match generic_sides(part) {
            Some((l, r)) => pressed.contains(l) || pressed.contains(r),
            None => pressed.contains(part),
        };
        if !held {
            assert(!part_held(hotkey.deep_view()[i as int], pressed.view().dom()));
            return false;
        }
        i = i + 1;
    }
    let keys = pressed.keys();
    let mut j: usize = 0;
    while j < keys.len()
        invariant
            j <= keys@.len(),
            keys.deep_view().to_set() == pressed.view().dom(),
            forall|m: int| 0 <= m < j && is_modifier_name(keys.deep_view()[m]) ==>
                key_in(#[trigger] keys.deep_view()[m], hotkey.deep_view()),
        decreases keys@.len() - j,
    {
        let k = keys[j].as_str();
        if is_modifier_key(k) && !is_key_in_hotkey(k, hotkey) {
            proof {
                assert(keys.deep_view().to_set().contains(keys.deep_view()[j as int]));
            }
            return false;
        }
        j = j + 1;
    }
    proof {
        assert forall|k: Seq<char>| #[trigger] pressed.view().dom().contains(k) && is_modifier_name(k)
            implies key_in(k, hotkey.deep_view()) by {
            assert(keys.deep_view().to_set().contains(k));
            let m = choose|m: int| 0 <= m < keys.deep_view().len() && keys.deep_view()[m] == k;
        }
    }
    true
}

/// The parts of a hotkey setting such as "Control+Space".
pub fn parse_hotkey(setting: &str) -> (parts: Vec<String>)
    ensures
        parts.deep_view() == split_on(setting@, '+'),
{
    split_on_char(setting, '+')
}


/// What a key event asks of the recorder.
#[derive(Debug, Clone, Copy, PartialEq, Eq, Structural)]
pub enum HotkeyAction {
    StartRecording,
    StopRecording,
    CancelRecording,
    CancelRecordingSilently,
}

/// A push-to-talk release this soon (in milliseconds) after the start
/// discards the recording without a message.
pub const QUICK_RELEASE_MS: u64 = 300;

/// The recording flag after `action`: a start sets it, any other action
/// clears it, no action leaves it.
pub open spec fn recording_after(recording: bool, action: Option<HotkeyAction>) -> bool {
    match action {
        Some(HotkeyAction::StartRecording) => true,
        Some(_) => false,
        None => recording,
    }
}

/// The action of a key press. A repeat of a held key does nothing; while
/// recording, the cancel hotkey wins; otherwise the hotkey starts a
/// recording, or in toggle mode stops the running one.
pub open spec fn press_action(
    already_held: bool,
    recording: bool,
    push_to_talk: bool,
    cancel_held: bool,
    hotkey_now_held: bool,
) -> Option<HotkeyAction> {
    if already_held {
        None
    } else if recording && cancel_held {
        Some(HotkeyAction::CancelRecording)
    } else if hotkey_now_held {
        if !recording {
            Some(HotkeyAction::StartRecording)
        } else if !push_to_talk {
            Some(HotkeyAction::StopRecording)
        } else {
            None
        }
    } else {
        None
    }
}

/// Whether a release at `now_ms` comes soon after a start at `start`.
pub open spec fn quick_release(start: Option<u64>, now_ms: u64) -> bool {
    match start {
        Some(st) => now_ms < st + QUICK_RELEASE_MS,
        None => false,
    }
}

/// The action of a key release: in push-to-talk mode, releasing any key
/// of the hotkey ends the recording, silently when it was very short.
pub open spec fn release_action(
    recording: bool,
    push_to_talk: bool,
    key_in_hotkey: bool,
    quick: bool,
) -> Option<HotkeyAction> {
    if recording && push_to_talk && key_in_hotkey {
        if quick {
            Some(HotkeyAction::CancelRecordingSilently)
        } else {
            Some(HotkeyAction::StopRecording)
        }
    } else {
        None
    }
}

/// The keyboard side of the recorder: the held keys, the configured
/// hotkeys and mode, and whether a recording is under way.
pub struct HotkeyEngine {
    pub pressed: PressedKeys,
    pub hotkey: Vec<String>,
    pub cancel_hotkey: Vec<String>,
    pub push_to_talk: bool,
    pub is_recording: bool,
    pub record_start_ms: Option<u64>,
}

impl HotkeyEngine {
    /// An idle engine for the given hotkey settings, nothing held.
    pub fn new(hotkey: &str, cancel_hotkey: &str, push_to_talk: bool) -> (e: Self)
        ensures
            e.pressed.view() == Map::<Seq<char>, u64>::empty(),
            e.hotkey.deep_view() == split_on(hotkey@, '+'),
            e.cancel_hotkey.deep_view() == split_on(cancel_hotkey@, '+'),
            e.push_to_talk == push_to_talk,
            !e.is_recording,
            e.record_start_ms is None,
    {
        HotkeyEngine {
            pressed: PressedKeys::new(),
            hotkey: parse_hotkey(hotkey),
            cancel_hotkey: parse_hotkey(cancel_hotkey),
            push_to_talk,
            is_recording: false,
            record_start_ms: None,
        }
    }

    /// Replaces the recording hotkey.
    pub fn set_hotkey(&mut self, setting: &str)
        ensures
            final(self).hotkey.deep_view() == split_on(setting@, '+'),
            final(self).pressed == old(self).pressed,
            final(self).cancel_hotkey == old(self).cancel_hotkey,
            final(self).push_to_talk == old(self).push_to_talk,
            final(self).is_recording == old(self).is_recording,
            final(self).record_start_ms == old(self).record_start_ms,
    {
        self.hotkey = parse_hotkey(setting);
    }

    /// Replaces the cancel hotkey.
    pub fn set_cancel_hotkey(&mut self, setting: &str)
        ensures
            final(self).cancel_hotkey.deep_view() == split_on(setting@, '+'),
            final(self).pressed == old(self).pressed,
            final(self).hotkey == old(self).hotkey,
            final(self).push_to_talk == old(self).push_to_talk,
            final(self).is_recording == old(self).is_recording,
            final(self).record_start_ms == old(self).record_start_ms,
    {
        self.cancel_hotkey = parse_hotkey(setting);
    }

    /// Handles a key press seen at `now_ms`.
    pub fn on_key_press(&mut self, key: &str, now_ms: u64) -> (action: Option<HotkeyAction>)
        ensures
            final(self).pressed.view() == old(self).pressed.view().insert(key@, now_ms),
            action == press_action(
                old(self).pressed.view().dom().contains(key@),
                old(self).is_recording,
                old(self).push_to_talk,
                hotkey_held(old(self).cancel_hotkey.deep_view(), final(self).pressed.view().dom()),
                hotkey_held(old(self).hotkey.deep_view(), final(self).pressed.view().dom()),
            ),
            final(self).is_recording == recording_after(old(self).is_recording, action),
            final(self).record_start_ms == (if action == Some(HotkeyAction::StartRecording) {
                Some(now_ms)
            } else {
                old(self).record_start_ms
            }),
            final(self).hotkey == old(self).hotkey,
            final(self).cancel_hotkey == old(self).cancel_hotkey,
            final(self).push_to_talk == old(self).push_to_talk,
            action == Some(HotkeyAction::StartRecording) ==> !old(self).is_recording,
            action == Some(HotkeyAction::StopRecording) ==> old(self).is_recording && !old(self).push_to_talk,
            action == Some(HotkeyAction::CancelRecording) ==> old(self).is_recording,
            action != Some(HotkeyAction::CancelRecordingSilently),
    {
        let was_not_pressed = self.pressed.insert(key, now_ms);
        if !was_not_pressed {
            return None;
        }
        if self.is_recording && is_hotkey_pressed(&self.cancel_hotkey, &self.pressed) {
            self.is_recording = false;
            Some(HotkeyAction::CancelRecording)
        } else if is_hotkey_pressed(&self.hotkey, &self.pressed) {
            if !self.is_recording {
                self.is_recording = true;
                self.record_start_ms = Some(now_ms);
                Some(HotkeyAction::StartRecording)
            } else if !self.push_to_talk {
                self.is_recording = false;
                Some(HotkeyAction::StopRecording)
            } else {
                None
            }
        } else {
            None
        }
    }

    /// Handles a key release seen at `now_ms`.
    pub fn on_key_release(&mut self, key: &str, now_ms: u64) -> (action: Option<HotkeyAction>)
        ensures
            final(self).pressed.view() == old(self).pressed.view().remove(key@),
            action == release_action(
                old(self).is_recording,
                old(self).push_to_talk,
                key_in(key@, old(self).hotkey.deep_view()),
                quick_release(old(self).record_start_ms, now_ms),
            ),
            final(self).is_recording == recording_after(old(self).is_recording, action),
            final(self).record_start_ms == old(self).record_start_ms,
            final(self).hotkey == old(self).hotkey,
            final(self).cancel_hotkey == old(self).cancel_hotkey,
            final(self).push_to_talk == old(self).push_to_talk,
            action is Some ==> old(self).is_recording && old(self).push_to_talk,
            action != Some(HotkeyAction::StartRecording),
    {
        self.pressed.remove(key);
        if self.is_recording && self.push_to_talk && is_key_in_hotkey(key, &self.hotkey) {
            self.is_recording = false;
            let quick = match self.record_start_ms {
                Some(st) => now_ms <= st || now_ms - st < QUICK_RELEASE_MS,
                None => false,
            };
            if quick {
                Some(HotkeyAction::CancelRecordingSilently)
            } else {
                Some(HotkeyAction::StopRecording)
            }
        } else {
            None
        }
    }

    /// Forgets keys whose release was missed.
    pub fn release_keys(&mut self, keys: &Vec<String>)
        ensures
            forall|k: Seq<char>| #[trigger] final(self).pressed.view().dom().contains(k) <==>
                (old(self).pressed.view().dom().contains(k) && !keys.deep_view().contains(k)),
            forall|k: Seq<char>| #[trigger] final(self).pressed.view().dom().contains(k) ==>
                final(self).pressed.view()[k] == old(self).pressed.view()[k],
            final(self).hotkey == old(self).hotkey,
            final(self).cancel_hotkey == old(self).cancel_hotkey,
            final(self).push_to_talk == old(self).push_to_talk,
            final(self).is_recording == old(self).is_recording,
            final(self).record_start_ms == old(self).record_start_ms,
    {
        let mut i: usize = 0;
        while i < keys.len()
            invariant
                i <= keys@.len(),
                forall|k: Seq<char>| #[trigger] self.pressed.view().dom().contains(k) <==>
                    (old(self).pressed.view().dom().contains(k) && !keys.deep_view().take(i as int).contains(k)),
                forall|k: Seq<char>| #[trigger] self.pressed.view().dom().contains(k) ==>
                    self.pressed.view()[k] == old(self).pressed.view()[k],
                self.hotkey == old(self).hotkey,
                self.cancel_hotkey == old(self).cancel_hotkey,
                self.push_to_talk == old(self).push_to_talk,
                self.is_recording == old(self).is_recording,
                self.record_start_ms == old(self).record_start_ms,
            decreases keys@.len() - i,
        {
            self.pressed.remove(keys[i].as_str());
            proof {
                let t = keys.deep_view().take(i + 1);
                assert(t =~= keys.deep_view().take(i as int).push(keys.deep_view()[i as int]));
                assert forall|k: Seq<char>| t.contains(k) <==>
                    (keys.deep_view().take(i as int).contains(k) || k == keys.deep_view()[i as int]) by {
                    if t.contains(k) {
                        let j = choose|j: int| 0 <= j < t.len() && t[j] == k;
                        if j < i {
                            assert(keys.deep_view().take(i as int)[j] == k);
                        }
                    }
                    if keys.deep_view().take(i as int).contains(k) {
                        let j = choose|j: int| 0 <= j < i && keys.deep_view().take(i as int)[j] == k;
                        assert(t[j] == k);
                    }
                    assert(t[i as int] == keys.deep_view()[i as int]);
                }
            }
            i = i + 1;
        }
        proof {
            assert(keys.deep_view().take(keys@.len() as int) =~= keys.deep_view());
        }
    }
}


/// A recording may start only with a model selected whose files are on
/// disk; otherwise the user is told to pick one.
pub fn can_start_recording(active_model: &Option<String>, model_dir_exists: bool) -> (r: bool)
    ensures
        r == (active_model is Some && model_dir_exists),
{
    active_model.is_some() && model_dir_exists
}

/// An ASCII letter or digit.
pub open spec fn is_ascii_alnum(c: char) -> bool {
    (48 <= c as u32 <= 57) || (65 <= c as u32 <= 90) || (97 <= c as u32 <= 122)
}

/// The upper-case form of an ASCII letter; other characters unchanged.
pub open spec fn ascii_upper(c: char) -> int {
    if 97 <= c as u32 <= 122 {
        c as u32 - 32
    } else {
        c as u32 as int
    }
}

/// The Windows virtual-key code that the state of a key is queried by,
/// for the named keys and for single letters and digits; `None` for a
/// name that cannot be queried (such a key is taken to be still held).
pub open spec fn virtual_key(k: Seq<char>) -> Option<i32> {
    if k == "ControlLeft"@ {
        Some(0xA2)
    } else if k == "ControlRight"@ {
        Some(0xA3)
    } else if k == "ShiftLeft"@ {
        Some(0xA0)
    } else if k == "ShiftRight"@ {
        Some(0xA1)
    } else if k == "AltLeft"@ {
        Some(0xA4)
    } else if k == "AltRight"@ {
        Some(0xA5)
    } else if k == "MetaLeft"@ {
        Some(0x5B)
    } else if k == "MetaRight"@ {
        Some(0x5C)
    } else if k == "Space"@ {
        Some(0x20)
    } else if k == "Escape"@ {
        Some(0x1B)
    } else if k == "Enter"@ {
        Some(0x0D)
    } else if k == "Backspace"@ {
        Some(0x08)
    } else if k == "Tab"@ {
        Some(0x09)
    } else if k == "F1"@ {
        Some(0x70)
    } else if k == "F2"@ {
        Some(0x71)
    } else if k == "F3"@ {
        Some(0x72)
    } else if k == "F4"@ {
        Some(0x73)
    } else if k == "F5"@ {
        Some(0x74)
    } else if k == "F6"@ {
        Some(0x75)
    } else if k == "F7"@ {
        Some(0x76)
    } else if k == "F8"@ {
        Some(0x77)
    } else if k == "F9"@ {
        Some(0x78)
    } else if k == "F10"@ {
        Some(0x79)
    } else if k == "F11"@ {
        Some(0x7A)
    } else if k == "F12"@ {
        Some(0x7B)
    } else if k.len() == 1 && is_ascii_alnum(k[0]) {
        Some(ascii_upper(k[0]) as i32)
    } else {
        None
    }
}

/// The virtual-key code by which the held state of `key_str` is queried.
pub fn virtual_key_code(key_str: &str) -> (r: Option<i32>)
    ensures
        r == virtual_key(key_str@),
{
    if str_eq(key_str, "ControlLeft") {
        Some(0xA2)
    } else if str_eq(key_str, "ControlRight") {
        Some(0xA3)
    } else if str_eq(key_str, "ShiftLeft") {
        Some(0xA0)
    } else if str_eq(key_str, "ShiftRight") {
        Some(0xA1)
    } else if str_eq(key_str, "AltLeft") {
        Some(0xA4)
    } else if str_eq(key_str, "AltRight") {
        Some(0xA5)
    } else if str_eq(key_str, "MetaLeft") {
        Some(0x5B)
    } else if str_eq(key_str, "MetaRight") {
        Some(0x5C)
    } else if str_eq(key_str, "Space") {
        Some(0x20)
    } else if str_eq(key_str, "Escape") {
        Some(0x1B)
    } else if str_eq(key_str, "Enter") {
        Some(0x0D)
    } else if str_eq(key_str, "Backspace") {
        Some(0x08)
    } else if str_eq(key_str, "Tab") {
        Some(0x09)
    } else if str_eq(key_str, "F1") {
        Some(0x70)
    } else if str_eq(key_str, "F2") {
        Some(0x71)
    } else if str_eq(key_str, "F3") {
        Some(0x72)
    } else if str_eq(key_str, "F4") {
        Some(0x73)
    } else if str_eq(key_str, "F5") {
        Some(0x74)
    } else if str_eq(key_str, "F6") {
        Some(0x75)
    } else if str_eq(key_str, "F7") {
        Some(0x76)
    } else if str_eq(key_str, "F8") {
        Some(0x77)
    } else if str_eq(key_str, "F9") {
        Some(0x78)
    } else if str_eq(key_str, "F10") {
        Some(0x79)
    } else if str_eq(key_str, "F11") {
        Some(0x7A)
    } else if str_eq(key_str, "F12") {
        Some(0x7B)
    } else {
        let cs = crate::text::chars_of(key_str);
        if cs.len() == 1 {
            let c = cs[0];
            let n = c as u32;
            if (48 <= n && n <= 57) || (65 <= n && n <= 90) {
                Some(n as i32)
            } else if 97 <= n && n <= 122 {
                Some((n - 32) as i32)
            } else {
                None
            }
        } else {
            None
        }
    }
}

/// Milliseconds from `earlier` to `later` on the wrapping 32-bit tick counter.
pub open spec fn ticks_between(later: u32, earlier: u32) -> int {
    if later >= earlier {
        later - earlier
    } else {
        later - earlier + 0x1_0000_0000
    }
}

/// Whether the last user input (at `last_input_ticks`) lies less than three
/// seconds before `now_ticks`.
pub fn input_recently_active(now_ticks: u32, last_input_ticks: u32) -> (r: bool)
    ensures
        r == (ticks_between(now_ticks, last_input_ticks) < 3000),
{
    now_ticks.wrapping_sub(last_input_ticks) < 3000
}

/// Pressing a key that was not held and then releasing it leaves the set
/// of held keys as it was.
pub proof fn lemma_press_release_restores(before: Map<Seq<char>, u64>, key: Seq<char>, now_ms: u64)
    requires
        !before.dom().contains(key),
    ensures
        before.insert(key, now_ms).remove(key) == before,
{
    assert(before.insert(key, now_ms).remove(key) =~= before);
}

/// A hotkey made of one plain key is held exactly when that key is held
/// and no modifier is.
pub proof fn lemma_single_key_hotkey(key: Seq<char>, pressed: Set<Seq<char>>)
    requires
        sides_of(key) is None,
        !is_modifier_name(key),
    ensures
        key_in(key, seq![key]),
        hotkey_held(seq![key], pressed) <==> (pressed.contains(key)
            && forall|k: Seq<char>| #[trigger] pressed.contains(k) ==> !is_modifier_name(k)),
{
    let h = seq![key];
    assert(part_covers(h[0], key));
    if hotkey_held(h, pressed) {
        assert(part_held(h[0], pressed));
        assert forall|k: Seq<char>| #[trigger] pressed.contains(k) implies !is_modifier_name(k) by {
            if is_modifier_name(k) {
                assert(key_in(k, h));
                let i = choose|i: int| 0 <= i < h.len() && part_covers(#[trigger] h[i], k);
                assert(h[i] == key);
            }
        }
    }
}

proof fn lemma_sides_values()
    ensures
        sides_of("Control"@) == Some(("ControlLeft"@, "ControlRight"@)),
        sides_of("Shift"@) == Some(("ShiftLeft"@, "ShiftRight"@)),
        sides_of("Alt"@) == Some(("AltLeft"@, "AltRight"@)),
        sides_of("Meta"@) == Some(("MetaLeft"@, "MetaRight"@)),
        !is_modifier_name("Control"@),
        !is_modifier_name("Shift"@),
        !is_modifier_name("Alt"@),
        !is_modifier_name("Meta"@),
{
    reveal_strlit("ControlLeft");
    reveal_strlit("ControlRight");
    reveal_strlit("ShiftLeft");
    reveal_strlit("ShiftRight");
    reveal_strlit("AltLeft");
    reveal_strlit("AltRight");
    reveal_strlit("MetaLeft");
    reveal_strlit("MetaRight");
    reveal_strlit("Control");
    reveal_strlit("Shift");
    reveal_strlit("Alt");
    reveal_strlit("Meta");
    assert("Control"@[0] != "AltLeft"@[0]);
    assert("Shift"@.len() != "Control"@.len());
    assert("Alt"@.len() != "Control"@.len());
    assert("Alt"@.len() != "Shift"@.len());
    assert("Meta"@.len() != "Control"@.len());
    assert("Meta"@.len() != "Shift"@.len());
    assert("Meta"@.len() != "Alt"@.len());
}

/// The side-neutral modifiers of a hotkey stand for exactly the two keys
/// of that modifier as the keyboard hook names them: "Control" is held
/// when ControlLeft or ControlRight is, "Shift" with ShiftLeft or
/// ShiftRight, "Alt" with AltLeft or AltRight (the hook's name for AltGr),
/// "Meta" with MetaLeft or MetaRight; each covers exactly those keys (and
/// itself), so holding either side is never an extra modifier.
pub proof fn lemma_neutral_modifiers(pressed: Set<Seq<char>>, key: Seq<char>)
    ensures
        part_held("Control"@, pressed) <==> (pressed.contains("ControlLeft"@) || pressed.contains("ControlRight"@)),
        part_held("Shift"@, pressed) <==> (pressed.contains("ShiftLeft"@) || pressed.contains("ShiftRight"@)),
        part_held("Alt"@, pressed) <==> (pressed.contains("AltLeft"@) || pressed.contains("AltRight"@)),
        part_held("Meta"@, pressed) <==> (pressed.contains("MetaLeft"@) || pressed.contains("MetaRight"@)),
        part_covers("Control"@, key) <==> (key == "Control"@ || key == "ControlLeft"@ || key == "ControlRight"@),
        part_covers("Shift"@, key) <==> (key == "Shift"@ || key == "ShiftLeft"@ || key == "ShiftRight"@),
        part_covers("Alt"@, key) <==> (key == "Alt"@ || key == "AltLeft"@ || key == "AltRight"@),
        part_covers("Meta"@, key) <==> (key == "Meta"@ || key == "MetaLeft"@ || key == "MetaRight"@),
        key_name(KeyCode::Alt) == "AltLeft"@,
        key_name(KeyCode::AltGr) == "AltRight"@,
        is_modifier_name(key_name(KeyCode::AltGr)),
{
    lemma_sides_values();
}

/// A hotkey of one side-neutral modifier and a plain key is held exactly
/// when either side of the modifier and the key are held and no other
/// modifier is; e.g. right Alt with Space holds "Alt+Space".
pub proof fn lemma_alt_hotkey_either_side(key: Seq<char>, pressed: Set<Seq<char>>)
    requires
        sides_of(key) is None,
        !is_modifier_name(key),
        key != "Alt"@,
    ensures
        hotkey_held(seq!["Alt"@, key], pressed) <==> (
            (pressed.contains("AltLeft"@) || pressed.contains("AltRight"@))
            && pressed.contains(key)
            && forall|k: Seq<char>| #[trigger] pressed.contains(k) && is_modifier_name(k)
                ==> (k == "AltLeft"@ || k == "AltRight"@)),
{
    lemma_sides_values();
    let h = seq!["Alt"@, key];
    assert(h[0] == "Alt"@ && h[1] == key);
    if hotkey_held(h, pressed) {
        assert(part_held(h[0], pressed));
        assert(part_held(h[1], pressed));
        assert forall|k: Seq<char>| #[trigger] pressed.contains(k) && is_modifier_name(k)
            implies (k == "AltLeft"@ || k == "AltRight"@) by {
            assert(key_in(k, h));
            let i = choose|i: int| 0 <= i < h.len() && part_covers(#[trigger] h[i], k);
            if i == 1 {
                assert(k == key);
            }
        }
    }
    if (pressed.contains("AltLeft"@) || pressed.contains("AltRight"@)) && pressed.contains(key)
        && forall|k: Seq<char>| #[trigger] pressed.contains(k) && is_modifier_name(k) ==> (k == "AltLeft"@ || k == "AltRight"@) {
        assert forall|i: int| 0 <= i < h.len() implies part_held(#[trigger] h[i], pressed) by {
            if i == 1 {
                assert(h[i] == key);
            }
        }
        assert forall|k: Seq<char>| #[trigger] pressed.contains(k) && is_modifier_name(k) implies key_in(k, h) by {
            assert(part_covers(h[0], k));
        }
    }
}

} // verus!
