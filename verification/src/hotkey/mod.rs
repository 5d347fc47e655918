//! Global hotkey description: key codes, modifier sets and the hotkey grammar.
//!
//! The operating-system keyboard hook that fires on a hotkey lives outside the
//! library; the library parses hotkey strings such as `"Ctrl+Shift+F9"`.

use vstd::prelude::*;

mod parser;

pub use parser::{
    ascii_lower_char, ascii_lowercase, ascii_upper_char, ascii_uppercase, is_ascii_text,
    key_code_from_name, lemma_ascii_case_insensitive, lemma_digit_key_names,
    lemma_function_key_names, lemma_letter_key_names, lemma_modifier_and_key, lemma_modifier_names, lemma_names_complete,
    lemma_other_key_names, lemma_single_key, modifier_from_name,
    parse_hotkey, parse_key_code, parse_modifier, spec_arrow_key, spec_digit_key,
    spec_function_key, spec_hotkey_parts, spec_key_code, spec_letter_key, spec_numpad_key,
    spec_punctuation_key, spec_special_key,
    spec_modifier, spec_modifiers, spec_modifiers_ascii, spec_parse_hotkey,
    spec_parse_hotkey_ascii, spec_to_lowercase, HotkeyOutcome,
};

verus! {

/// A key of the keyboard, named by its position on a US layout.
#[derive(Debug, Clone, Copy, PartialEq, Eq, Hash, Structural)]
pub enum KeyCode {
    F1,
    F2,
    F3,
    F4,
    F5,
    F6,
    F7,
    F8,
    F9,
    F10,
    F11,
    F12,
    F13,
    F14,
    F15,
    F16,
    F17,
    F18,
    F19,
    F20,
    F21,
    F22,
    F23,
    F24,
    Digit0,
    Digit1,
    Digit2,
    Digit3,
    Digit4,
    Digit5,
    Digit6,
    Digit7,
    Digit8,
    Digit9,
    KeyA,
    KeyB,
    KeyC,
    KeyD,
    KeyE,
    KeyF,
    KeyG,
    KeyH,
    KeyI,
    KeyJ,
    KeyK,
    KeyL,
    KeyM,
    KeyN,
    KeyO,
    KeyP,
    KeyQ,
    KeyR,
    KeyS,
    KeyT,
    KeyU,
    KeyV,
    KeyW,
    KeyX,
    KeyY,
    KeyZ,
    Space,
    Enter,
    Escape,
    Tab,
    Backspace,
    Delete,
    Insert,
    Home,
    End,
    PageUp,
    PageDown,
    ArrowUp,
    ArrowDown,
    ArrowLeft,
    ArrowRight,
    Numpad0,
    Numpad1,
    Numpad2,
    Numpad3,
    Numpad4,
    Numpad5,
    Numpad6,
    Numpad7,
    Numpad8,
    Numpad9,
    Backquote,
    Minus,
    Equal,
    BracketLeft,
    BracketRight,
    Backslash,
    Semicolon,
    Quote,
    Comma,
    Period,
    Slash,
}

/// A set of modifier keys, as bit flags (`SHIFT`, `CONTROL`, `ALT`, `META`).
#[derive(Debug, Clone, Copy, PartialEq, Eq, Hash, Structural)]
pub struct Modifiers {
    pub bits: u8,
}

impl Modifiers {
    /// The Shift key.
    pub const SHIFT: u8 = 1;

    /// The Control key.
    pub const CONTROL: u8 = 2;

    /// The Alt (Option) key.
    pub const ALT: u8 = 4;

    /// The Meta (Super, Windows, Command) key.
    pub const META: u8 = 8;

    /// The empty set.
    pub fn empty() -> (r: Modifiers)
        ensures
            r.bits == 0,
    {
        Modifiers { bits: 0 }
    }

    /// Whether no modifier is in the set.
    pub fn is_empty(&self) -> (r: bool)
        ensures
            r == (self.bits == 0),
    {
        self.bits == 0
    }

    /// Whether every modifier whose flag is set in `flags` is in the set.
    pub fn contains(&self, flags: u8) -> (r: bool)
        ensures
            r == (self.bits & flags == flags),
    {
        self.bits & flags == flags
    }

    /// The union of two sets.
    pub fn union(self, other: Modifiers) -> (r: Modifiers)
        ensures
            r.bits == self.bits | other.bits,
    {
        Modifiers { bits: self.bits | other.bits }
    }
}

/// A hotkey: a key together with the modifiers held with it.
#[derive(Debug, Clone, Copy, PartialEq, Eq, Hash, Structural)]
pub struct Hotkey {
    /// The key code of the hotkey.
    pub key_code: KeyCode,
    /// The modifiers of the hotkey.
    pub modifiers: Modifiers,
}

} // verus!
