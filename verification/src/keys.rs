//! The key and modifier vocabulary that bindings and the PTY encoder work
//! in. The windowing layer translates its own key events into these values.

use vstd::prelude::*;

verus! {

/// A physical key position (the subset that bindings can name).
#[derive(Clone, Copy, Debug, PartialEq, Eq, Structural)]
pub enum KeyCode {
    KeyA,
    KeyB,
    KeyC,
    KeyD,
    KeyE,
    KeyF,
    KeyG,
    KeyH,
    KeyI,
    KeyJ,
    KeyK,
    KeyL,
    KeyM,
    KeyN,
    KeyO,
    KeyP,
    KeyQ,
    KeyR,
    KeyS,
    KeyT,
    KeyU,
    KeyV,
    KeyW,
    KeyX,
    KeyY,
    KeyZ,
    Digit0,
    Digit1,
    Digit2,
    Digit3,
    Digit4,
    Digit5,
    Digit6,
    Digit7,
    Digit8,
    Digit9,
    Minus,
    Equal,
    BracketLeft,
    BracketRight,
    Semicolon,
    Quote,
    Backquote,
    Comma,
    Period,
    Slash,
    Backslash,
    ArrowLeft,
    ArrowRight,
    ArrowUp,
    ArrowDown,
    PageUp,
    PageDown,
    Home,
    End,
    Insert,
    Delete,
    Backspace,
    Tab,
    Enter,
    Space,
    Escape,
    F1,
    F2,
    F3,
    F4,
    F5,
    F6,
    F7,
    F8,
    F9,
    F10,
    F11,
    F12,
    /// Any other physical key.
    Other,
}

/// The set of held modifier keys.
#[derive(Clone, Copy, Debug, PartialEq, Eq, Structural)]
pub struct ModifiersState {
    pub shift: bool,
    pub control: bool,
    pub alt: bool,
    /// Command on macOS, Super/Windows elsewhere.
    pub logo: bool,
}

impl ModifiersState {
    pub open spec fn spec_empty() -> ModifiersState {
        ModifiersState { shift: false, control: false, alt: false, logo: false }
    }

    /// No modifier held.
    pub fn empty() -> (m: ModifiersState)
        ensures
            m == ModifiersState::spec_empty(),
    {
        ModifiersState { shift: false, control: false, alt: false, logo: false }
    }

    /// Shift alone.
    pub fn shift() -> (m: ModifiersState)
        ensures
            m == (ModifiersState { shift: true, ..ModifiersState::spec_empty() }),
    {
        ModifiersState { shift: true, control: false, alt: false, logo: false }
    }

    /// Control alone.
    pub fn control() -> (m: ModifiersState)
        ensures
            m == (ModifiersState { control: true, ..ModifiersState::spec_empty() }),
    {
        ModifiersState { shift: false, control: true, alt: false, logo: false }
    }

    /// Alt (Option) alone.
    pub fn alt() -> (m: ModifiersState)
        ensures
            m == (ModifiersState { alt: true, ..ModifiersState::spec_empty() }),
    {
        ModifiersState { shift: false, control: false, alt: true, logo: false }
    }

    /// Command/Super alone.
    pub fn logo() -> (m: ModifiersState)
        ensures
            m == (ModifiersState { logo: true, ..ModifiersState::spec_empty() }),
    {
        ModifiersState { shift: false, control: false, alt: false, logo: true }
    }

    pub open spec fn spec_union(self, other: ModifiersState) -> ModifiersState {
        ModifiersState {
            shift: self.shift || other.shift,
            control: self.control || other.control,
            alt: self.alt || other.alt,
            logo: self.logo || other.logo,
        }
    }

    /// The modifiers held in either set.
    pub fn union(self, other: ModifiersState) -> (m: ModifiersState)
        ensures
            m == self.spec_union(other),
    {
        ModifiersState {
            shift: self.shift || other.shift,
            control: self.control || other.control,
            alt: self.alt || other.alt,
            logo: self.logo || other.logo,
        }
    }
}

/// A named (non-character) logical key.
#[derive(Clone, Copy, Debug, PartialEq, Eq, Structural)]
pub enum NamedKey {
    Enter,
    Tab,
    Backspace,
    Escape,
    Space,
    ArrowUp,
    ArrowDown,
    ArrowRight,
    ArrowLeft,
    Home,
    End,
    PageUp,
    PageDown,
    Insert,
    Delete,
    F1,
    F2,
    F3,
    F4,
    F5,
    F6,
    F7,
    F8,
    F9,
    F10,
    F11,
    F12,
    /// Any other named key (ContextMenu, media keys, ...).
    Other,
}

/// A logical key as reported by the keyboard layout.
#[derive(Clone, Debug)]
pub enum Key {
    Named(NamedKey),
    /// A key that produces the given text.
    Character(String),
    /// A key the layout could not identify (or a dead key).
    Unidentified,
}

} // verus!
