//! Keys as a terminal reports them.
use vstd::prelude::*;

verus! {

/// A key. Keys that mean nothing here are all `Other`.
#[derive(Clone, Copy, Debug, PartialEq, Eq, Structural)]
pub enum KeyCode {
    Backspace,
    Enter,
    Left,
    Right,
    Up,
    Down,
    PageUp,
    PageDown,
    Tab,
    Delete,
    Esc,
    Char(char),
    Other,
}

/// The modifiers held down with a key.
#[derive(Clone, Copy, Debug, PartialEq, Eq, Structural)]
pub struct KeyModifiers {
    pub shift: bool,
    pub control: bool,
    pub alt: bool,
    pub logo: bool,
    pub hyper: bool,
    pub meta: bool,
}

/// Whether a key went down, is held, or went up.
#[derive(Clone, Copy, Debug, PartialEq, Eq, Structural)]
pub enum KeyEventKind {
    Press,
    Repeat,
    Release,
}

/// One event of the keyboard.
#[derive(Clone, Copy, Debug, PartialEq, Eq, Structural)]
pub struct KeyEvent {
    pub code: KeyCode,
    pub modifiers: KeyModifiers,
    pub kind: KeyEventKind,
}

impl KeyModifiers {
    /// No modifier at all.
    pub open spec fn is_none_spec(self) -> bool {
        !self.shift && !self.control && !self.alt && !self.logo && !self.hyper && !self.meta
    }

    /// No modifier at all.
    pub fn is_none(&self) -> (result: bool)
        ensures
            result == self.is_none_spec(),
    {
        !self.shift && !self.control && !self.alt && !self.logo && !self.hyper && !self.meta
    }

    /// No modifier, or shift alone.
    pub open spec fn is_plain_spec(self) -> bool {
        !self.control && !self.alt && !self.logo && !self.hyper && !self.meta
    }

    /// No modifier, or shift alone.
    pub fn is_plain(&self) -> (result: bool)
        ensures
            result == self.is_plain_spec(),
    {
        !self.control && !self.alt && !self.logo && !self.hyper && !self.meta
    }

    /// Control alone.
    pub open spec fn is_control_spec(self) -> bool {
        self.control && !self.shift && !self.alt && !self.logo && !self.hyper && !self.meta
    }

    /// Control alone.
    pub fn is_control(&self) -> (result: bool)
        ensures
            result == self.is_control_spec(),
    {
        self.control && !self.shift && !self.alt && !self.logo && !self.hyper && !self.meta
    }
}

/// No modifier at all.
pub open spec fn no_modifiers() -> KeyModifiers {
    KeyModifiers {
        shift: false,
        control: false,
        alt: false,
        logo: false,
        hyper: false,
        meta: false,
    }
}

impl Default for KeyModifiers {
    fn default() -> (result: Self)
        ensures
            result == no_modifiers(),
    {
        KeyModifiers {
            shift: false,
            control: false,
            alt: false,
            logo: false,
            hyper: false,
            meta: false,
        }
    }
}

impl KeyEvent {
    /// A key that went down.
    pub fn new(code: KeyCode, modifiers: KeyModifiers) -> (result: Self)
        ensures
            result == (KeyEvent { code, modifiers, kind: KeyEventKind::Press }),
    {
        KeyEvent { code, modifiers, kind: KeyEventKind::Press }
    }

    /// A key event of any kind.
    pub fn new_with_kind(code: KeyCode, modifiers: KeyModifiers, kind: KeyEventKind) -> (result:
        Self)
        ensures
            result == (KeyEvent { code, modifiers, kind }),
    {
        KeyEvent { code, modifiers, kind }
    }
}

/// Modifiers are none exactly if no key is held, plain exactly if none but shift is, and control
/// alone exactly if control is held and nothing else.
pub proof fn modifiers_are_told_apart(modifiers: KeyModifiers)
    ensures
        modifiers.is_none_spec() <==> modifiers == no_modifiers(),
        modifiers.is_plain_spec() <==> modifiers == no_modifiers() || modifiers == (KeyModifiers {
            shift: true,
            ..no_modifiers()
        }),
        modifiers.is_control_spec() <==> modifiers == (KeyModifiers {
            control: true,
            ..no_modifiers()
        }),
        !no_modifiers().shift && !no_modifiers().control && !no_modifiers().alt
            && !no_modifiers().logo && !no_modifiers().hyper && !no_modifiers().meta,
{
}

} // verus!
