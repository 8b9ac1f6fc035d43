//! Keys, and which of them count as typed text rather than shortcuts.

use vstd::prelude::*;

verus! {

#[derive(Clone, Copy, Debug, PartialEq, Eq, Structural)]
pub enum KeyCode {
    Char(char),
    Enter,
    Esc,
    Tab,
    BackTab,
    Backspace,
    Left,
    Right,
    Up,
    Down,
    PageUp,
    PageDown,
    Home,
    End,
    F(u8),
    /// What some terminals send for Ctrl-Space.
    Null,
    /// A key nothing here answers to.
    Other,
}

/// The keys held down with another. `other` stands for any beyond the three.
#[derive(Clone, Copy, Debug, PartialEq, Eq, Structural)]
pub struct Modifiers {
    pub ctrl: bool,
    pub alt: bool,
    pub shift: bool,
    pub other: bool,
}

#[derive(Clone, Copy, Debug, PartialEq, Eq, Structural)]
pub struct KeyEvent {
    pub code: KeyCode,
    pub modifiers: Modifiers,
}

impl Modifiers {
    pub open spec fn none() -> Modifiers {
        Modifiers { ctrl: false, alt: false, shift: false, other: false }
    }

    pub open spec fn only_ctrl() -> Modifiers {
        Modifiers { ctrl: true, alt: false, shift: false, other: false }
    }

    pub fn plain() -> (modifiers: Modifiers)
        ensures
            modifiers == Modifiers::none(),
    {
        Modifiers { ctrl: false, alt: false, shift: false, other: false }
    }

    pub fn control() -> (modifiers: Modifiers)
        ensures
            modifiers == Modifiers::only_ctrl(),
    {
        Modifiers { ctrl: true, alt: false, shift: false, other: false }
    }
}

impl KeyEvent {
    /// Whether the key types: neither Ctrl nor Alt is held with it.
    pub open spec fn types(self) -> bool {
        !self.modifiers.ctrl && !self.modifiers.alt
    }

    /// Whether the key is a letter that types.
    pub open spec fn writes(self) -> bool {
        self.code is Char && self.types()
    }

    /// A key with nothing held down.
    pub fn plain(code: KeyCode) -> (key: KeyEvent)
        ensures
            key == (KeyEvent { code, modifiers: Modifiers::none() }),
    {
        KeyEvent { code, modifiers: Modifiers::plain() }
    }
}

/// Whether a key ends the wait after an action that ran in the terminal: Enter,
/// Esc or Ctrl-C.
pub open spec fn returns_to_picker(key: KeyEvent) -> bool {
    key.code == KeyCode::Enter || key.code == KeyCode::Esc || (key.code == KeyCode::Char('c')
        && key.modifiers.ctrl)
}

pub fn ends_wait(key: &KeyEvent) -> (res: bool)
    ensures
        res == returns_to_picker(*key),
{
    match key.code {
        KeyCode::Enter | KeyCode::Esc => true,
        KeyCode::Char(c) => c == 'c' && key.modifiers.ctrl,
        _ => false,
    }
}

/// Whether a `KeyCode::Char` event belongs in a filter.
///
/// Alt is a shortcut prefix in terminal applications, so Alt+d must not type
/// a `d`.
///
/// AltGr arrives as Ctrl+Alt on Windows, so characters typed with it do not
/// reach the filters either.
pub fn is_typed_text(key: &KeyEvent) -> (res: bool)
    ensures
        res == key.types(),
{
    !(key.modifiers.ctrl || key.modifiers.alt)
}

} // verus!
