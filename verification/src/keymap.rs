//! Keys and their modifiers, and which of them count as commands.

use vstd::prelude::*;

verus! {

/// A key on the keyboard. Keys without a meaning here are `Other`.
#[derive(Debug, Clone, Copy, PartialEq, Eq, Structural)]
pub enum KeyCode {
    Backspace,
    Enter,
    Left,
    Right,
    Up,
    Down,
    Home,
    End,
    PageUp,
    PageDown,
    Tab,
    BackTab,
    Delete,
    Insert,
    F(u8),
    Char(char),
    Esc,
    Other,
}

/// The modifiers held while a key was pressed.
#[derive(Debug, Clone, Copy, PartialEq, Eq, Structural)]
pub struct KeyModifiers {
    pub shift: bool,
    pub control: bool,
    pub alt: bool,
    pub super_key: bool,
    pub hyper: bool,
    pub meta: bool,
}

impl KeyModifiers {
    /// No modifier.
    #[verifier::allow_in_spec]
    pub fn none() -> KeyModifiers
        returns
            (KeyModifiers { shift: false, control: false, alt: false, super_key: false, hyper: false, meta: false }),
    {
        KeyModifiers { shift: false, control: false, alt: false, super_key: false, hyper: false, meta: false }
    }

    /// Shift alone.
    #[verifier::allow_in_spec]
    pub fn shift() -> KeyModifiers
        returns
            (KeyModifiers { shift: true, control: false, alt: false, super_key: false, hyper: false, meta: false }),
    {
        KeyModifiers { shift: true, control: false, alt: false, super_key: false, hyper: false, meta: false }
    }

    /// Control alone.
    #[verifier::allow_in_spec]
    pub fn control() -> KeyModifiers
        returns
            (KeyModifiers { shift: false, control: true, alt: false, super_key: false, hyper: false, meta: false }),
    {
        KeyModifiers { shift: false, control: true, alt: false, super_key: false, hyper: false, meta: false }
    }

    /// Alt alone.
    #[verifier::allow_in_spec]
    pub fn alt() -> KeyModifiers
        returns
            (KeyModifiers { shift: false, control: false, alt: true, super_key: false, hyper: false, meta: false }),
    {
        KeyModifiers { shift: false, control: false, alt: true, super_key: false, hyper: false, meta: false }
    }

    /// The command or Windows key alone.
    #[verifier::allow_in_spec]
    pub fn super_key() -> KeyModifiers
        returns
            (KeyModifiers { shift: false, control: false, alt: false, super_key: true, hyper: false, meta: false }),
    {
        KeyModifiers { shift: false, control: false, alt: false, super_key: true, hyper: false, meta: false }
    }

    /// Whether a modifier that turns a key into a command is held.
    pub open spec fn commands(self) -> bool {
        self.control || self.alt || self.super_key
    }
}

/// One key press.
#[derive(Debug, Clone, Copy, PartialEq, Eq, Structural)]
pub struct KeyEvent {
    pub code: KeyCode,
    pub modifiers: KeyModifiers,
}

impl KeyEvent {
    pub fn new(code: KeyCode, modifiers: KeyModifiers) -> (key: KeyEvent)
        ensures
            key == (KeyEvent { code, modifiers }),
    {
        KeyEvent { code, modifiers }
    }

    /// The key is `code`, pressed without a command modifier.
    pub open spec fn is_plain(self, code: KeyCode) -> bool {
        self.code == code && !self.modifiers.commands()
    }

    /// The key is `c`, pressed without a command modifier.
    pub open spec fn is_character(self, c: char) -> bool {
        self.is_plain(KeyCode::Char(c))
    }

    /// The key is `c` with Control held and nothing else.
    pub open spec fn is_control(self, c: char) -> bool {
        self.code == KeyCode::Char(c) && self.modifiers == KeyModifiers::control()
    }
}

/// No command modifier is held.
pub fn plain(key: KeyEvent) -> (r: bool)
    ensures
        r == !key.modifiers.commands(),
{
    !(key.modifiers.control || key.modifiers.alt || key.modifiers.super_key)
}

/// The key types `c`, without a command modifier.
pub fn character(key: KeyEvent, c: char) -> (r: bool)
    ensures
        r == key.is_character(c),
{
    key.code == KeyCode::Char(c) && plain(key)
}

/// The key is `c` with Control alone.
pub fn control(key: KeyEvent, c: char) -> (r: bool)
    ensures
        r == key.is_control(c),
{
    key.code == KeyCode::Char(c) && key.modifiers == KeyModifiers::control()
}

/// What a mouse did.
#[derive(Debug, Clone, Copy, PartialEq, Eq, Structural)]
pub enum MouseKind {
    /// The left button went down.
    Down,
    /// The left button came up.
    Up,
    /// The pointer moved with the left button held.
    Drag,
    /// The right button went down.
    RightDown,
    /// The middle button went down.
    MiddleDown,
    /// The pointer moved with no button held.
    Moved,
    ScrollUp,
    ScrollDown,
    /// Any other button or wheel direction.
    Other,
}

/// One mouse event, at a cell of the screen.
#[derive(Debug, Clone, Copy, PartialEq, Eq, Structural)]
pub struct MouseEvent {
    pub kind: MouseKind,
    pub column: u16,
    pub row: u16,
    /// The same button went down at the same cell a moment ago.
    pub repeated: bool,
}

/// No key both types a character and commands through Control.
pub proof fn lemma_text_and_command_exclude_each_other(key: KeyEvent, a: char, b: char)
    ensures
        !(key.is_character(a) && key.is_control(b)),
{
}

/// Control, Alt and the command key turn a letter into a command; Shift does not, and neither
/// does any other key.
pub proof fn lemma_which_keys_command(key: KeyEvent, c: char)
    ensures
        key.modifiers.control || key.modifiers.alt || key.modifiers.super_key
            <==> key.modifiers.commands(),
        key.code == KeyCode::Char(c) && (key.modifiers == KeyModifiers::none() || key.modifiers
            == KeyModifiers::shift()) ==> key.is_character(c),
        key.code == KeyCode::Char(c) && key.modifiers == KeyModifiers::control() ==> key.is_control(
            c,
        ),
        key.is_control(c) ==> key.code == KeyCode::Char(c) && key.modifiers.control
            && !key.modifiers.shift && !key.modifiers.alt,
        key.is_character(c) ==> key.code == KeyCode::Char(c) && !key.modifiers.control
            && !key.modifiers.alt && !key.modifiers.super_key,
{
}

} // verus!
