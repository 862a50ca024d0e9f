//! Keys of a keyboard, and the key a Windows virtual-key number stands for.
use vstd::prelude::*;

verus! {

/// A key of a keyboard.
#[derive(Clone, Copy, PartialEq, Eq, Debug, Structural)]
pub enum KeyCode {
    Backspace,
    Tab,
    Clear,
    Enter,
    Shift,
    LShift,
    RShift,
    Ctrl,
    LCtr,
    RCtr,
    Alt,
    LAlt,
    RAlt,
    Break,
    Escape,
    Space,
    PgUp,
    PgDown,
    End,
    Home,
    Left,
    Up,
    Right,
    Down,
    PrintScreen,
    Insert,
    Delete,
    LCommand,
    RCommand,
    Menu,
    Numpad0,
    Numpad1,
    Numpad2,
    Numpad3,
    Numpad4,
    Numpad5,
    Numpad6,
    Numpad7,
    Numpad8,
    Numpad9,
    NumpadMultipy,
    NumpadAdd,
    NumpadSubtract,
    NumpadDecimal,
    NumpadDivide,
    F1,
    F2,
    F3,
    F4,
    F5,
    F6,
    F7,
    F8,
    F9,
    F10,
    F11,
    F12,
    NumLock,
    ScrollLock,
    A,
    B,
    C,
    D,
    E,
    F,
    G,
    H,
    I,
    J,
    K,
    L,
    M,
    N,
    O,
    P,
    Q,
    R,
    S,
    T,
    U,
    V,
    W,
    X,
    Y,
    Z,
    N0,
    N1,
    N2,
    N3,
    N4,
    N5,
    N6,
    N7,
    N8,
    N9,
    Backtick,
    Exclamation,
    Dollar,
    Caret,
    Ampersand,
    Asterisk,
    LParen,
    RParen,
    Hyphen,
    Underscore,
    Equals,
    LBracket,
    RBracket,
    Backslash,
    Colon,
    Semicolon,
    Quote,
    Apostrophe,
    Comma,
    Period,
    Slash,
    EAcute,
    EGrave,
    AGrave,
    CCedilla,
    Section,
}

/// The key a virtual-key number stands for on every keyboard layout: letters, digits,
/// function and numpad keys, modifiers, and the editing and navigation keys.
pub open spec fn fixed_key_code(virtual_key: u16) -> Option<KeyCode> {
    match virtual_key {
        0x08 => Some(KeyCode::Backspace),
        0x09 => Some(KeyCode::Tab),
        0x0C => Some(KeyCode::Clear),
        0x0D => Some(KeyCode::Enter),
        0x10 => Some(KeyCode::Shift),
        0xA0 => Some(KeyCode::LShift),
        0xA1 => Some(KeyCode::RShift),
        0x11 => Some(KeyCode::Ctrl),
        0xA2 => Some(KeyCode::LCtr),
        0xA3 => Some(KeyCode::RCtr),
        0x12 => Some(KeyCode::Alt),
        0xA4 => Some(KeyCode::LAlt),
        0xA5 => Some(KeyCode::RAlt),
        0x13 => Some(KeyCode::Break),
        0x1B => Some(KeyCode::Escape),
        0x20 => Some(KeyCode::Space),
        0x21 => Some(KeyCode::PgUp),
        0x22 => Some(KeyCode::PgDown),
        0x23 => Some(KeyCode::End),
        0x24 => Some(KeyCode::Home),
        0x25 => Some(KeyCode::Left),
        0x26 => Some(KeyCode::Up),
        0x27 => Some(KeyCode::Right),
        0x28 => Some(KeyCode::Down),
        0x2C => Some(KeyCode::PrintScreen),
        0x2D => Some(KeyCode::Insert),
        0x2E => Some(KeyCode::Delete),
        0x5B => Some(KeyCode::LCommand),
        0x5C => Some(KeyCode::RCommand),
        0x5D => Some(KeyCode::Menu),
        0x60 => Some(KeyCode::Numpad0),
        0x61 => Some(KeyCode::Numpad1),
        0x62 => Some(KeyCode::Numpad2),
        0x63 => Some(KeyCode::Numpad3),
        0x64 => Some(KeyCode::Numpad4),
        0x65 => Some(KeyCode::Numpad5),
        0x66 => Some(KeyCode::Numpad6),
        0x67 => Some(KeyCode::Numpad7),
        0x68 => Some(KeyCode::Numpad8),
        0x69 => Some(KeyCode::Numpad9),
        0x6A => Some(KeyCode::NumpadMultipy),
        0x6B => Some(KeyCode::NumpadAdd),
        0x6D => Some(KeyCode::NumpadSubtract),
        0x6E => Some(KeyCode::NumpadDecimal),
        0x6F => Some(KeyCode::NumpadDivide),
        0x70 => Some(KeyCode::F1),
        0x71 => Some(KeyCode::F2),
        0x72 => Some(KeyCode::F3),
        0x73 => Some(KeyCode::F4),
        0x74 => Some(KeyCode::F5),
        0x75 => Some(KeyCode::F6),
        0x76 => Some(KeyCode::F7),
        0x77 => Some(KeyCode::F8),
        0x78 => Some(KeyCode::F9),
        0x79 => Some(KeyCode::F10),
        0x7A => Some(KeyCode::F11),
        0x7B => Some(KeyCode::F12),
        0x90 => Some(KeyCode::NumLock),
        0x91 => Some(KeyCode::ScrollLock),
        0x41 => Some(KeyCode::A),
        0x42 => Some(KeyCode::B),
        0x43 => Some(KeyCode::C),
        0x44 => Some(KeyCode::D),
        0x45 => Some(KeyCode::E),
        0x46 => Some(KeyCode::F),
        0x47 => Some(KeyCode::G),
        0x48 => Some(KeyCode::H),
        0x49 => Some(KeyCode::I),
        0x4A => Some(KeyCode::J),
        0x4B => Some(KeyCode::K),
        0x4C => Some(KeyCode::L),
        0x4D => Some(KeyCode::M),
        0x4E => Some(KeyCode::N),
        0x4F => Some(KeyCode::O),
        0x50 => Some(KeyCode::P),
        0x51 => Some(KeyCode::Q),
        0x52 => Some(KeyCode::R),
        0x53 => Some(KeyCode::S),
        0x54 => Some(KeyCode::T),
        0x55 => Some(KeyCode::U),
        0x56 => Some(KeyCode::V),
        0x57 => Some(KeyCode::W),
        0x58 => Some(KeyCode::X),
        0x59 => Some(KeyCode::Y),
        0x5A => Some(KeyCode::Z),
        0x30 => Some(KeyCode::N0),
        0x31 => Some(KeyCode::N1),
        0x32 => Some(KeyCode::N2),
        0x33 => Some(KeyCode::N3),
        0x34 => Some(KeyCode::N4),
        0x35 => Some(KeyCode::N5),
        0x36 => Some(KeyCode::N6),
        0x37 => Some(KeyCode::N7),
        0x38 => Some(KeyCode::N8),
        0x39 => Some(KeyCode::N9),
        _ => None,
    }
}

/// The key a character of the keyboard layout stands for: punctuation and a few accented
/// letters.
pub open spec fn layout_key_code(ch: char) -> Option<KeyCode> {
    match ch {
        '`' => Some(KeyCode::Backtick),
        '!' => Some(KeyCode::Exclamation),
        '$' => Some(KeyCode::Dollar),
        '^' => Some(KeyCode::Caret),
        '&' => Some(KeyCode::Ampersand),
        '*' => Some(KeyCode::Asterisk),
        '(' => Some(KeyCode::LParen),
        ')' => Some(KeyCode::RParen),
        '-' => Some(KeyCode::Hyphen),
        '_' => Some(KeyCode::Underscore),
        '=' => Some(KeyCode::Equals),
        '[' => Some(KeyCode::LBracket),
        ']' => Some(KeyCode::RBracket),
        '\\' => Some(KeyCode::Backslash),
        ':' => Some(KeyCode::Colon),
        ';' => Some(KeyCode::Semicolon),
        '"' => Some(KeyCode::Quote),
        '\'' => Some(KeyCode::Apostrophe),
        ',' => Some(KeyCode::Comma),
        '.' => Some(KeyCode::Period),
        '/' => Some(KeyCode::Slash),
        '\u{e9}' => Some(KeyCode::EAcute),
        '\u{e8}' => Some(KeyCode::EGrave),
        '\u{e0}' => Some(KeyCode::AGrave),
        '\u{e7}' => Some(KeyCode::CCedilla),
        '\u{a7}' => Some(KeyCode::Section),
        _ => None,
    }
}

/// The key code of a virtual key: the fixed key where the number has one, else the key that
/// the layout's character for it stands for, if a character was given.
pub open spec fn key_code_of(virtual_key: u16, layout_char: Option<char>) -> Option<KeyCode> {
    match fixed_key_code(virtual_key) {
        Some(k) => Some(k),
        None => match layout_char {
            Some(ch) => layout_key_code(ch),
            None => None,
        },
    }
}

fn fixed_key(virtual_key: u16) -> (r: Option<KeyCode>)
    ensures
        r == fixed_key_code(virtual_key),
{
    match virtual_key {
        0x08 => Some(KeyCode::Backspace),
        0x09 => Some(KeyCode::Tab),
        0x0C => Some(KeyCode::Clear),
        0x0D => Some(KeyCode::Enter),
        0x10 => Some(KeyCode::Shift),
        0xA0 => Some(KeyCode::LShift),
        0xA1 => Some(KeyCode::RShift),
        0x11 => Some(KeyCode::Ctrl),
        0xA2 => Some(KeyCode::LCtr),
        0xA3 => Some(KeyCode::RCtr),
        0x12 => Some(KeyCode::Alt),
        0xA4 => Some(KeyCode::LAlt),
        0xA5 => Some(KeyCode::RAlt),
        0x13 => Some(KeyCode::Break),
        0x1B => Some(KeyCode::Escape),
        0x20 => Some(KeyCode::Space),
        0x21 => Some(KeyCode::PgUp),
        0x22 => Some(KeyCode::PgDown),
        0x23 => Some(KeyCode::End),
        0x24 => Some(KeyCode::Home),
        0x25 => Some(KeyCode::Left),
        0x26 => Some(KeyCode::Up),
        0x27 => Some(KeyCode::Right),
        0x28 => Some(KeyCode::Down),
        0x2C => Some(KeyCode::PrintScreen),
        0x2D => Some(KeyCode::Insert),
        0x2E => Some(KeyCode::Delete),
        0x5B => Some(KeyCode::LCommand),
        0x5C => Some(KeyCode::RCommand),
        0x5D => Some(KeyCode::Menu),
        0x60 => Some(KeyCode::Numpad0),
        0x61 => Some(KeyCode::Numpad1),
        0x62 => Some(KeyCode::Numpad2),
        0x63 => Some(KeyCode::Numpad3),
        0x64 => Some(KeyCode::Numpad4),
        0x65 => Some(KeyCode::Numpad5),
        0x66 => Some(KeyCode::Numpad6),
        0x67 => Some(KeyCode::Numpad7),
        0x68 => Some(KeyCode::Numpad8),
        0x69 => Some(KeyCode::Numpad9),
        0x6A => Some(KeyCode::NumpadMultipy),
        0x6B => Some(KeyCode::NumpadAdd),
        0x6D => Some(KeyCode::NumpadSubtract),
        0x6E => Some(KeyCode::NumpadDecimal),
        0x6F => Some(KeyCode::NumpadDivide),
        0x70 => Some(KeyCode::F1),
        0x71 => Some(KeyCode::F2),
        0x72 => Some(KeyCode::F3),
        0x73 => Some(KeyCode::F4),
        0x74 => Some(KeyCode::F5),
        0x75 => Some(KeyCode::F6),
        0x76 => Some(KeyCode::F7),
        0x77 => Some(KeyCode::F8),
        0x78 => Some(KeyCode::F9),
        0x79 => Some(KeyCode::F10),
        0x7A => Some(KeyCode::F11),
        0x7B => Some(KeyCode::F12),
        0x90 => Some(KeyCode::NumLock),
        0x91 => Some(KeyCode::ScrollLock),
        0x41 => Some(KeyCode::A),
        0x42 => Some(KeyCode::B),
        0x43 => Some(KeyCode::C),
        0x44 => Some(KeyCode::D),
        0x45 => Some(KeyCode::E),
        0x46 => Some(KeyCode::F),
        0x47 => Some(KeyCode::G),
        0x48 => Some(KeyCode::H),
        0x49 => Some(KeyCode::I),
        0x4A => Some(KeyCode::J),
        0x4B => Some(KeyCode::K),
        0x4C => Some(KeyCode::L),
        0x4D => Some(KeyCode::M),
        0x4E => Some(KeyCode::N),
        0x4F => Some(KeyCode::O),
        0x50 => Some(KeyCode::P),
        0x51 => Some(KeyCode::Q),
        0x52 => Some(KeyCode::R),
        0x53 => Some(KeyCode::S),
        0x54 => Some(KeyCode::T),
        0x55 => Some(KeyCode::U),
        0x56 => Some(KeyCode::V),
        0x57 => Some(KeyCode::W),
        0x58 => Some(KeyCode::X),
        0x59 => Some(KeyCode::Y),
        0x5A => Some(KeyCode::Z),
        0x30 => Some(KeyCode::N0),
        0x31 => Some(KeyCode::N1),
        0x32 => Some(KeyCode::N2),
        0x33 => Some(KeyCode::N3),
        0x34 => Some(KeyCode::N4),
        0x35 => Some(KeyCode::N5),
        0x36 => Some(KeyCode::N6),
        0x37 => Some(KeyCode::N7),
        0x38 => Some(KeyCode::N8),
        0x39 => Some(KeyCode::N9),
        _ => None,
    }
}

fn layout_key(ch: char) -> (r: Option<KeyCode>)
    ensures
        r == layout_key_code(ch),
{
    match ch {
        '`' => Some(KeyCode::Backtick),
        '!' => Some(KeyCode::Exclamation),
        '$' => Some(KeyCode::Dollar),
        '^' => Some(KeyCode::Caret),
        '&' => Some(KeyCode::Ampersand),
        '*' => Some(KeyCode::Asterisk),
        '(' => Some(KeyCode::LParen),
        ')' => Some(KeyCode::RParen),
        '-' => Some(KeyCode::Hyphen),
        '_' => Some(KeyCode::Underscore),
        '=' => Some(KeyCode::Equals),
        '[' => Some(KeyCode::LBracket),
        ']' => Some(KeyCode::RBracket),
        '\\' => Some(KeyCode::Backslash),
        ':' => Some(KeyCode::Colon),
        ';' => Some(KeyCode::Semicolon),
        '"' => Some(KeyCode::Quote),
        '\'' => Some(KeyCode::Apostrophe),
        ',' => Some(KeyCode::Comma),
        '.' => Some(KeyCode::Period),
        '/' => Some(KeyCode::Slash),
        '\u{e9}' => Some(KeyCode::EAcute),
        '\u{e8}' => Some(KeyCode::EGrave),
        '\u{e0}' => Some(KeyCode::AGrave),
        '\u{e7}' => Some(KeyCode::CCedilla),
        '\u{a7}' => Some(KeyCode::Section),
        _ => None,
    }
}

/// The key code of a Windows virtual-key number.  Keys with a fixed meaning are read from the
/// number itself; for any other key, `layout_char` is the character that the active keyboard
/// layout maps the key to (or `None` where it maps it to none), and the punctuation and
/// accented letters among those characters are recognized.
pub fn vk_to_keycode(virtual_key: u16, layout_char: Option<char>) -> (r: Option<KeyCode>)
    ensures
        r == key_code_of(virtual_key, layout_char),
{
    match fixed_key(virtual_key) {
        Some(k) => Some(k),
        None => match layout_char {
            Some(ch) => layout_key(ch),
            None => None,
        },
    }
}

/// Windows virtual-key number `VK_BACK`.
pub const VK_BACK: u16 = 0x08;
/// Windows virtual-key number `VK_TAB`.
pub const VK_TAB: u16 = 0x09;
/// Windows virtual-key number `VK_CLEAR`.
pub const VK_CLEAR: u16 = 0x0C;
/// Windows virtual-key number `VK_RETURN`.
pub const VK_RETURN: u16 = 0x0D;
/// Windows virtual-key number `VK_SHIFT`.
pub const VK_SHIFT: u16 = 0x10;
/// Windows virtual-key number `VK_LSHIFT`.
pub const VK_LSHIFT: u16 = 0xA0;
/// Windows virtual-key number `VK_RSHIFT`.
pub const VK_RSHIFT: u16 = 0xA1;
/// Windows virtual-key number `VK_CONTROL`.
pub const VK_CONTROL: u16 = 0x11;
/// Windows virtual-key number `VK_LCONTROL`.
pub const VK_LCONTROL: u16 = 0xA2;
/// Windows virtual-key number `VK_RCONTROL`.
pub const VK_RCONTROL: u16 = 0xA3;
/// Windows virtual-key number `VK_MENU`.
pub const VK_MENU: u16 = 0x12;
/// Windows virtual-key number `VK_LMENU`.
pub const VK_LMENU: u16 = 0xA4;
/// Windows virtual-key number `VK_RMENU`.
pub const VK_RMENU: u16 = 0xA5;
/// Windows virtual-key number `VK_PAUSE`.
pub const VK_PAUSE: u16 = 0x13;
/// Windows virtual-key number `VK_ESCAPE`.
pub const VK_ESCAPE: u16 = 0x1B;
/// Windows virtual-key number `VK_SPACE`.
pub const VK_SPACE: u16 = 0x20;
/// Windows virtual-key number `VK_PRIOR`.
pub const VK_PRIOR: u16 = 0x21;
/// Windows virtual-key number `VK_NEXT`.
pub const VK_NEXT: u16 = 0x22;
/// Windows virtual-key number `VK_END`.
pub const VK_END: u16 = 0x23;
/// Windows virtual-key number `VK_HOME`.
pub const VK_HOME: u16 = 0x24;
/// Windows virtual-key number `VK_LEFT`.
pub const VK_LEFT: u16 = 0x25;
/// Windows virtual-key number `VK_UP`.
pub const VK_UP: u16 = 0x26;
/// Windows virtual-key number `VK_RIGHT`.
pub const VK_RIGHT: u16 = 0x27;
/// Windows virtual-key number `VK_DOWN`.
pub const VK_DOWN: u16 = 0x28;
/// Windows virtual-key number `VK_SNAPSHOT`.
pub const VK_SNAPSHOT: u16 = 0x2C;
/// Windows virtual-key number `VK_INSERT`.
pub const VK_INSERT: u16 = 0x2D;
/// Windows virtual-key number `VK_DELETE`.
pub const VK_DELETE: u16 = 0x2E;
/// Windows virtual-key number `VK_LWIN`.
pub const VK_LWIN: u16 = 0x5B;
/// Windows virtual-key number `VK_RWIN`.
pub const VK_RWIN: u16 = 0x5C;
/// Windows virtual-key number `VK_APPS`.
pub const VK_APPS: u16 = 0x5D;
/// Windows virtual-key number `VK_NUMPAD0`.
pub const VK_NUMPAD0: u16 = 0x60;
/// Windows virtual-key number `VK_NUMPAD1`.
pub const VK_NUMPAD1: u16 = 0x61;
/// Windows virtual-key number `VK_NUMPAD2`.
pub const VK_NUMPAD2: u16 = 0x62;
/// Windows virtual-key number `VK_NUMPAD3`.
pub const VK_NUMPAD3: u16 = 0x63;
/// Windows virtual-key number `VK_NUMPAD4`.
pub const VK_NUMPAD4: u16 = 0x64;
/// Windows virtual-key number `VK_NUMPAD5`.
pub const VK_NUMPAD5: u16 = 0x65;
/// Windows virtual-key number `VK_NUMPAD6`.
pub const VK_NUMPAD6: u16 = 0x66;
/// Windows virtual-key number `VK_NUMPAD7`.
pub const VK_NUMPAD7: u16 = 0x67;
/// Windows virtual-key number `VK_NUMPAD8`.
pub const VK_NUMPAD8: u16 = 0x68;
/// Windows virtual-key number `VK_NUMPAD9`.
pub const VK_NUMPAD9: u16 = 0x69;
/// Windows virtual-key number `VK_MULTIPLY`.
pub const VK_MULTIPLY: u16 = 0x6A;
/// Windows virtual-key number `VK_ADD`.
pub const VK_ADD: u16 = 0x6B;
/// Windows virtual-key number `VK_SUBTRACT`.
pub const VK_SUBTRACT: u16 = 0x6D;
/// Windows virtual-key number `VK_DECIMAL`.
pub const VK_DECIMAL: u16 = 0x6E;
/// Windows virtual-key number `VK_DIVIDE`.
pub const VK_DIVIDE: u16 = 0x6F;
/// Windows virtual-key number `VK_F1`.
pub const VK_F1: u16 = 0x70;
/// Windows virtual-key number `VK_F2`.
pub const VK_F2: u16 = 0x71;
/// Windows virtual-key number `VK_F3`.
pub const VK_F3: u16 = 0x72;
/// Windows virtual-key number `VK_F4`.
pub const VK_F4: u16 = 0x73;
/// Windows virtual-key number `VK_F5`.
pub const VK_F5: u16 = 0x74;
/// Windows virtual-key number `VK_F6`.
pub const VK_F6: u16 = 0x75;
/// Windows virtual-key number `VK_F7`.
pub const VK_F7: u16 = 0x76;
/// Windows virtual-key number `VK_F8`.
pub const VK_F8: u16 = 0x77;
/// Windows virtual-key number `VK_F9`.
pub const VK_F9: u16 = 0x78;
/// Windows virtual-key number `VK_F10`.
pub const VK_F10: u16 = 0x79;
/// Windows virtual-key number `VK_F11`.
pub const VK_F11: u16 = 0x7A;
/// Windows virtual-key number `VK_F12`.
pub const VK_F12: u16 = 0x7B;
/// Windows virtual-key number `VK_NUMLOCK`.
pub const VK_NUMLOCK: u16 = 0x90;
/// Windows virtual-key number `VK_SCROLL`.
pub const VK_SCROLL: u16 = 0x91;
/// Windows virtual-key number `VK_A`.
pub const VK_A: u16 = 0x41;
/// Windows virtual-key number `VK_B`.
pub const VK_B: u16 = 0x42;
/// Windows virtual-key number `VK_C`.
pub const VK_C: u16 = 0x43;
/// Windows virtual-key number `VK_D`.
pub const VK_D: u16 = 0x44;
/// Windows virtual-key number `VK_E`.
pub const VK_E: u16 = 0x45;
/// Windows virtual-key number `VK_F`.
pub const VK_F: u16 = 0x46;
/// Windows virtual-key number `VK_G`.
pub const VK_G: u16 = 0x47;
/// Windows virtual-key number `VK_H`.
pub const VK_H: u16 = 0x48;
/// Windows virtual-key number `VK_I`.
pub const VK_I: u16 = 0x49;
/// Windows virtual-key number `VK_J`.
pub const VK_J: u16 = 0x4A;
/// Windows virtual-key number `VK_K`.
pub const VK_K: u16 = 0x4B;
/// Windows virtual-key number `VK_L`.
pub const VK_L: u16 = 0x4C;
/// Windows virtual-key number `VK_M`.
pub const VK_M: u16 = 0x4D;
/// Windows virtual-key number `VK_N`.
pub const VK_N: u16 = 0x4E;
/// Windows virtual-key number `VK_O`.
pub const VK_O: u16 = 0x4F;
/// Windows virtual-key number `VK_P`.
pub const VK_P: u16 = 0x50;
/// Windows virtual-key number `VK_Q`.
pub const VK_Q: u16 = 0x51;
/// Windows virtual-key number `VK_R`.
pub const VK_R: u16 = 0x52;
/// Windows virtual-key number `VK_S`.
pub const VK_S: u16 = 0x53;
/// Windows virtual-key number `VK_T`.
pub const VK_T: u16 = 0x54;
/// Windows virtual-key number `VK_U`.
pub const VK_U: u16 = 0x55;
/// Windows virtual-key number `VK_V`.
pub const VK_V: u16 = 0x56;
/// Windows virtual-key number `VK_W`.
pub const VK_W: u16 = 0x57;
/// Windows virtual-key number `VK_X`.
pub const VK_X: u16 = 0x58;
/// Windows virtual-key number `VK_Y`.
pub const VK_Y: u16 = 0x59;
/// Windows virtual-key number `VK_Z`.
pub const VK_Z: u16 = 0x5A;
/// Windows virtual-key number `VK_0`.
pub const VK_0: u16 = 0x30;
/// Windows virtual-key number `VK_1`.
pub const VK_1: u16 = 0x31;
/// Windows virtual-key number `VK_2`.
pub const VK_2: u16 = 0x32;
/// Windows virtual-key number `VK_3`.
pub const VK_3: u16 = 0x33;
/// Windows virtual-key number `VK_4`.
pub const VK_4: u16 = 0x34;
/// Windows virtual-key number `VK_5`.
pub const VK_5: u16 = 0x35;
/// Windows virtual-key number `VK_6`.
pub const VK_6: u16 = 0x36;
/// Windows virtual-key number `VK_7`.
pub const VK_7: u16 = 0x37;
/// Windows virtual-key number `VK_8`.
pub const VK_8: u16 = 0x38;
/// Windows virtual-key number `VK_9`.
pub const VK_9: u16 = 0x39;

/// Every virtual key with a fixed meaning stands for the key Windows names it after, whatever
/// character the keyboard layout gives it.
pub proof fn law_virtual_key_codes(layout_char: Option<char>)
    ensures
        key_code_of(VK_BACK, layout_char) == Some(KeyCode::Backspace),
        key_code_of(VK_TAB, layout_char) == Some(KeyCode::Tab),
        key_code_of(VK_CLEAR, layout_char) == Some(KeyCode::Clear),
        key_code_of(VK_RETURN, layout_char) == Some(KeyCode::Enter),
        key_code_of(VK_SHIFT, layout_char) == Some(KeyCode::Shift),
        key_code_of(VK_LSHIFT, layout_char) == Some(KeyCode::LShift),
        key_code_of(VK_RSHIFT, layout_char) == Some(KeyCode::RShift),
        key_code_of(VK_CONTROL, layout_char) == Some(KeyCode::Ctrl),
        key_code_of(VK_LCONTROL, layout_char) == Some(KeyCode::LCtr),
        key_code_of(VK_RCONTROL, layout_char) == Some(KeyCode::RCtr),
        key_code_of(VK_MENU, layout_char) == Some(KeyCode::Alt),
        key_code_of(VK_LMENU, layout_char) == Some(KeyCode::LAlt),
        key_code_of(VK_RMENU, layout_char) == Some(KeyCode::RAlt),
        key_code_of(VK_PAUSE, layout_char) == Some(KeyCode::Break),
        key_code_of(VK_ESCAPE, layout_char) == Some(KeyCode::Escape),
        key_code_of(VK_SPACE, layout_char) == Some(KeyCode::Space),
        key_code_of(VK_PRIOR, layout_char) == Some(KeyCode::PgUp),
        key_code_of(VK_NEXT, layout_char) == Some(KeyCode::PgDown),
        key_code_of(VK_END, layout_char) == Some(KeyCode::End),
        key_code_of(VK_HOME, layout_char) == Some(KeyCode::Home),
        key_code_of(VK_LEFT, layout_char) == Some(KeyCode::Left),
        key_code_of(VK_UP, layout_char) == Some(KeyCode::Up),
        key_code_of(VK_RIGHT, layout_char) == Some(KeyCode::Right),
        key_code_of(VK_DOWN, layout_char) == Some(KeyCode::Down),
        key_code_of(VK_SNAPSHOT, layout_char) == Some(KeyCode::PrintScreen),
        key_code_of(VK_INSERT, layout_char) == Some(KeyCode::Insert),
        key_code_of(VK_DELETE, layout_char) == Some(KeyCode::Delete),
        key_code_of(VK_LWIN, layout_char) == Some(KeyCode::LCommand),
        key_code_of(VK_RWIN, layout_char) == Some(KeyCode::RCommand),
        key_code_of(VK_APPS, layout_char) == Some(KeyCode::Menu),
        key_code_of(VK_NUMPAD0, layout_char) == Some(KeyCode::Numpad0),
        key_code_of(VK_NUMPAD1, layout_char) == Some(KeyCode::Numpad1),
        key_code_of(VK_NUMPAD2, layout_char) == Some(KeyCode::Numpad2),
        key_code_of(VK_NUMPAD3, layout_char) == Some(KeyCode::Numpad3),
        key_code_of(VK_NUMPAD4, layout_char) == Some(KeyCode::Numpad4),
        key_code_of(VK_NUMPAD5, layout_char) == Some(KeyCode::Numpad5),
        key_code_of(VK_NUMPAD6, layout_char) == Some(KeyCode::Numpad6),
        key_code_of(VK_NUMPAD7, layout_char) == Some(KeyCode::Numpad7),
        key_code_of(VK_NUMPAD8, layout_char) == Some(KeyCode::Numpad8),
        key_code_of(VK_NUMPAD9, layout_char) == Some(KeyCode::Numpad9),
        key_code_of(VK_MULTIPLY, layout_char) == Some(KeyCode::NumpadMultipy),
        key_code_of(VK_ADD, layout_char) == Some(KeyCode::NumpadAdd),
        key_code_of(VK_SUBTRACT, layout_char) == Some(KeyCode::NumpadSubtract),
        key_code_of(VK_DECIMAL, layout_char) == Some(KeyCode::NumpadDecimal),
        key_code_of(VK_DIVIDE, layout_char) == Some(KeyCode::NumpadDivide),
        key_code_of(VK_F1, layout_char) == Some(KeyCode::F1),
        key_code_of(VK_F2, layout_char) == Some(KeyCode::F2),
        key_code_of(VK_F3, layout_char) == Some(KeyCode::F3),
        key_code_of(VK_F4, layout_char) == Some(KeyCode::F4),
        key_code_of(VK_F5, layout_char) == Some(KeyCode::F5),
        key_code_of(VK_F6, layout_char) == Some(KeyCode::F6),
        key_code_of(VK_F7, layout_char) == Some(KeyCode::F7),
        key_code_of(VK_F8, layout_char) == Some(KeyCode::F8),
        key_code_of(VK_F9, layout_char) == Some(KeyCode::F9),
        key_code_of(VK_F10, layout_char) == Some(KeyCode::F10),
        key_code_of(VK_F11, layout_char) == Some(KeyCode::F11),
        key_code_of(VK_F12, layout_char) == Some(KeyCode::F12),
        key_code_of(VK_NUMLOCK, layout_char) == Some(KeyCode::NumLock),
        key_code_of(VK_SCROLL, layout_char) == Some(KeyCode::ScrollLock),
        key_code_of(VK_A, layout_char) == Some(KeyCode::A),
        key_code_of(VK_B, layout_char) == Some(KeyCode::B),
        key_code_of(VK_C, layout_char) == Some(KeyCode::C),
        key_code_of(VK_D, layout_char) == Some(KeyCode::D),
        key_code_of(VK_E, layout_char) == Some(KeyCode::E),
        key_code_of(VK_F, layout_char) == Some(KeyCode::F),
        key_code_of(VK_G, layout_char) == Some(KeyCode::G),
        key_code_of(VK_H, layout_char) == Some(KeyCode::H),
        key_code_of(VK_I, layout_char) == Some(KeyCode::I),
        key_code_of(VK_J, layout_char) == Some(KeyCode::J),
        key_code_of(VK_K, layout_char) == Some(KeyCode::K),
        key_code_of(VK_L, layout_char) == Some(KeyCode::L),
        key_code_of(VK_M, layout_char) == Some(KeyCode::M),
        key_code_of(VK_N, layout_char) == Some(KeyCode::N),
        key_code_of(VK_O, layout_char) == Some(KeyCode::O),
        key_code_of(VK_P, layout_char) == Some(KeyCode::P),
        key_code_of(VK_Q, layout_char) == Some(KeyCode::Q),
        key_code_of(VK_R, layout_char) == Some(KeyCode::R),
        key_code_of(VK_S, layout_char) == Some(KeyCode::S),
        key_code_of(VK_T, layout_char) == Some(KeyCode::T),
        key_code_of(VK_U, layout_char) == Some(KeyCode::U),
        key_code_of(VK_V, layout_char) == Some(KeyCode::V),
        key_code_of(VK_W, layout_char) == Some(KeyCode::W),
        key_code_of(VK_X, layout_char) == Some(KeyCode::X),
        key_code_of(VK_Y, layout_char) == Some(KeyCode::Y),
        key_code_of(VK_Z, layout_char) == Some(KeyCode::Z),
        key_code_of(VK_0, layout_char) == Some(KeyCode::N0),
        key_code_of(VK_1, layout_char) == Some(KeyCode::N1),
        key_code_of(VK_2, layout_char) == Some(KeyCode::N2),
        key_code_of(VK_3, layout_char) == Some(KeyCode::N3),
        key_code_of(VK_4, layout_char) == Some(KeyCode::N4),
        key_code_of(VK_5, layout_char) == Some(KeyCode::N5),
        key_code_of(VK_6, layout_char) == Some(KeyCode::N6),
        key_code_of(VK_7, layout_char) == Some(KeyCode::N7),
        key_code_of(VK_8, layout_char) == Some(KeyCode::N8),
        key_code_of(VK_9, layout_char) == Some(KeyCode::N9),
{
}

/// A key without a fixed meaning stands for the key its layout character names, and for no key
/// where the layout gives it no character.
pub proof fn law_layout_key_codes(virtual_key: u16)
    ensures
        fixed_key_code(virtual_key) is None ==> key_code_of(virtual_key, Some('`')) == Some(KeyCode::Backtick),
        fixed_key_code(virtual_key) is None ==> key_code_of(virtual_key, Some('!')) == Some(KeyCode::Exclamation),
        fixed_key_code(virtual_key) is None ==> key_code_of(virtual_key, Some('$')) == Some(KeyCode::Dollar),
        fixed_key_code(virtual_key) is None ==> key_code_of(virtual_key, Some('^')) == Some(KeyCode::Caret),
        fixed_key_code(virtual_key) is None ==> key_code_of(virtual_key, Some('&')) == Some(KeyCode::Ampersand),
        fixed_key_code(virtual_key) is None ==> key_code_of(virtual_key, Some('*')) == Some(KeyCode::Asterisk),
        fixed_key_code(virtual_key) is None ==> key_code_of(virtual_key, Some('(')) == Some(KeyCode::LParen),
        fixed_key_code(virtual_key) is None ==> key_code_of(virtual_key, Some(')')) == Some(KeyCode::RParen),
        fixed_key_code(virtual_key) is None ==> key_code_of(virtual_key, Some('-')) == Some(KeyCode::Hyphen),
        fixed_key_code(virtual_key) is None ==> key_code_of(virtual_key, Some('_')) == Some(KeyCode::Underscore),
        fixed_key_code(virtual_key) is None ==> key_code_of(virtual_key, Some('=')) == Some(KeyCode::Equals),
        fixed_key_code(virtual_key) is None ==> key_code_of(virtual_key, Some('[')) == Some(KeyCode::LBracket),
        fixed_key_code(virtual_key) is None ==> key_code_of(virtual_key, Some(']')) == Some(KeyCode::RBracket),
        fixed_key_code(virtual_key) is None ==> key_code_of(virtual_key, Some('\\')) == Some(KeyCode::Backslash),
        fixed_key_code(virtual_key) is None ==> key_code_of(virtual_key, Some(':')) == Some(KeyCode::Colon),
        fixed_key_code(virtual_key) is None ==> key_code_of(virtual_key, Some(';')) == Some(KeyCode::Semicolon),
        fixed_key_code(virtual_key) is None ==> key_code_of(virtual_key, Some('"')) == Some(KeyCode::Quote),
        fixed_key_code(virtual_key) is None ==> key_code_of(virtual_key, Some('\'')) == Some(KeyCode::Apostrophe),
        fixed_key_code(virtual_key) is None ==> key_code_of(virtual_key, Some(',')) == Some(KeyCode::Comma),
        fixed_key_code(virtual_key) is None ==> key_code_of(virtual_key, Some('.')) == Some(KeyCode::Period),
        fixed_key_code(virtual_key) is None ==> key_code_of(virtual_key, Some('/')) == Some(KeyCode::Slash),
        fixed_key_code(virtual_key) is None ==> key_code_of(virtual_key, Some('\u{e9}')) == Some(KeyCode::EAcute),
        fixed_key_code(virtual_key) is None ==> key_code_of(virtual_key, Some('\u{e8}')) == Some(KeyCode::EGrave),
        fixed_key_code(virtual_key) is None ==> key_code_of(virtual_key, Some('\u{e0}')) == Some(KeyCode::AGrave),
        fixed_key_code(virtual_key) is None ==> key_code_of(virtual_key, Some('\u{e7}')) == Some(KeyCode::CCedilla),
        fixed_key_code(virtual_key) is None ==> key_code_of(virtual_key, Some('\u{a7}')) == Some(KeyCode::Section),
        fixed_key_code(virtual_key) is None ==> key_code_of(virtual_key, None) is None,
{
}

} // verus!
