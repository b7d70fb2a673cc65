//! Encoding of key presses as the bytes a terminal sends over SSH.

use vstd::prelude::*;
use crate::text::push_char;
use vstd::string::StrSliceExecFns;
use vstd::utf8::encode_utf8;

verus! {

/// A key of the terminal interface.
#[derive(Debug, Clone, Copy, PartialEq, Eq, Structural)]
pub enum KeyCode {
    Backspace,
    Enter,
    Left,
    Right,
    Up,
    Down,
    Home,
    End,
    PageUp,
    PageDown,
    Tab,
    BackTab,
    Delete,
    Insert,
    F(u8),
    Char(char),
    Esc,
    /// Any other key (lock keys, media keys, modifiers alone, ...).
    Other,
}

/// The modifier keys held with a key.
#[derive(Debug, Clone, Copy, PartialEq, Eq, Structural)]
pub struct KeyModifiers {
    pub control: bool,
    pub shift: bool,
    pub alt: bool,
}

/// Whether a key went down, repeats, or went up.
#[derive(Debug, Clone, Copy, PartialEq, Eq, Structural)]
pub enum KeyEventKind {
    Press,
    Repeat,
    Release,
}

/// A key event of the terminal interface.
#[derive(Debug, Clone, Copy, PartialEq, Eq, Structural)]
pub struct KeyEvent {
    pub code: KeyCode,
    pub modifiers: KeyModifiers,
    pub kind: KeyEventKind,
}

/// `c` is an ASCII letter.
pub open spec fn is_ascii_letter(c: char) -> bool {
    ('A' <= c && c <= 'Z') || ('a' <= c && c <= 'z')
}

/// The lower-case form of an ASCII letter; other characters unchanged.
pub open spec fn ascii_lower(c: char) -> char {
    if 'A' <= c && c <= 'Z' {
        ((c as u32) + 32) as char
    } else {
        c
    }
}

/// The control code that Ctrl with letter `c` produces: 1 for `a`, 26 for `z`.
pub open spec fn control_code(c: char) -> u8 {
    ((ascii_lower(c) as u32) - ('a' as u32) + 1) as u8
}

/// The escape sequence for function key `n` (`F1`..`F12`); `F0` follows the
/// same rule as `F1`..`F4`, and keys above `F12` send nothing.
pub open spec fn function_key_bytes(n: u8) -> Seq<u8> {
    if n <= 4 {
        seq![0x1bu8, 0x4fu8, (0x50 + n - 1) as u8]
    } else if n <= 12 {
        let tens: u8 = if n <= 8 { 0x31 } else { 0x32 };
        let units: u8 = if n == 5 { 0x35 } else if n == 6 { 0x37 } else if n == 7 { 0x38 }
            else if n == 8 { 0x39 } else if n == 9 { 0x30 } else if n == 10 { 0x31 }
            else if n == 11 { 0x33 } else { 0x34 };
        seq![0x1bu8, 0x5bu8, tens, units, 0x7eu8]
    } else {
        seq![]
    }
}

/// The number that an `ESC [ d d ~` sequence carries.
pub open spec fn tilde_code(s: Seq<u8>) -> int {
    (s[2] - 0x30) * 10 + (s[3] - 0x30)
}

/// The function keys send distinct sequences: F1 to F4 send `ESC O` and a
/// letter from `P` on, and F5 to F12 send `ESC [ n ~` with the number `n`
/// rising with the key, from 15 for F5 to 24 for F12.
pub proof fn lemma_function_keys_distinct(n: u8, m: u8)
    requires
        1 <= n < m <= 12,
    ensures
        function_key_bytes(n) != function_key_bytes(m),
        n <= 4 ==> function_key_bytes(n) == seq![0x1bu8, 0x4fu8, (0x4f + n) as u8],
        n >= 5 ==> {
            &&& function_key_bytes(n).len() == 5
            &&& function_key_bytes(n)[0] == 0x1b && function_key_bytes(n)[1] == 0x5b
            &&& function_key_bytes(n)[4] == 0x7e
            &&& 0x30 <= function_key_bytes(n)[2] <= 0x39 && 0x30 <= function_key_bytes(n)[3] <= 0x39
            &&& tilde_code(function_key_bytes(n)) < tilde_code(function_key_bytes(m))
        },
        tilde_code(function_key_bytes(5)) == 15,
        tilde_code(function_key_bytes(12)) == 24,
{
    if n <= 4 && m <= 4 {
        assert(function_key_bytes(n)[2] != function_key_bytes(m)[2]);
    } else if n <= 4 {
        assert(function_key_bytes(n).len() != function_key_bytes(m).len());
    } else {
        assert(tilde_code(function_key_bytes(n)) < tilde_code(function_key_bytes(m)));
    }
}

/// The bytes a key event of the terminal interface sends.
pub open spec fn spec_key_event_bytes(event: KeyEvent) -> Seq<u8> {
    match event.code {
        KeyCode::Enter => seq![0x0du8],
        KeyCode::Tab => seq![0x09u8],
        KeyCode::Backspace => seq![0x7fu8],
        KeyCode::Esc => seq![0x1bu8],
        KeyCode::Up => seq![0x1bu8, 0x5bu8, 0x41u8],
        KeyCode::Down => seq![0x1bu8, 0x5bu8, 0x42u8],
        KeyCode::Right => seq![0x1bu8, 0x5bu8, 0x43u8],
        KeyCode::Left => seq![0x1bu8, 0x5bu8, 0x44u8],
        KeyCode::Home => seq![0x1bu8, 0x5bu8, 0x48u8],
        KeyCode::End => seq![0x1bu8, 0x5bu8, 0x46u8],
        KeyCode::PageUp => seq![0x1bu8, 0x5bu8, 0x35u8, 0x7eu8],
        KeyCode::PageDown => seq![0x1bu8, 0x5bu8, 0x36u8, 0x7eu8],
        KeyCode::Delete => seq![0x1bu8, 0x5bu8, 0x33u8, 0x7eu8],
        KeyCode::Insert => seq![0x1bu8, 0x5bu8, 0x32u8, 0x7eu8],
        KeyCode::F(n) => function_key_bytes(n),
        KeyCode::Char(c) => if event.modifiers.control && is_ascii_letter(c) {
            seq![control_code(c)]
        } else {
            encode_utf8(seq![c])
        },
        _ => seq![],
    }
}

fn bytes3(a: u8, b: u8, c: u8) -> (res: Vec<u8>)
    ensures
        res@ == seq![a, b, c],
{
    let mut v = Vec::new();
    v.push(a);
    v.push(b);
    v.push(c);
    assert(v@ =~= seq![a, b, c]);
    v
}

fn bytes4(a: u8, b: u8, c: u8, d: u8) -> (res: Vec<u8>)
    ensures
        res@ == seq![a, b, c, d],
{
    let mut v = bytes3(a, b, c);
    v.push(d);
    assert(v@ =~= seq![a, b, c, d]);
    v
}

fn bytes5(a: u8, b: u8, c: u8, d: u8, e: u8) -> (res: Vec<u8>)
    ensures
        res@ == seq![a, b, c, d, e],
{
    let mut v = bytes4(a, b, c, d);
    v.push(e);
    assert(v@ =~= seq![a, b, c, d, e]);
    v
}

fn byte1(a: u8) -> (res: Vec<u8>)
    ensures
        res@ == seq![a],
{
    let mut v = Vec::new();
    v.push(a);
    assert(v@ =~= seq![a]);
    v
}

/// The UTF-8 encoding of one character.
pub fn char_utf8(c: char) -> (res: Vec<u8>)
    ensures
        res@ == encode_utf8(seq![c]),
{
    let mut s = String::new();
    push_char(&mut s, c);
    assert(s@ =~= seq![c]);
    s.as_str().as_bytes_vec()
}

fn function_key(n: u8) -> (res: Vec<u8>)
    ensures
        res@ == function_key_bytes(n),
{
    if n <= 4 {
        bytes3(0x1b, 0x4f, 0x50 + n - 1)
    } else if n <= 12 {
        let tens: u8 = if n <= 8 { 0x31 } else { 0x32 };
        let units: u8 = if n == 5 { 0x35 } else if n == 6 { 0x37 } else if n == 7 { 0x38 }
            else if n == 8 { 0x39 } else if n == 9 { 0x30 } else if n == 10 { 0x31 }
            else if n == 11 { 0x33 } else { 0x34 };
        bytes5(0x1b, 0x5b, tens, units, 0x7e)
    } else {
        Vec::new()
    }
}

/// Converts a key event into the bytes sent over SSH: control characters
/// for Enter, Tab, Backspace and Esc, escape sequences for the cursor and
/// editing keys and F1-F12, the control code for Ctrl with a letter, and
/// the UTF-8 encoding of any other character.
pub fn key_event_to_bytes(event: &KeyEvent) -> (res: Vec<u8>)
    ensures
        res@ == spec_key_event_bytes(*event),
{
    match event.code {
        KeyCode::Enter => byte1(0x0d),
        KeyCode::Tab => byte1(0x09),
        KeyCode::Backspace => byte1(0x7f),
        KeyCode::Esc => byte1(0x1b),
        KeyCode::Up => bytes3(0x1b, 0x5b, 0x41),
        KeyCode::Down => bytes3(0x1b, 0x5b, 0x42),
        KeyCode::Right => bytes3(0x1b, 0x5b, 0x43),
        KeyCode::Left => bytes3(0x1b, 0x5b, 0x44),
        KeyCode::Home => bytes3(0x1b, 0x5b, 0x48),
        KeyCode::End => bytes3(0x1b, 0x5b, 0x46),
        KeyCode::PageUp => bytes4(0x1b, 0x5b, 0x35, 0x7e),
        KeyCode::PageDown => bytes4(0x1b, 0x5b, 0x36, 0x7e),
        KeyCode::Delete => bytes4(0x1b, 0x5b, 0x33, 0x7e),
        KeyCode::Insert => bytes4(0x1b, 0x5b, 0x32, 0x7e),
        KeyCode::F(n) => function_key(n),
        KeyCode::Char(c) => {
            let letter = ('A' <= c && c <= 'Z') || ('a' <= c && c <= 'z');
            if event.modifiers.control && letter {
                let lower: u32 = if 'A' <= c && c <= 'Z' { (c as u32) + 32 } else { c as u32 };
                byte1((lower - ('a' as u32) + 1) as u8)
            } else {
                char_utf8(c)
            }
        },
        _ => Vec::new(),
    }
}

/// What the session loop does with a key event.
#[derive(Debug, Clone, PartialEq, Eq)]
pub enum SessionInput {
    /// Ctrl+\ ends the session.
    Disconnect,
    /// Bytes to send to the remote shell.
    Send(Vec<u8>),
    /// Nothing to do (a key release, or a key that sends nothing).
    Ignore,
}

/// Decides what a key event does during an SSH session: releases are
/// ignored, Ctrl+\ disconnects, every other key sends its bytes (if any).
pub fn session_key_action(event: &KeyEvent) -> (res: SessionInput)
    ensures
        event.kind == KeyEventKind::Release ==> res == SessionInput::Ignore,
        event.kind != KeyEventKind::Release && event.code == KeyCode::Char('\\')
            && event.modifiers.control ==> res == SessionInput::Disconnect,
        event.kind != KeyEventKind::Release && !(event.code == KeyCode::Char('\\')
            && event.modifiers.control) ==> match res {
            SessionInput::Send(b) => b@ == spec_key_event_bytes(*event) && b@.len() > 0,
            SessionInput::Ignore => spec_key_event_bytes(*event).len() == 0,
            SessionInput::Disconnect => false,
        },
{
    if matches!(event.kind, KeyEventKind::Release) {
        return SessionInput::Ignore;
    }
    let quit = match event.code {
        KeyCode::Char(c) => c == '\\' && event.modifiers.control,
        _ => false,
    };
    if quit {
        return SessionInput::Disconnect;
    }
    let bytes = key_event_to_bytes(event);
    if bytes.len() == 0 {
        SessionInput::Ignore
    } else {
        SessionInput::Send(bytes)
    }
}

} // verus!

verus! {

/// A key of the graphical interface.
#[derive(Debug, Clone, Copy, PartialEq, Eq, Structural)]
pub enum Key {
    A,
    B,
    C,
    D,
    E,
    F,
    G,
    H,
    I,
    J,
    K,
    L,
    M,
    N,
    O,
    P,
    Q,
    R,
    S,
    T,
    U,
    V,
    W,
    X,
    Y,
    Z,
    OpenBracket,
    Backslash,
    CloseBracket,
    Num6,
    Minus,
    Enter,
    Tab,
    Backspace,
    Escape,
    ArrowUp,
    ArrowDown,
    ArrowRight,
    ArrowLeft,
    Home,
    End,
    PageUp,
    PageDown,
    Delete,
    Insert,
    F1,
    F2,
    F3,
    F4,
    F5,
    F6,
    F7,
    F8,
    F9,
    F10,
    F11,
    F12,
    /// Any other key.
    Other,
}

/// The modifier keys held with a key of the graphical interface.
#[derive(Debug, Clone, Copy, PartialEq, Eq, Structural)]
pub struct Modifiers {
    pub ctrl: bool,
    pub shift: bool,
    pub alt: bool,
}

/// The control code that Ctrl with `key` produces, if any: 1 to 26 for the
/// letters, then 27 to 31 for `[`, `\`, `]`, `6` and `-`.
pub open spec fn spec_ctrl_code(key: Key) -> Option<u8> {
    match key {
        Key::A => Some(1u8),
        Key::B => Some(2u8),
        Key::C => Some(3u8),
        Key::D => Some(4u8),
        Key::E => Some(5u8),
        Key::F => Some(6u8),
        Key::G => Some(7u8),
        Key::H => Some(8u8),
        Key::I => Some(9u8),
        Key::J => Some(10u8),
        Key::K => Some(11u8),
        Key::L => Some(12u8),
        Key::M => Some(13u8),
        Key::N => Some(14u8),
        Key::O => Some(15u8),
        Key::P => Some(16u8),
        Key::Q => Some(17u8),
        Key::R => Some(18u8),
        Key::S => Some(19u8),
        Key::T => Some(20u8),
        Key::U => Some(21u8),
        Key::V => Some(22u8),
        Key::W => Some(23u8),
        Key::X => Some(24u8),
        Key::Y => Some(25u8),
        Key::Z => Some(26u8),
        Key::OpenBracket => Some(27u8),
        Key::Backslash => Some(28u8),
        Key::CloseBracket => Some(29u8),
        Key::Num6 => Some(30u8),
        Key::Minus => Some(31u8),
        _ => None,
    }
}

/// The bytes a key without Ctrl (or with Ctrl, when it has no control code)
/// sends.
pub open spec fn spec_plain_key_bytes(key: Key) -> Seq<u8> {
    match key {
        Key::Enter => seq![0x0du8],
        Key::Tab => seq![0x09u8],
        Key::Backspace => seq![0x7fu8],
        Key::Escape => seq![0x1bu8],
        Key::ArrowUp => seq![0x1bu8, 0x5bu8, 0x41u8],
        Key::ArrowDown => seq![0x1bu8, 0x5bu8, 0x42u8],
        Key::ArrowRight => seq![0x1bu8, 0x5bu8, 0x43u8],
        Key::ArrowLeft => seq![0x1bu8, 0x5bu8, 0x44u8],
        Key::Home => seq![0x1bu8, 0x5bu8, 0x48u8],
        Key::End => seq![0x1bu8, 0x5bu8, 0x46u8],
        Key::PageUp => seq![0x1bu8, 0x5bu8, 0x35u8, 0x7eu8],
        Key::PageDown => seq![0x1bu8, 0x5bu8, 0x36u8, 0x7eu8],
        Key::Delete => seq![0x1bu8, 0x5bu8, 0x33u8, 0x7eu8],
        Key::Insert => seq![0x1bu8, 0x5bu8, 0x32u8, 0x7eu8],
        Key::F1 => seq![0x1bu8, 0x4fu8, 0x50u8],
        Key::F2 => seq![0x1bu8, 0x4fu8, 0x51u8],
        Key::F3 => seq![0x1bu8, 0x4fu8, 0x52u8],
        Key::F4 => seq![0x1bu8, 0x4fu8, 0x53u8],
        Key::F5 => seq![0x1bu8, 0x5bu8, 0x31u8, 0x35u8, 0x7eu8],
        Key::F6 => seq![0x1bu8, 0x5bu8, 0x31u8, 0x37u8, 0x7eu8],
        Key::F7 => seq![0x1bu8, 0x5bu8, 0x31u8, 0x38u8, 0x7eu8],
        Key::F8 => seq![0x1bu8, 0x5bu8, 0x31u8, 0x39u8, 0x7eu8],
        Key::F9 => seq![0x1bu8, 0x5bu8, 0x32u8, 0x30u8, 0x7eu8],
        Key::F10 => seq![0x1bu8, 0x5bu8, 0x32u8, 0x31u8, 0x7eu8],
        Key::F11 => seq![0x1bu8, 0x5bu8, 0x32u8, 0x33u8, 0x7eu8],
        Key::F12 => seq![0x1bu8, 0x5bu8, 0x32u8, 0x34u8, 0x7eu8],
        _ => seq![],
    }
}

/// The bytes a key press of the graphical interface sends.
pub open spec fn spec_key_to_ssh_bytes(key: Key, mods: Modifiers) -> Seq<u8> {
    if mods.ctrl && spec_ctrl_code(key) is Some {
        seq![spec_ctrl_code(key)->0]
    } else {
        spec_plain_key_bytes(key)
    }
}

fn ctrl_code(key: Key) -> (res: Option<u8>)
    ensures
        res == spec_ctrl_code(key),
{
    match key {
        Key::A => Some(1),
        Key::B => Some(2),
        Key::C => Some(3),
        Key::D => Some(4),
        Key::E => Some(5),
        Key::F => Some(6),
        Key::G => Some(7),
        Key::H => Some(8),
        Key::I => Some(9),
        Key::J => Some(10),
        Key::K => Some(11),
        Key::L => Some(12),
        Key::M => Some(13),
        Key::N => Some(14),
        Key::O => Some(15),
        Key::P => Some(16),
        Key::Q => Some(17),
        Key::R => Some(18),
        Key::S => Some(19),
        Key::T => Some(20),
        Key::U => Some(21),
        Key::V => Some(22),
        Key::W => Some(23),
        Key::X => Some(24),
        Key::Y => Some(25),
        Key::Z => Some(26),
        Key::OpenBracket => Some(27),
        Key::Backslash => Some(28),
        Key::CloseBracket => Some(29),
        Key::Num6 => Some(30),
        Key::Minus => Some(31),
        _ => None,
    }
}

fn plain_key_bytes(key: Key) -> (res: Vec<u8>)
    ensures
        res@ == spec_plain_key_bytes(key),
{
    match key {
        Key::Enter => byte1(0x0d),
        Key::Tab => byte1(0x09),
        Key::Backspace => byte1(0x7f),
        Key::Escape => byte1(0x1b),
        Key::ArrowUp => bytes3(0x1b, 0x5b, 0x41),
        Key::ArrowDown => bytes3(0x1b, 0x5b, 0x42),
        Key::ArrowRight => bytes3(0x1b, 0x5b, 0x43),
        Key::ArrowLeft => bytes3(0x1b, 0x5b, 0x44),
        Key::Home => bytes3(0x1b, 0x5b, 0x48),
        Key::End => bytes3(0x1b, 0x5b, 0x46),
        Key::PageUp => bytes4(0x1b, 0x5b, 0x35, 0x7e),
        Key::PageDown => bytes4(0x1b, 0x5b, 0x36, 0x7e),
        Key::Delete => bytes4(0x1b, 0x5b, 0x33, 0x7e),
        Key::Insert => bytes4(0x1b, 0x5b, 0x32, 0x7e),
        Key::F1 => bytes3(0x1b, 0x4f, 0x50),
        Key::F2 => bytes3(0x1b, 0x4f, 0x51),
        Key::F3 => bytes3(0x1b, 0x4f, 0x52),
        Key::F4 => bytes3(0x1b, 0x4f, 0x53),
        Key::F5 => bytes5(0x1b, 0x5b, 0x31, 0x35, 0x7e),
        Key::F6 => bytes5(0x1b, 0x5b, 0x31, 0x37, 0x7e),
        Key::F7 => bytes5(0x1b, 0x5b, 0x31, 0x38, 0x7e),
        Key::F8 => bytes5(0x1b, 0x5b, 0x31, 0x39, 0x7e),
        Key::F9 => bytes5(0x1b, 0x5b, 0x32, 0x30, 0x7e),
        Key::F10 => bytes5(0x1b, 0x5b, 0x32, 0x31, 0x7e),
        Key::F11 => bytes5(0x1b, 0x5b, 0x32, 0x33, 0x7e),
        Key::F12 => bytes5(0x1b, 0x5b, 0x32, 0x34, 0x7e),
        _ => Vec::new(),
    }
}

/// Converts a key press of the graphical interface into the bytes sent over
/// SSH: Ctrl with a letter or with `[`, `\`, `]`, `6`, `-` gives a control
/// code; otherwise the control characters and escape sequences of the
/// editing, cursor and function keys; other keys send nothing.
pub fn key_to_ssh_bytes(key: Key, mods: Modifiers) -> (res: Vec<u8>)
    ensures
        res@ == spec_key_to_ssh_bytes(key, mods),
{
    if mods.ctrl {
        match ctrl_code(key) {
            Some(code) => {
                return byte1(code);
            },
            None => {},
        }
    }
    plain_key_bytes(key)
}


/// The key of the terminal interface that a key of the graphical interface
/// stands for: a lower-case letter, or the same editing, cursor or function
/// key. Punctuation keys and the rest have none.
pub open spec fn terminal_key(key: Key) -> Option<KeyCode> {
    match key {
        Key::A => Some(KeyCode::Char('a')),
        Key::B => Some(KeyCode::Char('b')),
        Key::C => Some(KeyCode::Char('c')),
        Key::D => Some(KeyCode::Char('d')),
        Key::E => Some(KeyCode::Char('e')),
        Key::F => Some(KeyCode::Char('f')),
        Key::G => Some(KeyCode::Char('g')),
        Key::H => Some(KeyCode::Char('h')),
        Key::I => Some(KeyCode::Char('i')),
        Key::J => Some(KeyCode::Char('j')),
        Key::K => Some(KeyCode::Char('k')),
        Key::L => Some(KeyCode::Char('l')),
        Key::M => Some(KeyCode::Char('m')),
        Key::N => Some(KeyCode::Char('n')),
        Key::O => Some(KeyCode::Char('o')),
        Key::P => Some(KeyCode::Char('p')),
        Key::Q => Some(KeyCode::Char('q')),
        Key::R => Some(KeyCode::Char('r')),
        Key::S => Some(KeyCode::Char('s')),
        Key::T => Some(KeyCode::Char('t')),
        Key::U => Some(KeyCode::Char('u')),
        Key::V => Some(KeyCode::Char('v')),
        Key::W => Some(KeyCode::Char('w')),
        Key::X => Some(KeyCode::Char('x')),
        Key::Y => Some(KeyCode::Char('y')),
        Key::Z => Some(KeyCode::Char('z')),
        Key::Enter => Some(KeyCode::Enter),
        Key::Tab => Some(KeyCode::Tab),
        Key::Backspace => Some(KeyCode::Backspace),
        Key::Escape => Some(KeyCode::Esc),
        Key::ArrowUp => Some(KeyCode::Up),
        Key::ArrowDown => Some(KeyCode::Down),
        Key::ArrowRight => Some(KeyCode::Right),
        Key::ArrowLeft => Some(KeyCode::Left),
        Key::Home => Some(KeyCode::Home),
        Key::End => Some(KeyCode::End),
        Key::PageUp => Some(KeyCode::PageUp),
        Key::PageDown => Some(KeyCode::PageDown),
        Key::Delete => Some(KeyCode::Delete),
        Key::Insert => Some(KeyCode::Insert),
        Key::F1 => Some(KeyCode::F(1)),
        Key::F2 => Some(KeyCode::F(2)),
        Key::F3 => Some(KeyCode::F(3)),
        Key::F4 => Some(KeyCode::F(4)),
        Key::F5 => Some(KeyCode::F(5)),
        Key::F6 => Some(KeyCode::F(6)),
        Key::F7 => Some(KeyCode::F(7)),
        Key::F8 => Some(KeyCode::F(8)),
        Key::F9 => Some(KeyCode::F(9)),
        Key::F10 => Some(KeyCode::F(10)),
        Key::F11 => Some(KeyCode::F(11)),
        Key::F12 => Some(KeyCode::F(12)),
        _ => None,
    }
}

/// The terminal and the graphical client send the same bytes for the same
/// key: Ctrl with a letter, and the editing, cursor and function keys with
/// any modifiers. (A letter without Ctrl reaches the graphical client as
/// typed text instead.)
pub proof fn lemma_encoders_agree(key: Key, mods: Modifiers, event: KeyEvent)
    requires
        terminal_key(key) == Some(event.code),
        mods.ctrl == event.modifiers.control,
        mods.ctrl || spec_ctrl_code(key) is None,
    ensures
        spec_key_to_ssh_bytes(key, mods) == spec_key_event_bytes(event),
{
    match event.code {
        KeyCode::Char(c) => {
            assert(is_ascii_letter(c));
            assert(ascii_lower(c) == c);
            assert(spec_ctrl_code(key) == Some(control_code(c)));
        },
        KeyCode::F(n) => {
            assert(spec_plain_key_bytes(key) =~= function_key_bytes(n));
        },
        _ => {},
    }
}

} // verus!
