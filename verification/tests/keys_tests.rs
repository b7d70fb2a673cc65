use sutty::keys::{
    key_event_to_bytes, key_to_ssh_bytes, session_key_action, Key, KeyCode, KeyEvent,
    KeyEventKind, KeyModifiers, Modifiers, SessionInput,
};

fn press(code: KeyCode) -> KeyEvent {
    KeyEvent {
        code,
        modifiers: KeyModifiers { control: false, shift: false, alt: false },
        kind: KeyEventKind::Press,
    }
}

fn ctrl(code: KeyCode) -> KeyEvent {
    KeyEvent {
        code,
        modifiers: KeyModifiers { control: true, shift: false, alt: false },
        kind: KeyEventKind::Press,
    }
}

#[test]
fn special_keys_bytes() {
    assert_eq!(key_event_to_bytes(&press(KeyCode::Enter)), vec![b'\r']);
    assert_eq!(key_event_to_bytes(&press(KeyCode::Tab)), vec![b'\t']);
    assert_eq!(key_event_to_bytes(&press(KeyCode::Backspace)), vec![0x7f]);
    assert_eq!(key_event_to_bytes(&press(KeyCode::Esc)), vec![0x1b]);
    assert_eq!(key_event_to_bytes(&press(KeyCode::Up)), b"\x1b[A".to_vec());
    assert_eq!(key_event_to_bytes(&press(KeyCode::Down)), b"\x1b[B".to_vec());
    assert_eq!(key_event_to_bytes(&press(KeyCode::Right)), b"\x1b[C".to_vec());
    assert_eq!(key_event_to_bytes(&press(KeyCode::Left)), b"\x1b[D".to_vec());
    assert_eq!(key_event_to_bytes(&press(KeyCode::Home)), b"\x1b[H".to_vec());
    assert_eq!(key_event_to_bytes(&press(KeyCode::End)), b"\x1b[F".to_vec());
    assert_eq!(key_event_to_bytes(&press(KeyCode::PageUp)), b"\x1b[5~".to_vec());
    assert_eq!(key_event_to_bytes(&press(KeyCode::PageDown)), b"\x1b[6~".to_vec());
    assert_eq!(key_event_to_bytes(&press(KeyCode::Delete)), b"\x1b[3~".to_vec());
    assert_eq!(key_event_to_bytes(&press(KeyCode::Insert)), b"\x1b[2~".to_vec());
    assert_eq!(key_event_to_bytes(&press(KeyCode::BackTab)), Vec::<u8>::new());
    assert_eq!(key_event_to_bytes(&press(KeyCode::Other)), Vec::<u8>::new());
}

#[test]
fn function_keys_bytes() {
    assert_eq!(key_event_to_bytes(&press(KeyCode::F(1))), b"\x1bOP".to_vec());
    assert_eq!(key_event_to_bytes(&press(KeyCode::F(4))), b"\x1bOS".to_vec());
    assert_eq!(key_event_to_bytes(&press(KeyCode::F(0))), b"\x1bOO".to_vec());
    assert_eq!(key_event_to_bytes(&press(KeyCode::F(5))), b"\x1b[15~".to_vec());
    assert_eq!(key_event_to_bytes(&press(KeyCode::F(6))), b"\x1b[17~".to_vec());
    assert_eq!(key_event_to_bytes(&press(KeyCode::F(8))), b"\x1b[19~".to_vec());
    assert_eq!(key_event_to_bytes(&press(KeyCode::F(9))), b"\x1b[20~".to_vec());
    assert_eq!(key_event_to_bytes(&press(KeyCode::F(11))), b"\x1b[23~".to_vec());
    assert_eq!(key_event_to_bytes(&press(KeyCode::F(12))), b"\x1b[24~".to_vec());
    assert_eq!(key_event_to_bytes(&press(KeyCode::F(13))), Vec::<u8>::new());
}

#[test]
fn char_keys_bytes() {
    assert_eq!(key_event_to_bytes(&press(KeyCode::Char('a'))), b"a".to_vec());
    assert_eq!(key_event_to_bytes(&press(KeyCode::Char('é'))), "é".as_bytes().to_vec());
    assert_eq!(key_event_to_bytes(&press(KeyCode::Char('€'))), "€".as_bytes().to_vec());
    assert_eq!(key_event_to_bytes(&press(KeyCode::Char('😀'))), "😀".as_bytes().to_vec());
    assert_eq!(key_event_to_bytes(&ctrl(KeyCode::Char('c'))), vec![3]);
    assert_eq!(key_event_to_bytes(&ctrl(KeyCode::Char('C'))), vec![3]);
    assert_eq!(key_event_to_bytes(&ctrl(KeyCode::Char('a'))), vec![1]);
    assert_eq!(key_event_to_bytes(&ctrl(KeyCode::Char('z'))), vec![26]);
    assert_eq!(key_event_to_bytes(&ctrl(KeyCode::Char('1'))), b"1".to_vec());
}

#[test]
fn session_key_actions() {
    assert_eq!(session_key_action(&ctrl(KeyCode::Char('\\'))), SessionInput::Disconnect);
    assert_eq!(session_key_action(&press(KeyCode::Char('\\'))), SessionInput::Send(b"\\".to_vec()));
    assert_eq!(session_key_action(&press(KeyCode::Enter)), SessionInput::Send(vec![13]));
    assert_eq!(session_key_action(&press(KeyCode::Other)), SessionInput::Ignore);
    let mut release = press(KeyCode::Char('x'));
    release.kind = KeyEventKind::Release;
    assert_eq!(session_key_action(&release), SessionInput::Ignore);
    let mut repeat = press(KeyCode::Char('x'));
    repeat.kind = KeyEventKind::Repeat;
    assert_eq!(session_key_action(&repeat), SessionInput::Send(b"x".to_vec()));
}

fn no_mods() -> Modifiers {
    Modifiers { ctrl: false, shift: false, alt: false }
}

fn ctrl_mods() -> Modifiers {
    Modifiers { ctrl: true, shift: false, alt: false }
}

#[test]
fn gui_ctrl_codes() {
    assert_eq!(key_to_ssh_bytes(Key::A, ctrl_mods()), vec![1]);
    assert_eq!(key_to_ssh_bytes(Key::C, ctrl_mods()), vec![3]);
    assert_eq!(key_to_ssh_bytes(Key::Z, ctrl_mods()), vec![26]);
    assert_eq!(key_to_ssh_bytes(Key::OpenBracket, ctrl_mods()), vec![27]);
    assert_eq!(key_to_ssh_bytes(Key::Backslash, ctrl_mods()), vec![28]);
    assert_eq!(key_to_ssh_bytes(Key::CloseBracket, ctrl_mods()), vec![29]);
    assert_eq!(key_to_ssh_bytes(Key::Num6, ctrl_mods()), vec![30]);
    assert_eq!(key_to_ssh_bytes(Key::Minus, ctrl_mods()), vec![31]);
    assert_eq!(key_to_ssh_bytes(Key::Enter, ctrl_mods()), vec![b'\r']);
}

#[test]
fn gui_plain_keys() {
    assert_eq!(key_to_ssh_bytes(Key::A, no_mods()), Vec::<u8>::new());
    assert_eq!(key_to_ssh_bytes(Key::Enter, no_mods()), vec![b'\r']);
    assert_eq!(key_to_ssh_bytes(Key::Tab, no_mods()), vec![b'\t']);
    assert_eq!(key_to_ssh_bytes(Key::Backspace, no_mods()), vec![0x7f]);
    assert_eq!(key_to_ssh_bytes(Key::Escape, no_mods()), vec![0x1b]);
    assert_eq!(key_to_ssh_bytes(Key::ArrowUp, no_mods()), b"\x1b[A".to_vec());
    assert_eq!(key_to_ssh_bytes(Key::ArrowLeft, no_mods()), b"\x1b[D".to_vec());
    assert_eq!(key_to_ssh_bytes(Key::PageDown, no_mods()), b"\x1b[6~".to_vec());
    assert_eq!(key_to_ssh_bytes(Key::F1, no_mods()), b"\x1bOP".to_vec());
    assert_eq!(key_to_ssh_bytes(Key::F5, no_mods()), b"\x1b[15~".to_vec());
    assert_eq!(key_to_ssh_bytes(Key::F12, no_mods()), b"\x1b[24~".to_vec());
    assert_eq!(key_to_ssh_bytes(Key::Other, no_mods()), Vec::<u8>::new());
}

#[test]
fn terminal_and_gui_encoders_agree() {
    let pairs = [
        (Key::Enter, KeyCode::Enter),
        (Key::Tab, KeyCode::Tab),
        (Key::Backspace, KeyCode::Backspace),
        (Key::Escape, KeyCode::Esc),
        (Key::ArrowUp, KeyCode::Up),
        (Key::ArrowDown, KeyCode::Down),
        (Key::ArrowRight, KeyCode::Right),
        (Key::ArrowLeft, KeyCode::Left),
        (Key::Home, KeyCode::Home),
        (Key::End, KeyCode::End),
        (Key::PageUp, KeyCode::PageUp),
        (Key::PageDown, KeyCode::PageDown),
        (Key::Delete, KeyCode::Delete),
        (Key::Insert, KeyCode::Insert),
        (Key::F1, KeyCode::F(1)),
        (Key::F4, KeyCode::F(4)),
        (Key::F5, KeyCode::F(5)),
        (Key::F6, KeyCode::F(6)),
        (Key::F9, KeyCode::F(9)),
        (Key::F11, KeyCode::F(11)),
        (Key::F12, KeyCode::F(12)),
    ];
    for (key, code) in pairs {
        assert_eq!(key_to_ssh_bytes(key, no_mods()), key_event_to_bytes(&press(code)));
        assert_eq!(key_to_ssh_bytes(key, ctrl_mods()), key_event_to_bytes(&ctrl(code)));
    }
    assert_eq!(key_to_ssh_bytes(Key::A, ctrl_mods()), key_event_to_bytes(&ctrl(KeyCode::Char('a'))));
    assert_eq!(key_to_ssh_bytes(Key::Q, ctrl_mods()), key_event_to_bytes(&ctrl(KeyCode::Char('q'))));
    assert_eq!(key_to_ssh_bytes(Key::Z, ctrl_mods()), key_event_to_bytes(&ctrl(KeyCode::Char('z'))));
}
