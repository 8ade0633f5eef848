use pyroclear::key::{read_key, Key};

#[test]
fn control_sequences() {
    assert_eq!(read_key(b"\x1b[A"), Key::Up);
    assert_eq!(read_key(b"\x1b[B"), Key::Down);
    assert_eq!(read_key(b"\x1b[C"), Key::Right);
    assert_eq!(read_key(b"\x1b[D"), Key::Left);
    assert_eq!(read_key(b"\x1b[5~"), Key::PageUp);
    assert_eq!(read_key(b"\x1b[6~"), Key::PageDown);
}

#[test]
fn what_follows_a_sequence_is_ignored() {
    assert_eq!(read_key(b"\x1b[Axyz"), Key::Up);
    assert_eq!(read_key(b"\x1b[5~\x1b["), Key::PageUp);
}

#[test]
fn incomplete_and_unknown_sequences() {
    assert_eq!(read_key(b""), Key::Other);
    assert_eq!(read_key(b"\x1b["), Key::Other);
    assert_eq!(read_key(b"\x1b[5"), Key::Other);
    assert_eq!(read_key(b"\x1b[5x"), Key::Other);
    assert_eq!(read_key(b"\x1b[H"), Key::Other);
    assert_eq!(read_key(b"\x1bOA"), Key::Other);
    assert_eq!(read_key(b"\x1bx"), Key::Other);
    assert_eq!(read_key(b"\r\n"), Key::Other);
    assert_eq!(read_key(b"ab"), Key::Other);
    assert_eq!(read_key("é".as_bytes()), Key::Other);
}

#[test]
fn single_bytes() {
    assert_eq!(read_key(b"\x1b"), Key::Esc);
    assert_eq!(read_key(b"\r"), Key::Enter);
    assert_eq!(read_key(b"\n"), Key::Enter);
    assert_eq!(read_key(b"\x7f"), Key::Backspace);
    assert_eq!(read_key(b"\x08"), Key::Backspace);
    assert_eq!(read_key(b"\x01"), Key::Other);
    assert_eq!(read_key(b"\x1f"), Key::Other);
    assert_eq!(read_key(b"\x80"), Key::Other);
    assert_eq!(read_key(b"\xff"), Key::Other);
}

#[test]
fn printable_characters() {
    for byte in 0x20u8..0x7f {
        assert_eq!(read_key(&[byte]), Key::Char(byte as char));
    }
}
