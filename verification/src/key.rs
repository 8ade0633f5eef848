//! Keys, as the terminal reports them.

use vstd::prelude::*;

verus! {

/// A key press.
#[derive(Clone, Copy, Debug, PartialEq, Eq, Structural)]
pub enum Key {
    Up,
    Down,
    Left,
    Right,
    PageUp,
    PageDown,
    Enter,
    Char(char),
    Esc,
    Backspace,
    Other,
}

/// Whether `bytes` begins with an escape, a bracket and `code`.
pub open spec fn is_sequence(bytes: Seq<u8>, code: u8) -> bool {
    bytes.len() >= 3 && bytes[0] == 0x1b && bytes[1] == 0x5b && bytes[2] == code
}

/// Whether `bytes` begins with an escape, a bracket, `code` and a tilde.
pub open spec fn is_tilde_sequence(bytes: Seq<u8>, code: u8) -> bool {
    is_sequence(bytes, code) && bytes.len() >= 4 && bytes[3] == 0x7e
}

/// The key that a chunk of terminal input stands for: a control sequence by its
/// beginning, anything else only where it is a single byte.
pub open spec fn key_of(bytes: Seq<u8>) -> Key {
    if is_sequence(bytes, 0x41) {
        Key::Up
    } else if is_sequence(bytes, 0x42) {
        Key::Down
    } else if is_sequence(bytes, 0x43) {
        Key::Right
    } else if is_sequence(bytes, 0x44) {
        Key::Left
    } else if is_tilde_sequence(bytes, 0x35) {
        Key::PageUp
    } else if is_tilde_sequence(bytes, 0x36) {
        Key::PageDown
    } else if bytes.len() != 1 {
        Key::Other
    } else if bytes[0] == 0x1b {
        Key::Esc
    } else if bytes[0] == 0x0d || bytes[0] == 0x0a {
        Key::Enter
    } else if bytes[0] == 0x7f || bytes[0] == 0x08 {
        Key::Backspace
    } else if 0x20 <= bytes[0] < 0x7f {
        Key::Char(bytes[0] as char)
    } else {
        Key::Other
    }
}

/// The key that the bytes of one read from the terminal stand for. No bytes, as an
/// input that failed or ended gives them, are no known key.
pub fn read_key(bytes: &[u8]) -> (key: Key)
    ensures
        key == key_of(bytes@),
{
    let n: usize = bytes.len();
    if n >= 3 && bytes[0] == 0x1b && bytes[1] == 0x5b {
        let code: u8 = bytes[2];
        if code == 0x41 {
            return Key::Up;
        }
        if code == 0x42 {
            return Key::Down;
        }
        if code == 0x43 {
            return Key::Right;
        }
        if code == 0x44 {
            return Key::Left;
        }
        if n >= 4 && bytes[3] == 0x7e {
            if code == 0x35 {
                return Key::PageUp;
            }
            if code == 0x36 {
                return Key::PageDown;
            }
        }
        return Key::Other;
    }
    if n != 1 {
        return Key::Other;
    }
    let c: u8 = bytes[0];
    if c == 0x1b {
        Key::Esc
    } else if c == 0x0d || c == 0x0a {
        Key::Enter
    } else if c == 0x7f || c == 0x08 {
        Key::Backspace
    } else if c >= 0x20 && c < 0x7f {
        Key::Char(c as char)
    } else {
        Key::Other
    }
}

/// A character that can be typed is a printable ASCII character.
pub proof fn lemma_typed_chars_are_printable(bytes: Seq<u8>)
    ensures
        key_of(bytes) matches Key::Char(c) ==> ' ' <= c <= '~',
{
}

/// Every printable ASCII character can be typed, and each byte types its own.
pub proof fn lemma_printable_chars_can_be_typed(c: char)
    requires
        ' ' <= c <= '~',
    ensures
        key_of(seq![c as u8]) == Key::Char(c),
{
}

/// What follows a recognised control sequence in the same read is ignored.
pub proof fn lemma_rest_is_ignored(bytes: Seq<u8>, rest: Seq<u8>)
    requires
        bytes.len() > 1,
        key_of(bytes) != Key::Other,
    ensures
        key_of(bytes + rest) == key_of(bytes),
{
}

/// The control sequences of the arrow and page keys, whatever follows them in the same read.
pub proof fn lemma_control_sequences(rest: Seq<u8>)
    ensures
        key_of(seq![0x1bu8, 0x5bu8, 0x41u8] + rest) == Key::Up,
        key_of(seq![0x1bu8, 0x5bu8, 0x42u8] + rest) == Key::Down,
        key_of(seq![0x1bu8, 0x5bu8, 0x43u8] + rest) == Key::Right,
        key_of(seq![0x1bu8, 0x5bu8, 0x44u8] + rest) == Key::Left,
        key_of(seq![0x1bu8, 0x5bu8, 0x35u8, 0x7eu8] + rest) == Key::PageUp,
        key_of(seq![0x1bu8, 0x5bu8, 0x36u8, 0x7eu8] + rest) == Key::PageDown,
{
}

/// A single byte is a key of its own: escape, enter, backspace, or its own character; a
/// control byte or one beyond ASCII is no known key.
pub proof fn lemma_single_bytes(byte: u8)
    ensures
        key_of(seq![byte]) == Key::Esc <==> byte == 27,
        key_of(seq![byte]) == Key::Enter <==> byte == 13 || byte == 10,
        key_of(seq![byte]) == Key::Backspace <==> byte == 127 || byte == 8,
        32 <= byte <= 126 ==> key_of(seq![byte]) == Key::Char(byte as char),
        byte < 8 || byte == 9 || byte == 11 || byte == 12 || 14 <= byte <= 26 || 28 <= byte <= 31
            || byte > 127 ==> key_of(seq![byte]) == Key::Other,
{
}

/// Nothing else is a known key: a read of any other length holds a control sequence of an
/// arrow or page key at its beginning, or no key at all.
pub proof fn lemma_other_reads(bytes: Seq<u8>)
    requires
        bytes.len() != 1,
        key_of(bytes) != Key::Other,
    ensures
        bytes.len() >= 3,
        bytes[0] == 27,
        bytes[1] == '[' as u8,
        'A' as u8 <= bytes[2] <= 'D' as u8 || (bytes.len() >= 4 && '5' as u8 <= bytes[2]
            <= '6' as u8 && bytes[3] == '~' as u8),
{
}

} // verus!
