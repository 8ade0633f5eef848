use pyroclear::terminal::{raw_mode, terminal_size, LineMode, SCREEN_CLOSE, SCREEN_OPEN};

#[test]
fn sizes() {
    assert_eq!(terminal_size(Some((132, 50))), (132, 50));
    assert_eq!(terminal_size(Some((1, 1))), (1, 1));
    assert_eq!(terminal_size(Some((u16::MAX, u16::MAX))), (65535, 65535));
    assert_eq!(terminal_size(Some((0, 50))), (80, 24));
    assert_eq!(terminal_size(Some((132, 0))), (80, 24));
    assert_eq!(terminal_size(None), (80, 24));
}

#[test]
fn raw_mode_clears_its_flags() {
    let orig = LineMode { lflag: 0b1111_0110, vmin: 4, vtime: 9 };
    let raw = raw_mode(orig, 0b10, 0b1000, 0b1);
    assert_eq!(raw, LineMode { lflag: 0b1111_0100, vmin: 1, vtime: 0 });
    assert_eq!(raw_mode(orig, 0, 0, 0).lflag, orig.lflag);
    let wide = LineMode { lflag: 0x8000_0001_0000_018b, vmin: 0, vtime: 0 };
    assert_eq!(raw_mode(wide, 0x100, 0x8, 0x80).lflag, 0x8000_0001_0000_0003);
}

#[test]
fn screen_switching() {
    assert_eq!(SCREEN_OPEN, "\x1b[?1049h\x1b[?25l");
    assert_eq!(SCREEN_CLOSE, "\x1b[?1049l\x1b[?25h");
}
