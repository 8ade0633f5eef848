//! What the terminal reports, and what a menu asks of it.

use vstd::prelude::*;

verus! {

/// The size that is assumed where the terminal reports none.
pub const FALLBACK_SIZE: (usize, usize) = (80, 24);

/// Sent when a menu opens: switches to the alternate screen and hides the cursor.
pub const SCREEN_OPEN: &'static str = "\x1b[?1049h\x1b[?25l";

/// Sent when a menu closes: restores the screen and shows the cursor.
pub const SCREEN_CLOSE: &'static str = "\x1b[?1049l\x1b[?25h";

/// The terminal's size in columns and rows: what it reported, unless it reported
/// nothing or a size without cells.
pub fn terminal_size(reported: Option<(u16, u16)>) -> (size: (usize, usize))
    ensures
        size == (match reported {
            Some((cols, rows)) if cols > 0 && rows > 0 => (cols as usize, rows as usize),
            _ => (80usize, 24usize),
        }),
        1 <= size.0 <= u16::MAX,
        1 <= size.1 <= u16::MAX,
{
    if let Some((cols, rows)) = reported {
        if cols > 0 && rows > 0 {
            return (cols as usize, rows as usize);
        }
    }
    FALLBACK_SIZE
}

/// The line settings of a terminal that raw mode changes.
#[derive(Clone, Copy, Debug, PartialEq, Eq, Structural)]
pub struct LineMode {
    /// The local flags, in the widest form that any system gives them.
    pub lflag: u64,
    /// How many bytes a read waits for.
    pub vmin: u8,
    /// How long a read waits.
    pub vtime: u8,
}

/// The line settings of raw mode: input comes byte by byte, without line editing, echo
/// or signals, which the flags `icanon`, `echo` and `isig` stand for.
pub fn raw_mode(orig: LineMode, icanon: u64, echo: u64, isig: u64) -> (raw: LineMode)
    ensures
        raw == (LineMode { lflag: orig.lflag & !(icanon | echo | isig), vmin: 1, vtime: 0 }),
{
    LineMode { lflag: orig.lflag & !(icanon | echo | isig), vmin: 1, vtime: 0 }
}

/// Raw mode switches the three flags off and leaves all others as they were.
pub proof fn lemma_raw_mode_clears_its_flags(lflag: u64, icanon: u64, echo: u64, isig: u64)
    ensures
        (lflag & !(icanon | echo | isig)) & icanon == 0,
        (lflag & !(icanon | echo | isig)) & echo == 0,
        (lflag & !(icanon | echo | isig)) & isig == 0,
        (lflag & !(icanon | echo | isig)) & !(icanon | echo | isig) == lflag & !(icanon | echo
            | isig),
{
    assert((lflag & !(icanon | echo | isig)) & icanon == 0) by (bit_vector);
    assert((lflag & !(icanon | echo | isig)) & echo == 0) by (bit_vector);
    assert((lflag & !(icanon | echo | isig)) & isig == 0) by (bit_vector);
    assert((lflag & !(icanon | echo | isig)) & !(icanon | echo | isig) == lflag & !(icanon
        | echo | isig)) by (bit_vector);
}

} // verus!
