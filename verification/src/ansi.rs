//! The terminal control sequences that frames and screens are made of.

use crate::text::push_decimal;
use vstd::prelude::*;
#[allow(unused_imports)]
use crate::text::{decimal, is_numeral, lemma_decimal};

verus! {

/// The character that starts every control sequence.
pub const ESC: &'static str = "\x1b";

/// A colour as red, green and blue.
pub type Rgb = (u8, u8, u8);

/// A colour as a control sequence carries it: three decimals between semicolons.
pub open spec fn rgb_text(color: Rgb) -> Seq<char> {
    decimal(color.0 as nat) + ";"@ + decimal(color.1 as nat) + ";"@ + decimal(color.2 as nat)
}

/// Moves the cursor to the start of `row`, counted from one.
pub open spec fn move_to(row: u16) -> Seq<char> {
    ESC@ + "["@ + decimal(row as nat) + ";1H"@
}

/// Erases the row that the cursor stands on.
pub open spec fn clear_line() -> Seq<char> {
    ESC@ + "[2K"@
}

/// Erases everything from the cursor to the end of the screen.
pub open spec fn clear_below() -> Seq<char> {
    ESC@ + "[J"@
}

/// Switches all colours and emphasis off.
pub open spec fn reset() -> Seq<char> {
    ESC@ + "[0m"@
}

/// Sets the text colour.
pub open spec fn fg(color: Rgb) -> Seq<char> {
    ESC@ + "[38;2;"@ + rgb_text(color) + "m"@
}

/// Sets the text colour and switches bold type on.
pub open spec fn bold_fg(color: Rgb) -> Seq<char> {
    ESC@ + "[1;38;2;"@ + rgb_text(color) + "m"@
}

/// Sets the background colour.
pub open spec fn bg(color: Rgb) -> Seq<char> {
    ESC@ + "[48;2;"@ + rgb_text(color) + "m"@
}

/// Puts the background back to the terminal's own colour.
pub open spec fn default_bg() -> Seq<char> {
    ESC@ + "[49m"@
}

/// Moves the cursor to the top left corner.
pub open spec fn home() -> Seq<char> {
    ESC@ + "[H"@
}

fn push_rgb(text: &mut String, color: Rgb)
    ensures
        final(text)@ == old(text)@ + rgb_text(color),
{
    let ghost before = text@;
    push_decimal(text, color.0 as usize);
    text.append(";");
    push_decimal(text, color.1 as usize);
    text.append(";");
    push_decimal(text, color.2 as usize);
    assert(text@ =~= before + rgb_text(color));
}

/// Appends the sequence of [`move_to`].
pub fn push_move_to(text: &mut String, row: u16)
    ensures
        final(text)@ == old(text)@ + move_to(row),
{
    let ghost before = text@;
    text.append(ESC);
    text.append("[");
    push_decimal(text, row as usize);
    text.append(";1H");
    assert(text@ =~= before + move_to(row));
}

/// Appends the sequence of [`clear_line`].
pub fn push_clear_line(text: &mut String)
    ensures
        final(text)@ == old(text)@ + clear_line(),
{
    let ghost before = text@;
    text.append(ESC);
    text.append("[2K");
    assert(text@ =~= before + clear_line());
}

/// Appends the sequence of [`clear_below`].
pub fn push_clear_below(text: &mut String)
    ensures
        final(text)@ == old(text)@ + clear_below(),
{
    let ghost before = text@;
    text.append(ESC);
    text.append("[J");
    assert(text@ =~= before + clear_below());
}

/// Appends the sequence of [`reset`].
pub fn push_reset(text: &mut String)
    ensures
        final(text)@ == old(text)@ + reset(),
{
    let ghost before = text@;
    text.append(ESC);
    text.append("[0m");
    assert(text@ =~= before + reset());
}

/// Appends the sequence of [`fg`].
pub fn push_fg(text: &mut String, color: Rgb)
    ensures
        final(text)@ == old(text)@ + fg(color),
{
    let ghost before = text@;
    text.append(ESC);
    text.append("[38;2;");
    push_rgb(text, color);
    text.append("m");
    assert(text@ =~= before + fg(color));
}

/// Appends the sequence of [`bold_fg`].
pub fn push_bold_fg(text: &mut String, color: Rgb)
    ensures
        final(text)@ == old(text)@ + bold_fg(color),
{
    let ghost before = text@;
    text.append(ESC);
    text.append("[1;38;2;");
    push_rgb(text, color);
    text.append("m");
    assert(text@ =~= before + bold_fg(color));
}

/// Appends the sequence of [`bg`].
pub fn push_bg(text: &mut String, color: Rgb)
    ensures
        final(text)@ == old(text)@ + bg(color),
{
    let ghost before = text@;
    text.append(ESC);
    text.append("[48;2;");
    push_rgb(text, color);
    text.append("m");
    assert(text@ =~= before + bg(color));
}

/// Appends the sequence of [`default_bg`].
pub fn push_default_bg(text: &mut String)
    ensures
        final(text)@ == old(text)@ + default_bg(),
{
    let ghost before = text@;
    text.append(ESC);
    text.append("[49m");
    assert(text@ =~= before + default_bg());
}

/// Appends the sequence of [`home`].
pub fn push_home(text: &mut String)
    ensures
        final(text)@ == old(text)@ + home(),
{
    let ghost before = text@;
    text.append(ESC);
    text.append("[H");
    assert(text@ =~= before + home());
}

/// The sequences for colours carry red, green and blue as decimal numbers, in that order.
pub proof fn lemma_color_sequences(color: Rgb)
    ensures
        exists|r: Seq<char>, g: Seq<char>, b: Seq<char>|
            {
                &&& #[trigger] is_numeral(r, color.0 as int)
                &&& #[trigger] is_numeral(g, color.1 as int)
                &&& #[trigger] is_numeral(b, color.2 as int)
                &&& fg(color) == "\x1b[38;2;"@ + r + ";"@ + g + ";"@ + b + "m"@
                &&& bold_fg(color) == "\x1b[1;38;2;"@ + r + ";"@ + g + ";"@ + b + "m"@
                &&& bg(color) == "\x1b[48;2;"@ + r + ";"@ + g + ";"@ + b + "m"@
            },
{
    let r = decimal(color.0 as nat);
    let g = decimal(color.1 as nat);
    let b = decimal(color.2 as nat);
    lemma_decimal(color.0 as nat);
    lemma_decimal(color.1 as nat);
    lemma_decimal(color.2 as nat);
    reveal_strlit("\x1b");
    reveal_strlit("[38;2;");
    reveal_strlit("[1;38;2;");
    reveal_strlit("[48;2;");
    reveal_strlit("\x1b[38;2;");
    reveal_strlit("\x1b[1;38;2;");
    reveal_strlit("\x1b[48;2;");
    assert(ESC@ + "[38;2;"@ =~= "\x1b[38;2;"@);
    assert(ESC@ + "[1;38;2;"@ =~= "\x1b[1;38;2;"@);
    assert(ESC@ + "[48;2;"@ =~= "\x1b[48;2;"@);
    assert(fg(color) =~= "\x1b[38;2;"@ + r + ";"@ + g + ";"@ + b + "m"@);
    assert(bold_fg(color) =~= "\x1b[1;38;2;"@ + r + ";"@ + g + ";"@ + b + "m"@);
    assert(bg(color) =~= "\x1b[48;2;"@ + r + ";"@ + g + ";"@ + b + "m"@);
}

/// The sequence that moves the cursor carries the row as a decimal number.
pub proof fn lemma_move_sequence(row: u16)
    ensures
        exists|n: Seq<char>| #[trigger]
            is_numeral(n, row as int) && move_to(row) == "\x1b["@ + n + ";1H"@,
{
    let n = decimal(row as nat);
    lemma_decimal(row as nat);
    reveal_strlit("\x1b");
    reveal_strlit("[");
    reveal_strlit("\x1b[");
    assert(ESC@ + "["@ =~= "\x1b["@);
}

/// The sequences that carry nothing.
pub proof fn lemma_plain_sequences()
    ensures
        clear_line() == "\x1b[2K"@,
        clear_below() == "\x1b[J"@,
        reset() == "\x1b[0m"@,
        default_bg() == "\x1b[49m"@,
        home() == "\x1b[H"@,
{
    reveal_strlit("\x1b");
    reveal_strlit("[2K");
    reveal_strlit("[J");
    reveal_strlit("[0m");
    reveal_strlit("[49m");
    reveal_strlit("[H");
    reveal_strlit("\x1b[2K");
    reveal_strlit("\x1b[J");
    reveal_strlit("\x1b[0m");
    reveal_strlit("\x1b[49m");
    reveal_strlit("\x1b[H");
    assert(clear_line() =~= "\x1b[2K"@);
    assert(clear_below() =~= "\x1b[J"@);
    assert(reset() =~= "\x1b[0m"@);
    assert(default_bg() =~= "\x1b[49m"@);
    assert(home() =~= "\x1b[H"@);
}

} // verus!
