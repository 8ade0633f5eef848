//! What all full-screen menus have in common: title bar, separator, key hints, and
//! the window that a long list is seen through.

use crate::ansi::{
    push_bg, push_clear_below, push_clear_line, push_fg, push_move_to, push_reset, Rgb,
};
#[allow(unused_imports)]
use crate::ansi::{bg, clear_below, clear_line, fg, move_to, reset};
use crate::text::{byte_len, push_padded, push_repeated};
#[allow(unused_imports)]
use crate::text::{
    fills, group_empty_text, is_line_of, lemma_padded_fills, lemma_utf8_len_add,
    lemma_utf8_len_ascii, padded, repeated, utf8_len,
};
use vstd::prelude::*;

verus! {

/// The colour of titles, prompts and hinted keys.
pub const ACCENT: Rgb = (255, 200, 80);

/// The background of the selected list entry.
pub const SELECTED_BG: Rgb = (20, 26, 46);

/// The text of the selected list entry.
pub const SELECTED_FG: Rgb = (255, 230, 100);

/// The text of other list entries.
pub const ENTRY_FG: Rgb = (178, 178, 205);

/// `a - b`, or zero where `b` is larger.
pub open spec fn minus(a: int, b: int) -> nat {
    if a > b {
        (a - b) as nat
    } else {
        0
    }
}

/// The title on the first row, with the rest of the row filled up. The title is
/// measured in bytes.
pub open spec fn title_bar(title: Seq<char>, cols: usize) -> Seq<char> {
    move_to(1) + bg((20, 20, 36)) + fg(ACCENT) + title + fg((50, 50, 72)) + repeated(
        ' ',
        minus(cols as int, utf8_len(title) as int),
    ) + reset()
}

/// Appends a title bar.
pub fn push_title_bar(text: &mut String, title: &str, cols: usize)
    requires
        utf8_len(title@) <= usize::MAX,
    ensures
        final(text)@ == old(text)@ + title_bar(title@, cols),
{
    let ghost before = text@;
    push_move_to(text, 1);
    push_bg(text, (20, 20, 36));
    push_fg(text, ACCENT);
    text.append(title);
    push_fg(text, (50, 50, 72));
    push_repeated(text, ' ', cols.saturating_sub(byte_len(title)));
    push_reset(text);
    assert(text@ =~= before + title_bar(title@, cols));
}

/// How many bytes a title takes that holds one character of three bytes after its
/// first `n` characters, and ASCII characters besides.
pub proof fn lemma_title_len(title: Seq<char>, n: nat)
    requires
        n < title.len(),
        0x800 <= title[n as int] as u32 <= 0xffff,
        forall|i: int| 0 <= i < title.len() && i != n ==> (#[trigger] title[i]) as u32 <= 0x7f,
    ensures
        utf8_len(title) == title.len() + 2,
{
    let head = title.subrange(0, n as int);
    let mark = seq![title[n as int]];
    let tail = title.subrange((n + 1) as int, title.len() as int);
    assert(title =~= head + mark + tail);
    lemma_utf8_len_add(head + mark, tail);
    lemma_utf8_len_add(head, mark);
    lemma_utf8_len_ascii(head);
    lemma_utf8_len_ascii(tail);
    assert(mark.drop_first().len() == 0);
    reveal_with_fuel(utf8_len, 2);
}

/// A line across the whole row.
pub open spec fn separator(row: u16, cols: usize) -> Seq<char> {
    move_to(row) + clear_line() + fg((35, 35, 55)) + repeated('─', cols as nat) + reset()
}

/// Appends a separator.
pub fn push_separator(text: &mut String, row: u16, cols: usize)
    ensures
        final(text)@ == old(text)@ + separator(row, cols),
{
    let ghost before = text@;
    push_move_to(text, row);
    push_clear_line(text);
    push_fg(text, (35, 35, 55));
    push_repeated(text, '─', cols);
    push_reset(text);
    assert(text@ =~= before + separator(row, cols));
}

/// One key hint: the key, then what it does.
pub open spec fn hint(key: Seq<char>, effect: Seq<char>) -> Seq<char> {
    fg(ACCENT) + key + fg((98, 98, 128)) + effect
}

/// Appends a key hint.
pub fn push_hint(text: &mut String, key: &str, effect: &str)
    ensures
        final(text)@ == old(text)@ + hint(key@, effect@),
{
    let ghost before = text@;
    push_fg(text, ACCENT);
    text.append(key);
    push_fg(text, (98, 98, 128));
    text.append(effect);
    assert(text@ =~= before + hint(key@, effect@));
}

/// What precedes the key hints on their row.
pub open spec fn hints_open(row: u16) -> Seq<char> {
    move_to(row) + clear_line() + bg((15, 15, 28)) + " "@
}

/// Appends what precedes the key hints.
pub fn push_hints_open(text: &mut String, row: u16)
    ensures
        final(text)@ == old(text)@ + hints_open(row),
{
    let ghost before = text@;
    push_move_to(text, row);
    push_clear_line(text);
    push_bg(text, (15, 15, 28));
    text.append(" ");
    assert(text@ =~= before + hints_open(row));
}

/// The number of list entries that fit on a screen of `rows` rows: two rows stand
/// above the list and four below it.
pub open spec fn list_height(rows: usize) -> nat {
    minus(minus(rows as int, 4) as int, 2)
}

/// The first entry that is shown, such that the selected one is.
pub open spec fn list_offset(selected: usize, rows: usize) -> nat {
    if selected >= list_height(rows) {
        (selected - list_height(rows) + 1) as nat
    } else {
        0
    }
}

/// The row of the separator below the list.
pub open spec fn separator_row(rows: usize) -> u16 {
    (minus(rows as int, 4) + 1) as u16
}

/// The number of list entries that fit on a screen of `rows` rows.
pub fn visible_rows(rows: usize) -> (visible: usize)
    ensures
        visible == list_height(rows),
{
    rows.saturating_sub(4).saturating_sub(2)
}

/// The first entry that is shown.
pub fn first_visible(selected: usize, rows: usize) -> (offset: usize)
    requires
        selected < usize::MAX || list_height(rows) > 0,
    ensures
        offset == list_offset(selected, rows),
{
    let visible = visible_rows(rows);
    if selected >= visible {
        selected - visible + 1
    } else {
        0
    }
}

/// Where the list has any height, the selected entry is among those shown.
pub proof fn lemma_selected_is_visible(selected: usize, rows: usize)
    requires
        list_height(rows) > 0,
    ensures
        list_offset(selected, rows) <= selected < list_offset(selected, rows) + list_height(rows),
{
}

/// The list never scrolls further than it has to: it starts with its first entry, or
/// ends with the selected one.
pub proof fn lemma_scrolls_no_further_than_needed(selected: usize, rows: usize)
    ensures
        list_offset(selected, rows) == 0 || selected + 1 == list_offset(selected, rows)
            + list_height(rows),
{
}

/// The screen row, counted from one, that the list entry in `slot` stands on.
pub open spec fn slot_row(slot: int) -> u16 {
    (slot + 3) as u16
}

/// The width of the swatch in the preview: what 22 columns leave of the screen, but
/// at most 72.
pub open spec fn preview_columns(cols: usize) -> nat {
    if cols >= 94 {
        72
    } else {
        minus(cols as int, 22)
    }
}

/// The width of the swatch in the preview.
pub fn preview_width(cols: usize) -> (width: usize)
    ensures
        width == preview_columns(cols),
{
    cols.saturating_sub(22).min(72)
}

/// The two colours of an entry, as they are written.
pub open spec fn hex_columns(from: Seq<char>, to: Seq<char>) -> Seq<char> {
    "  "@ + fg((82, 82, 108)) + from + fg((48, 48, 68)) + "→"@ + fg((82, 82, 108)) + to + reset()
}

/// Draws the two colours of an entry.
pub fn draw_hex_columns(from: &str, to: &str) -> (text: String)
    ensures
        text@ == hex_columns(from@, to@),
{
    broadcast use group_empty_text;

    let mut text = String::new();
    text.append("  ");
    push_fg(&mut text, (82, 82, 108));
    text.append(from);
    push_fg(&mut text, (48, 48, 68));
    text.append("→");
    push_fg(&mut text, (82, 82, 108));
    text.append(to);
    push_reset(&mut text);
    text
}

/// The preview of an entry: its name and a swatch.
pub open spec fn named_preview(display: Seq<char>, swatch: Seq<char>) -> Seq<char> {
    "  "@ + fg((92, 92, 115)) + "▸ "@ + fg((172, 172, 198)) + padded(display, 16) + reset() + "  "@
        + swatch
}

/// Appends the preview of an entry.
pub fn push_named_preview(text: &mut String, display: &str, swatch: &str)
    ensures
        final(text)@ == old(text)@ + named_preview(display@, swatch@),
{
    broadcast use group_empty_text;

    let mut piece = String::new();
    piece.append("  ");
    push_fg(&mut piece, (92, 92, 115));
    piece.append("▸ ");
    push_fg(&mut piece, (172, 172, 198));
    push_padded(&mut piece, display, 16);
    push_reset(&mut piece);
    piece.append("  ");
    piece.append(swatch);
    text.append(piece.as_str());
}

/// A heading where a dialogue opens: everything from `row` on is erased, and the
/// heading is written there.
pub open spec fn dialogue_heading(row: u16, heading: Seq<char>) -> Seq<char> {
    move_to(row) + clear_below() + move_to(row) + fg((175, 175, 200)) + heading + reset()
        + "\n"@
}

/// Draws a dialogue's heading.
pub fn draw_dialogue_heading(row: u16, heading: &str) -> (text: String)
    ensures
        text@ == dialogue_heading(row, heading@),
{
    broadcast use group_empty_text;

    let mut text = String::new();
    push_move_to(&mut text, row);
    push_clear_below(&mut text);
    push_move_to(&mut text, row);
    push_fg(&mut text, (175, 175, 200));
    text.append(heading);
    push_reset(&mut text);
    text.append("\n");
    text
}

/// The row on which a dialogue opens, fifth from below.
pub fn dialogue_row(rows: usize) -> (row: u16)
    requires
        rows as u16 >= 4,
    ensures
        row == rows as u16 - 4,
{
    rows as u16 - 4
}

/// The list takes what six rows leave of the screen.
pub proof fn lemma_list_takes_the_rest(rows: usize)
    ensures
        rows <= 6 ==> list_height(rows) == 0,
        rows > 6 ==> list_height(rows) + 6 == rows,
{
}

/// The list is shown from its beginning until the selected entry would be below its last
/// row, and from then on so that the selected entry stands on that row. A list without rows
/// starts behind it.
pub proof fn lemma_where_the_list_starts(selected: usize, rows: usize)
    ensures
        selected + 6 < rows ==> list_offset(selected, rows) == 0,
        selected + 6 >= rows > 6 ==> list_offset(selected, rows) + rows == selected + 7,
        rows <= 6 ==> list_offset(selected, rows) == selected + 1,
{
}

/// The rows of the list follow each other from the third row on, and the separator follows
/// the last of them.
pub proof fn lemma_rows_of_the_list(slot: int, rows: usize)
    requires
        0 <= slot < list_height(rows),
        rows <= u16::MAX,
    ensures
        slot_row(slot) == 3 + slot,
        slot_row(slot) < separator_row(rows),
        separator_row(rows) + 3 == rows,
{
}

/// The preview is as wide as 22 columns leave room for, up to 72 columns.
pub proof fn lemma_preview_width(cols: usize)
    ensures
        cols < 22 ==> preview_columns(cols) == 0,
        22 <= cols <= 94 ==> preview_columns(cols) + 22 == cols,
        cols > 94 ==> preview_columns(cols) == 72,
{
}

/// A title bar shows the title on the first row and fills the row up with spaces, counting
/// the title in bytes.
pub proof fn lemma_title_bar(title: Seq<char>, cols: usize)
    ensures
        exists|gap: Seq<char>| #[trigger]
            is_line_of(gap, ' ', cols - utf8_len(title)) && title_bar(title, cols) == move_to(1)
                + bg((20, 20, 36)) + fg((255, 200, 80)) + title + fg((50, 50, 72)) + gap
                + reset(),
{
    let gap = repeated(' ', minus(cols as int, utf8_len(title) as int));
    assert(is_line_of(gap, ' ', cols - utf8_len(title)));
}

/// A separator goes across the whole row, from its first column to its last.
pub proof fn lemma_separator(row: u16, cols: usize)
    ensures
        exists|line: Seq<char>| #[trigger]
            is_line_of(line, '─', cols as int) && separator(row, cols) == move_to(row)
                + clear_line() + fg((35, 35, 55)) + line + reset(),
{
    let line = repeated('─', cols as nat);
    assert(is_line_of(line, '─', cols as int));
}

/// A hint shows its key in the accent colour and then what the key does; the row of hints is
/// erased first.
pub proof fn lemma_hints(key: Seq<char>, effect: Seq<char>, row: u16)
    ensures
        hint(key, effect) == fg((255, 200, 80)) + key + fg((98, 98, 128)) + effect,
        hints_open(row) == move_to(row) + clear_line() + bg((15, 15, 28)) + " "@,
{
}

/// A preview shows the name in a column of sixteen characters, and behind it the swatch as
/// it was painted.
pub proof fn lemma_named_preview(display: Seq<char>, swatch: Seq<char>)
    ensures
        exists|cell: Seq<char>| #[trigger]
            fills(cell, display, 16) && named_preview(display, swatch) == "  "@ + fg(
                (92, 92, 115),
            ) + "▸ "@ + fg((172, 172, 198)) + cell + reset() + "  "@ + swatch,
{
    lemma_padded_fills(display, 16);
}

/// Both colours of an entry are shown as they are written, the first before the second.
pub proof fn lemma_hex_columns(from: Seq<char>, to: Seq<char>)
    ensures
        hex_columns(from, to) == "  "@ + fg((82, 82, 108)) + from + fg((48, 48, 68)) + "→"@ + fg(
            (82, 82, 108),
        ) + to + reset(),
{
}

/// A dialogue erases everything from its row on and starts there with its heading.
pub proof fn lemma_dialogue_heading(row: u16, heading: Seq<char>)
    ensures
        dialogue_heading(row, heading) == move_to(row) + clear_below() + move_to(row) + fg(
            (175, 175, 200),
        ) + heading + reset() + "\n"@,
{
}

} // verus!
