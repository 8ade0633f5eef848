//! How the manager of the user's own palettes looks.

use crate::ansi::{push_bg, push_bold_fg, push_clear_line, push_fg, push_move_to, push_reset};
#[allow(unused_imports)]
use crate::ansi::{bg, bold_fg, clear_line, fg, move_to, reset};
use crate::palette::{gradient_swatch, Colors, CustomPaletteEntry, SwatchSource};
#[allow(unused_imports)]
use crate::palette::gradient;
#[allow(unused_imports)]
use crate::prompt::asks;
use crate::prompt::Question;
use crate::screen::{
    draw_dialogue_heading, draw_hex_columns, first_visible, preview_width, push_hint,
    push_hints_open, push_named_preview, push_separator, push_title_bar, visible_rows, ENTRY_FG,
    SELECTED_BG, SELECTED_FG,
};
#[allow(unused_imports)]
use crate::screen::{
    dialogue_heading, hex_columns, hint, hints_open, list_height, list_offset, named_preview,
    preview_columns, separator, separator_row, slot_row, title_bar,
};
use crate::text::push_padded;
#[allow(unused_imports)]
use crate::text::{fills, group_empty_text, lemma_padded_fills, padded, utf8_len};
use vstd::prelude::*;

verus! {

/// The width of a swatch in the manager's list: what 55 columns leave of the screen,
/// but at least 10 and at most 30.
pub open spec fn custom_swatch_columns(cols: usize) -> nat {
    if cols <= 65 {
        10
    } else if cols >= 85 {
        30
    } else {
        (cols - 55) as nat
    }
}

/// The width of a swatch in the manager's list.
pub fn custom_swatch_width(cols: usize) -> (width: usize)
    ensures
        width == custom_swatch_columns(cols),
{
    let left: usize = cols.saturating_sub(55);
    if left < 10 {
        10
    } else if left > 30 {
        30
    } else {
        left
    }
}

/// The swatches of the list, each with its width: one for each palette, whose colours
/// `colors` holds.
pub fn saved_swatches(
    entries: &[CustomPaletteEntry],
    colors: &[Colors],
    cols: usize,
) -> (requests: Vec<(SwatchSource, usize)>)
    requires
        colors@.len() == entries@.len(),
    ensures
        requests@.len() == entries@.len(),
        forall|i: int|
            #![trigger requests@[i]]
            0 <= i < entries@.len() ==> requests@[i].0 == gradient(colors@[i].0, colors@[i].1)
                && requests@[i].1 == custom_swatch_columns(cols),
{
    let width: usize = custom_swatch_width(cols);
    let mut requests: Vec<(SwatchSource, usize)> = Vec::new();
    for i in 0..entries.len()
        invariant
            colors@.len() == entries@.len(),
            width == custom_swatch_columns(cols),
            requests@.len() == i,
            forall|j: int|
                #![trigger requests@[j]]
                0 <= j < i ==> requests@[j].0 == gradient(colors@[j].0, colors@[j].1)
                    && requests@[j].1 == width,
    {
        requests.push((gradient_swatch(colors[i].0, colors[i].1), width));
    }
    requests
}

/// The swatch of the preview with its width: that of the selected palette, where one is
/// selected.
pub fn saved_preview(
    selected: usize,
    entries: &[CustomPaletteEntry],
    colors: &[Colors],
    cols: usize,
) -> (request: Option<(SwatchSource, usize)>)
    requires
        colors@.len() == entries@.len(),
    ensures
        request is Some <==> selected < entries@.len(),
        request matches Some(swatch) ==> {
            &&& swatch.0 == gradient(
                colors@[selected as int].0,
                colors@[selected as int].1,
            )
            &&& swatch.1 == preview_columns(cols)
        },
{
    if selected < entries.len() {
        let source = gradient_swatch(colors[selected].0, colors[selected].1);
        Some((source, preview_width(cols)))
    } else {
        None
    }
}

/// A saved palette in the list: name, id, swatch and colours.
pub open spec fn saved_text(
    selected: bool,
    entry: CustomPaletteEntry,
    swatch: Seq<char>,
) -> Seq<char> {
    (if selected {
        bg(SELECTED_BG) + bold_fg(SELECTED_FG)
    } else {
        fg(ENTRY_FG)
    }) + "  "@ + (if selected {
        "▸"@
    } else {
        " "@
    }) + " "@ + padded(entry.display@, 15) + " ("@ + padded(entry.name@, 10) + ")  "@ + swatch
        + hex_columns(entry.from@, entry.to@) + reset()
}

/// One row of the list: the palette that is scrolled there, if the list goes that far.
pub open spec fn saved_slot_text(
    slot: int,
    selected: usize,
    rows: usize,
    entries: Seq<CustomPaletteEntry>,
    swatches: Seq<String>,
) -> Seq<char> {
    let place = slot + list_offset(selected, rows);
    move_to(slot_row(slot)) + clear_line() + (if place < entries.len() {
        saved_text(place == selected, entries[place], swatches[place]@)
    } else {
        Seq::empty()
    })
}

/// The first `n` rows of the list.
pub open spec fn saved_list_text(
    n: nat,
    selected: usize,
    rows: usize,
    entries: Seq<CustomPaletteEntry>,
    swatches: Seq<String>,
) -> Seq<char>
    decreases n,
{
    if n == 0 {
        Seq::empty()
    } else {
        saved_list_text((n - 1) as nat, selected, rows, entries, swatches) + saved_slot_text(
            n - 1,
            selected,
            rows,
            entries,
            swatches,
        )
    }
}

/// What the manager says while no palette is saved.
pub open spec fn nothing_saved() -> Seq<char> {
    move_to(4) + clear_line()
        + "  No custom palettes saved yet. Press 'n' to create one!"@
}

/// The preview row, third from below: the selected palette, if any is.
pub open spec fn saved_preview_row(
    selected: usize,
    rows: usize,
    entries: Seq<CustomPaletteEntry>,
    preview: Seq<char>,
) -> Seq<char> {
    move_to((rows - 2) as u16) + clear_line() + (if selected < entries.len() {
        named_preview(entries[selected as int].display@, preview)
    } else {
        Seq::empty()
    })
}

/// The key hints of the manager.
pub open spec fn custom_hints(rows: usize) -> Seq<char> {
    hints_open(rows as u16) + hint("↑↓"@, " move  "@) + hint("n"@, " new  "@) + hint(
        "d"@,
        " delete  "@,
    ) + hint("Enter"@, " run  "@) + hint("Esc/q"@, " back "@) + reset()
}

/// The manager's screen.
pub open spec fn custom_text(
    selected: usize,
    entries: Seq<CustomPaletteEntry>,
    cols: usize,
    rows: usize,
    swatches: Seq<String>,
    preview: Seq<char>,
) -> Seq<char> {
    title_bar(" pyroclear  ◆  custom palettes "@, cols) + saved_list_text(
        list_height(rows),
        selected,
        rows,
        entries,
        swatches,
    ) + (if entries.len() == 0 {
        nothing_saved()
    } else {
        Seq::empty()
    }) + separator(separator_row(rows), cols) + saved_preview_row(
        selected,
        rows,
        entries,
        preview,
    ) + custom_hints(rows)
}

fn draw_saved(selected: bool, entry: &CustomPaletteEntry, swatch: &str) -> (text: String)
    ensures
        text@ == saved_text(selected, *entry, swatch@),
{
    broadcast use group_empty_text;

    let mut text = String::new();
    if selected {
        push_bg(&mut text, SELECTED_BG);
        push_bold_fg(&mut text, SELECTED_FG);
    } else {
        push_fg(&mut text, ENTRY_FG);
    }
    text.append("  ");
    text.append(
        if selected {
            "▸"
        } else {
            " "
        },
    );
    text.append(" ");
    push_padded(&mut text, entry.display.as_str(), 15);
    text.append(" (");
    push_padded(&mut text, entry.name.as_str(), 10);
    text.append(")  ");
    text.append(swatch);
    let hex = draw_hex_columns(entry.from.as_str(), entry.to.as_str());
    text.append(hex.as_str());
    push_reset(&mut text);
    text
}

fn draw_saved_slot(
    slot: usize,
    selected: usize,
    rows: usize,
    entries: &[CustomPaletteEntry],
    swatches: &[String],
) -> (text: String)
    requires
        slot < list_height(rows),
        swatches@.len() == entries@.len(),
    ensures
        text@ == saved_slot_text(slot as int, selected, rows, entries@, swatches@),
{
    broadcast use group_empty_text;

    let place: usize = slot + first_visible(selected, rows);
    let mut text = String::new();
    push_move_to(&mut text, (2 + slot + 1) as u16);
    push_clear_line(&mut text);
    if place < entries.len() {
        let rest = draw_saved(place == selected, &entries[place], swatches[place].as_str());
        text.append(rest.as_str());
    }
    text
}

fn draw_saved_list(
    selected: usize,
    rows: usize,
    entries: &[CustomPaletteEntry],
    swatches: &[String],
) -> (text: String)
    requires
        swatches@.len() == entries@.len(),
    ensures
        text@ == saved_list_text(list_height(rows), selected, rows, entries@, swatches@),
{
    let mut text = String::new();
    let visible = visible_rows(rows);
    for slot in 0..visible
        invariant
            visible == list_height(rows),
            swatches@.len() == entries@.len(),
            text@ == saved_list_text(slot as nat, selected, rows, entries@, swatches@),
    {
        let row = draw_saved_slot(slot, selected, rows, entries, swatches);
        text.append(row.as_str());
    }
    text
}

fn draw_nothing_saved() -> (text: String)
    ensures
        text@ == nothing_saved(),
{
    broadcast use group_empty_text;

    let mut text = String::new();
    push_move_to(&mut text, 4);
    push_clear_line(&mut text);
    text.append("  No custom palettes saved yet. Press 'n' to create one!");
    text
}

fn draw_saved_preview_row(
    selected: usize,
    rows: usize,
    entries: &[CustomPaletteEntry],
    preview: &str,
) -> (text: String)
    requires
        rows >= 2,
    ensures
        text@ == saved_preview_row(selected, rows, entries@, preview@),
{
    broadcast use group_empty_text;

    let mut text = String::new();
    push_move_to(&mut text, (rows - 2) as u16);
    push_clear_line(&mut text);
    if selected < entries.len() {
        push_named_preview(&mut text, entries[selected].display.as_str(), preview);
    }
    text
}

fn draw_custom_hints(rows: usize) -> (text: String)
    ensures
        text@ == custom_hints(rows),
{
    broadcast use group_empty_text;

    let mut text = String::new();
    push_hints_open(&mut text, rows as u16);
    push_hint(&mut text, "↑↓", " move  ");
    push_hint(&mut text, "n", " new  ");
    push_hint(&mut text, "d", " delete  ");
    push_hint(&mut text, "Enter", " run  ");
    push_hint(&mut text, "Esc/q", " back ");
    push_reset(&mut text);
    text
}

/// The title of the manager takes 33 bytes.
pub proof fn lemma_custom_title_len()
    ensures
        utf8_len(" pyroclear  ◆  custom palettes "@) == 33,
{
    reveal_strlit(" pyroclear  ◆  custom palettes ");
    crate::screen::lemma_title_len(" pyroclear  ◆  custom palettes "@, 12);
}

/// Draws the manager. `swatches` holds the swatches that [`saved_swatches`] asks for, and
/// `preview` is the one that [`saved_preview`] asks for.
pub fn draw_custom(
    selected: usize,
    entries: &[CustomPaletteEntry],
    cols: usize,
    rows: usize,
    swatches: &[String],
    preview: &str,
) -> (text: String)
    requires
        rows >= 2,
        swatches@.len() == entries@.len(),
    ensures
        text@ == custom_text(selected, entries@, cols, rows, swatches@, preview@),
{
    broadcast use group_empty_text;

    proof {
        lemma_custom_title_len();
    }
    let mut text = String::new();
    push_title_bar(&mut text, " pyroclear  ◆  custom palettes ", cols);
    let list = draw_saved_list(selected, rows, entries, swatches);
    text.append(list.as_str());
    if entries.is_empty() {
        let notice = draw_nothing_saved();
        text.append(notice.as_str());
    }
    push_separator(&mut text, (rows.saturating_sub(4) + 1) as u16, cols);
    let row = draw_saved_preview_row(selected, rows, entries, preview);
    text.append(row.as_str());
    let hints = draw_custom_hints(rows);
    text.append(hints.as_str());
    text
}

/// Draws the heading of the dialogue that asks for a new palette.
pub fn draw_create_dialogue(row: u16) -> (text: String)
    ensures
        text@ == dialogue_heading(row, "  Create new custom palette"@),
{
    draw_dialogue_heading(row, "  Create new custom palette")
}

/// The question that follows after `answered` answers in the dialogue on row `row`;
/// none is left after the fourth.
pub fn palette_question(answered: usize, row: u16) -> (question: Option<Question>)
    requires
        row <= u16::MAX - 4,
    ensures
        question is Some <==> answered < 4,
        answered == 0 ==> asks(question->0, "  Slug (id):"@, row + 1, false),
        answered == 1 ==> asks(question->0, "  Name:     "@, row + 2, false),
        answered == 2 ==> asks(question->0, "  From hex: "@, row + 3, true),
        answered == 3 ==> asks(question->0, "  To hex:   "@, row + 4, true),
{
    match answered {
        0 => Some(Question { label: "  Slug (id):", row: row + 1, hex: false }),
        1 => Some(Question { label: "  Name:     ", row: row + 2, hex: false }),
        2 => Some(Question { label: "  From hex: ", row: row + 3, hex: true }),
        3 => Some(Question { label: "  To hex:   ", row: row + 4, hex: true }),
        _ => None,
    }
}

/// A swatch of the list is as wide as 55 columns leave room for, but has at least ten columns
/// and at most thirty.
pub proof fn lemma_custom_swatch_width(cols: usize)
    ensures
        10 <= custom_swatch_columns(cols) <= 30,
        65 <= cols <= 85 ==> custom_swatch_columns(cols) + 55 == cols,
        cols < 65 ==> custom_swatch_columns(cols) == 10,
        cols > 85 ==> custom_swatch_columns(cols) == 30,
{
}

/// Whether `content` shows a saved palette: a mark where it is selected, the name in a column
/// of fifteen characters, the id in one of ten, the swatch and the colours.
pub open spec fn is_saved_entry(
    content: Seq<char>,
    selected: bool,
    entry: CustomPaletteEntry,
    swatch: Seq<char>,
) -> bool {
    exists|name: Seq<char>, id: Seq<char>|
        {
            &&& #[trigger] fills(name, entry.display@, 15)
            &&& #[trigger] fills(id, entry.name@, 10)
            &&& selected ==> content == bg((20, 26, 46)) + bold_fg((255, 230, 100)) + "  "@ + "▸"@
                + " "@ + name + " ("@ + id + ")  "@ + swatch + hex_columns(entry.from@, entry.to@)
                + reset()
            &&& !selected ==> content == fg((178, 178, 205)) + "  "@ + " "@ + " "@ + name + " ("@
                + id + ")  "@ + swatch + hex_columns(entry.from@, entry.to@) + reset()
        }
}

/// Whether `line` is the row of the list `slot` rows below its first: the cursor goes there,
/// the row is erased, and the palette is shown that stands so far behind the first one shown,
/// with its own swatch.
pub open spec fn is_saved_line(
    line: Seq<char>,
    slot: int,
    selected: usize,
    rows: usize,
    entries: Seq<CustomPaletteEntry>,
    swatches: Seq<String>,
) -> bool {
    let place = if selected + 6 < rows {
        slot
    } else {
        slot + selected + 7 - rows
    };
    exists|content: Seq<char>|
        {
            &&& line == #[trigger] (move_to((3 + slot) as u16) + clear_line() + content)
            &&& place >= entries.len() ==> content.len() == 0
            &&& place < entries.len() ==> is_saved_entry(
                content,
                place == selected,
                entries[place],
                swatches[place]@,
            )
        }
}

proof fn lemma_saved_slot_text(
    slot: int,
    selected: usize,
    rows: usize,
    entries: Seq<CustomPaletteEntry>,
    swatches: Seq<String>,
)
    requires
        0 <= slot < list_height(rows),
    ensures
        is_saved_line(
            saved_slot_text(slot, selected, rows, entries, swatches),
            slot,
            selected,
            rows,
            entries,
            swatches,
        ),
{
    let place = slot + list_offset(selected, rows);
    let content = if place < entries.len() {
        let entry = entries[place];
        lemma_padded_fills(entry.display@, 15);
        lemma_padded_fills(entry.name@, 10);
        assert(fills(padded(entry.display@, 15), entry.display@, 15));
        assert(fills(padded(entry.name@, 10), entry.name@, 10));
        saved_text(place == selected, entry, swatches[place]@)
    } else {
        Seq::empty()
    };
    assert(saved_slot_text(slot, selected, rows, entries, swatches) == move_to(
        (3 + slot) as u16,
    ) + clear_line() + content);
}

proof fn lemma_saved_list_text(
    n: nat,
    selected: usize,
    rows: usize,
    entries: Seq<CustomPaletteEntry>,
    swatches: Seq<String>,
) -> (lines: Seq<Seq<char>>)
    requires
        n <= list_height(rows),
    ensures
        lines.len() == n,
        lines.flatten_alt() == saved_list_text(n, selected, rows, entries, swatches),
        forall|slot: int|
            0 <= slot < n ==> is_saved_line(
                #[trigger] lines[slot],
                slot,
                selected,
                rows,
                entries,
                swatches,
            ),
    decreases n,
{
    if n == 0 {
        Seq::empty()
    } else {
        let before = lemma_saved_list_text((n - 1) as nat, selected, rows, entries, swatches);
        lemma_saved_slot_text(n - 1, selected, rows, entries, swatches);
        let lines = before.push(saved_slot_text(n - 1, selected, rows, entries, swatches));
        assert(lines.drop_last() =~= before);
        lines
    }
}

/// The manager's list has a line for each of its rows, in order, each with the palette that
/// belongs there.
pub proof fn lemma_list_shows_saved_palettes(
    selected: usize,
    rows: usize,
    entries: Seq<CustomPaletteEntry>,
    swatches: Seq<String>,
)
    ensures
        exists|lines: Seq<Seq<char>>|
            {
                &&& rows > 6 ==> lines.len() == rows - 6
                &&& rows <= 6 ==> lines.len() == 0
                &&& #[trigger] lines.flatten_alt() == saved_list_text(
                    list_height(rows),
                    selected,
                    rows,
                    entries,
                    swatches,
                )
                &&& forall|slot: int|
                    0 <= slot < lines.len() ==> is_saved_line(
                        #[trigger] lines[slot],
                        slot,
                        selected,
                        rows,
                        entries,
                        swatches,
                    )
            },
{
    let lines = lemma_saved_list_text(list_height(rows), selected, rows, entries, swatches);
}

/// The manager's screen from top to bottom: the title, the list, a notice where it is empty,
/// a separator on the fourth row from below or else the first, the preview of the selected palette, and the key
/// hints on the last row.
pub proof fn lemma_custom_screen(
    selected: usize,
    entries: Seq<CustomPaletteEntry>,
    cols: usize,
    rows: usize,
    swatches: Seq<String>,
    preview: Seq<char>,
)
    requires
        rows >= 2,
    ensures
        custom_text(selected, entries, cols, rows, swatches, preview) == title_bar(
            " pyroclear  ◆  custom palettes "@,
            cols,
        ) + saved_list_text(list_height(rows), selected, rows, entries, swatches) + (
        if entries.len() > 0 {
            Seq::empty()
        } else {
            move_to(4) + clear_line()
                + "  No custom palettes saved yet. Press 'n' to create one!"@
        }) + separator(
            if rows >= 4 {
                (rows - 3) as u16
            } else {
                1
            },
            cols,
        ) + (move_to((rows - 2) as u16) + clear_line() + (
        if selected < entries.len() {
            named_preview(entries[selected as int].display@, preview)
        } else {
            Seq::empty()
        })) + (hints_open(rows as u16) + hint("↑↓"@, " move  "@) + hint("n"@, " new  "@) + hint(
            "d"@,
            " delete  "@,
        ) + hint("Enter"@, " run  "@) + hint("Esc/q"@, " back "@) + reset()),
{
}

} // verus!
