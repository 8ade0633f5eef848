//! How the palette picker looks.

use crate::ansi::{push_bg, push_bold_fg, push_clear_line, push_fg, push_move_to, push_reset};
#[allow(unused_imports)]
use crate::ansi::{bg, bold_fg, clear_line, fg, move_to, reset};
use crate::palette::{custom_swatch, named_swatch, Colors, PaletteEntry, SwatchSource};
#[allow(unused_imports)]
use crate::palette::{custom_source, named_source};
#[allow(unused_imports)]
use crate::prompt::asks;
use crate::prompt::Question;
use crate::screen::{
    draw_dialogue_heading, draw_hex_columns, first_visible, preview_width, push_hint,
    push_hints_open, push_named_preview, push_separator, push_title_bar, visible_rows, ENTRY_FG,
    SELECTED_BG, SELECTED_FG,
};
#[allow(unused_imports)]
use crate::screen::{
    dialogue_heading, hex_columns, hint, hints_open, list_height, list_offset, named_preview,
    preview_columns, separator, separator_row, slot_row, title_bar,
};
use crate::text::{push_decimal, push_padded, truncate_display};
#[allow(unused_imports)]
use crate::text::{
    decimal, fills, group_empty_text, is_cut, is_numeral, lemma_decimal, lemma_padded_fills,
    lemma_truncated_is_cut, padded, truncated, utf8_len,
};
use vstd::prelude::*;

verus! {

/// The width of a swatch in the list: what 50 columns leave of the screen, but at
/// least 10 and at most 30.
pub open spec fn swatch_columns(cols: usize) -> nat {
    if cols <= 60 {
        10
    } else if cols >= 80 {
        30
    } else {
        (cols - 50) as nat
    }
}

/// The width of a swatch in the picker's list.
pub fn swatch_width(cols: usize) -> (width: usize)
    ensures
        width == swatch_columns(cols),
{
    let left: usize = cols.saturating_sub(50);
    if left < 10 {
        10
    } else if left > 30 {
        30
    } else {
        left
    }
}

/// The swatches of the list, each with its width: one for each catalogue entry, whose
/// colours `colors` holds, and behind them the one for a gradient of the user's own.
pub fn picker_swatches(catalog: &[PaletteEntry], colors: &[Colors], cols: usize) -> (requests:
    Vec<(SwatchSource, usize)>)
    requires
        colors@.len() == catalog@.len(),
    ensures
        requests@.len() == catalog@.len() + 1,
        forall|i: int|
            #![trigger requests@[i]]
            0 <= i < catalog@.len() ==> requests@[i].0 == named_source(
                catalog@[i].id@,
                colors@[i],
            ) && requests@[i].1 == swatch_columns(cols),
        requests@.last().0 == custom_source(),
        requests@.last().1 == swatch_columns(cols),
{
    let width: usize = swatch_width(cols);
    let mut requests: Vec<(SwatchSource, usize)> = Vec::new();
    for i in 0..catalog.len()
        invariant
            colors@.len() == catalog@.len(),
            width == swatch_columns(cols),
            requests@.len() == i,
            forall|j: int|
                #![trigger requests@[j]]
                0 <= j < i ==> requests@[j].0 == named_source(catalog@[j].id@, colors@[j])
                    && requests@[j].1 == width,
    {
        requests.push((named_swatch(&catalog[i].id, colors[i].0, colors[i].1), width));
    }
    requests.push((custom_swatch(), width));
    requests
}

/// The swatch of the preview with its width: that of the selected entry, where one is
/// selected and it is in the catalogue.
pub fn picker_preview(
    selected: usize,
    filter: &[usize],
    catalog: &[PaletteEntry],
    colors: &[Colors],
    cols: usize,
) -> (request: Option<(SwatchSource, usize)>)
    requires
        colors@.len() == catalog@.len(),
    ensures
        request is Some <==> selected < filter@.len() && filter@[selected as int]
            < catalog@.len(),
        request matches Some(swatch) ==> {
            let index = filter@[selected as int] as int;
            &&& swatch.0 == named_source(catalog@[index].id@, colors@[index])
            &&& swatch.1 == preview_columns(cols)
        },
{
    if selected < filter.len() && filter[selected] < catalog.len() {
        let index: usize = filter[selected];
        let source = named_swatch(&catalog[index].id, colors[index].0, colors[index].1);
        Some((source, preview_width(cols)))
    } else {
        None
    }
}

/// The number of catalogue entries in a list, in a catalogue of `n` entries.
pub open spec fn catalog_matches(filter: Seq<usize>, n: nat) -> nat
    decreases filter.len(),
{
    if filter.len() == 0 {
        0
    } else {
        catalog_matches(filter.drop_last(), n) + (if (filter.last() as int) < n {
            1nat
        } else {
            0nat
        })
    }
}

/// Counts the catalogue entries in a list, in a catalogue of `n` entries.
fn count_matches(filter: &[usize], n: usize) -> (count: usize)
    ensures
        count == catalog_matches(filter@, n as nat),
{
    let mut count: usize = 0;
    for i in 0..filter.len()
        invariant
            count == catalog_matches(filter@.take(i as int), n as nat),
            count <= i,
    {
        assert(filter@.take(i + 1).drop_last() =~= filter@.take(i as int));
        if filter[i] < n {
            count += 1;
        }
    }
    assert(filter@.take(filter@.len() as int) =~= filter@);
    count
}

/// The search row while nothing is searched for.
pub open spec fn idle_search(count: nat) -> Seq<char> {
    "  "@ + fg((55, 55, 78)) + "/"@ + reset() + " "@ + fg((52, 52, 72)) + "search palettes..."@
        + reset() + "  "@ + fg((52, 52, 72)) + decimal(count) + " palettes"@ + reset()
}

/// The search row during and after a search.
pub open spec fn busy_search(search: Seq<char>, active: bool, count: nat) -> Seq<char> {
    "  "@ + fg(
        if active {
            (255, 220, 80)
        } else {
            (150, 150, 180)
        },
    ) + "/"@ + search + (if active {
        "_"@
    } else {
        ""@
    }) + reset() + "  "@ + fg((95, 95, 115)) + decimal(count) + " match"@ + (if count == 1 {
        ""@
    } else {
        "es"@
    }) + reset()
}

/// The search row.
pub open spec fn search_row(search: Seq<char>, active: bool, count: nat) -> Seq<char> {
    move_to(2) + clear_line() + (if search.len() == 0 && !active {
        idle_search(count)
    } else {
        busy_search(search, active, count)
    })
}

fn draw_idle_search(count: usize) -> (text: String)
    ensures
        text@ == idle_search(count as nat),
{
    broadcast use group_empty_text;

    let mut text = String::new();
    text.append("  ");
    push_fg(&mut text, (55, 55, 78));
    text.append("/");
    push_reset(&mut text);
    text.append(" ");
    push_fg(&mut text, (52, 52, 72));
    text.append("search palettes...");
    push_reset(&mut text);
    text.append("  ");
    push_fg(&mut text, (52, 52, 72));
    push_decimal(&mut text, count);
    text.append(" palettes");
    push_reset(&mut text);
    text
}

fn draw_busy_search(search: &str, active: bool, count: usize) -> (text: String)
    ensures
        text@ == busy_search(search@, active, count as nat),
{
    broadcast use group_empty_text;

    let mut text = String::new();
    text.append("  ");
    push_fg(
        &mut text,
        if active {
            (255, 220, 80)
        } else {
            (150, 150, 180)
        },
    );
    text.append("/");
    text.append(search);
    text.append(
        if active {
            "_"
        } else {
            ""
        },
    );
    push_reset(&mut text);
    text.append("  ");
    push_fg(&mut text, (95, 95, 115));
    push_decimal(&mut text, count);
    text.append(" match");
    text.append(
        if count == 1 {
            ""
        } else {
            "es"
        },
    );
    push_reset(&mut text);
    text
}

fn draw_search_row(search: &str, active: bool, count: usize) -> (text: String)
    ensures
        text@ == search_row(search@, active, count as nat),
{
    broadcast use group_empty_text;

    let mut text = String::new();
    push_move_to(&mut text, 2);
    push_clear_line(&mut text);
    let rest = if search.is_empty() && !active {
        draw_idle_search(count)
    } else {
        draw_busy_search(search, active, count)
    };
    text.append(rest.as_str());
    text
}

/// The description at the end of a list row, where the screen has more than 6 columns
/// left besides the 43 columns and the swatch before it. It is cut to what 4 columns
/// leave of the rest.
pub open spec fn description_column(
    description: Seq<char>,
    selected: bool,
    cols: usize,
) -> Seq<char> {
    let used = 43 + swatch_columns(cols);
    if cols > used + 6 {
        "  "@ + fg(
            if selected {
                (140, 140, 172)
            } else {
                (62, 62, 82)
            },
        ) + truncated(description, (cols - (used + 4)) as nat) + reset()
    } else {
        Seq::empty()
    }
}

/// A list row from its cursor on: name, swatch, colours where it has any, description.
pub open spec fn entry_text(
    selected: bool,
    name: Seq<char>,
    swatch: Seq<char>,
    hex: Seq<char>,
    description: Seq<char>,
    cols: usize,
) -> Seq<char> {
    (if selected {
        bg(SELECTED_BG) + bold_fg(SELECTED_FG)
    } else {
        fg(ENTRY_FG)
    }) + "  "@ + (if selected {
        "▸"@
    } else {
        " "@
    }) + " "@ + padded(name, 18) + "  "@ + swatch + hex + description_column(
        description,
        selected,
        cols,
    ) + reset()
}

/// The list row of the entry with index `index`; an index beyond the catalogue stands
/// for a gradient of the user's own, which has the last swatch.
pub open spec fn entry_row(
    index: usize,
    selected: bool,
    cols: usize,
    catalog: Seq<PaletteEntry>,
    swatches: Seq<String>,
) -> Seq<char> {
    if (index as int) < catalog.len() {
        let entry = catalog[index as int];
        entry_text(
            selected,
            entry.display@,
            swatches[index as int]@,
            hex_columns(entry.from_hex@, entry.to_hex@),
            entry.description@,
            cols,
        )
    } else {
        entry_text(
            selected,
            "Custom"@,
            swatches[catalog.len() as int]@,
            Seq::empty(),
            "enter your own #rrggbb gradient"@,
            cols,
        )
    }
}

fn draw_description(description: &str, selected: bool, cols: usize) -> (text: String)
    ensures
        text@ == description_column(description@, selected, cols),
{
    broadcast use group_empty_text;

    let mut text = String::new();
    let used: usize = 4 + 18 + 2 + swatch_width(cols) + 2 + 17;
    if cols > used + 6 {
        text.append("  ");
        push_fg(
            &mut text,
            if selected {
                (140, 140, 172)
            } else {
                (62, 62, 82)
            },
        );
        text.append(truncate_display(description, cols.saturating_sub(used + 4)));
        push_reset(&mut text);
    }
    text
}

fn draw_entry(
    selected: bool,
    name: &str,
    swatch: &str,
    hex: &str,
    description: &str,
    cols: usize,
) -> (text: String)
    ensures
        text@ == entry_text(selected, name@, swatch@, hex@, description@, cols),
{
    broadcast use group_empty_text;

    let mut text = String::new();
    if selected {
        push_bg(&mut text, SELECTED_BG);
        push_bold_fg(&mut text, SELECTED_FG);
    } else {
        push_fg(&mut text, ENTRY_FG);
    }
    text.append("  ");
    text.append(
        if selected {
            "▸"
        } else {
            " "
        },
    );
    text.append(" ");
    push_padded(&mut text, name, 18);
    text.append("  ");
    text.append(swatch);
    text.append(hex);
    let rest = draw_description(description, selected, cols);
    text.append(rest.as_str());
    push_reset(&mut text);
    text
}

fn draw_entry_row(
    index: usize,
    selected: bool,
    cols: usize,
    catalog: &[PaletteEntry],
    swatches: &[String],
) -> (text: String)
    requires
        swatches@.len() == catalog@.len() + 1,
    ensures
        text@ == entry_row(index, selected, cols, catalog@, swatches@),
{
    if index < catalog.len() {
        let entry = &catalog[index];
        let hex = draw_hex_columns(entry.from_hex.as_str(), entry.to_hex.as_str());
        draw_entry(
            selected,
            entry.display.as_str(),
            swatches[index].as_str(),
            hex.as_str(),
            entry.description.as_str(),
            cols,
        )
    } else {
        proof {
            reveal_strlit("");
            assert(""@ =~= Seq::empty());
        }
        draw_entry(
            selected,
            "Custom",
            swatches[catalog.len()].as_str(),
            "",
            "enter your own #rrggbb gradient",
            cols,
        )
    }
}

/// One row of the list: the entry that is scrolled there, if the list goes that far.
pub open spec fn slot_text(
    slot: int,
    selected: usize,
    filter: Seq<usize>,
    cols: usize,
    rows: usize,
    catalog: Seq<PaletteEntry>,
    swatches: Seq<String>,
) -> Seq<char> {
    let place = slot + list_offset(selected, rows);
    move_to(slot_row(slot)) + clear_line() + (if place < filter.len() {
        entry_row(filter[place], place == selected, cols, catalog, swatches)
    } else {
        Seq::empty()
    })
}

/// The first `n` rows of the list.
pub open spec fn list_text(
    n: nat,
    selected: usize,
    filter: Seq<usize>,
    cols: usize,
    rows: usize,
    catalog: Seq<PaletteEntry>,
    swatches: Seq<String>,
) -> Seq<char>
    decreases n,
{
    if n == 0 {
        Seq::empty()
    } else {
        list_text((n - 1) as nat, selected, filter, cols, rows, catalog, swatches) + slot_text(
            n - 1,
            selected,
            filter,
            cols,
            rows,
            catalog,
            swatches,
        )
    }
}

/// The preview of a gradient of the user's own.
pub open spec fn custom_preview() -> Seq<char> {
    "  "@ + fg((92, 92, 115)) + "▸ Custom gradient — press Enter to configure"@ + reset()
}

/// The preview row, third from below: the selected entry, if any is. `preview` is its
/// swatch where it is in the catalogue.
pub open spec fn preview_row(
    selected: usize,
    filter: Seq<usize>,
    rows: usize,
    catalog: Seq<PaletteEntry>,
    preview: Seq<char>,
) -> Seq<char> {
    move_to((rows - 2) as u16) + clear_line() + (if selected < filter.len() {
        let index = filter[selected as int] as int;
        if index < catalog.len() {
            named_preview(catalog[index].display@, preview)
        } else {
            custom_preview()
        }
    } else {
        Seq::empty()
    })
}

/// The key hints of the picker.
pub open spec fn picker_hints(rows: usize) -> Seq<char> {
    hints_open(rows as u16) + hint("↑↓"@, " move  "@) + hint("PgUp/Dn"@, " page  "@) + hint(
        "/"@,
        " search  "@,
    ) + hint("r"@, " random  "@) + hint("Enter"@, " select  "@) + hint("Esc"@, "·"@) + hint(
        "q"@,
        " quit "@,
    ) + reset()
}

/// The picker's screen.
pub open spec fn picker_text(
    selected: usize,
    filter: Seq<usize>,
    search: Seq<char>,
    search_active: bool,
    cols: usize,
    rows: usize,
    catalog: Seq<PaletteEntry>,
    swatches: Seq<String>,
    preview: Seq<char>,
) -> Seq<char> {
    title_bar(" pyroclear  ◆  color picker "@, cols) + search_row(
        search,
        search_active,
        catalog_matches(filter, catalog.len()),
    ) + list_text(list_height(rows), selected, filter, cols, rows, catalog, swatches) + separator(
        separator_row(rows),
        cols,
    ) + preview_row(selected, filter, rows, catalog, preview) + picker_hints(rows)
}

fn draw_slot(
    slot: usize,
    selected: usize,
    filter: &[usize],
    cols: usize,
    rows: usize,
    catalog: &[PaletteEntry],
    swatches: &[String],
) -> (text: String)
    requires
        slot < list_height(rows),
        swatches@.len() == catalog@.len() + 1,
    ensures
        text@ == slot_text(slot as int, selected, filter@, cols, rows, catalog@, swatches@),
{
    broadcast use group_empty_text;

    let place: usize = slot + first_visible(selected, rows);
    let mut text = String::new();
    push_move_to(&mut text, (2 + slot + 1) as u16);
    push_clear_line(&mut text);
    if place < filter.len() {
        let rest = draw_entry_row(filter[place], place == selected, cols, catalog, swatches);
        text.append(rest.as_str());
    }
    text
}

fn draw_list(
    selected: usize,
    filter: &[usize],
    cols: usize,
    rows: usize,
    catalog: &[PaletteEntry],
    swatches: &[String],
) -> (text: String)
    requires
        swatches@.len() == catalog@.len() + 1,
    ensures
        text@ == list_text(
            list_height(rows),
            selected,
            filter@,
            cols,
            rows,
            catalog@,
            swatches@,
        ),
{
    let mut text = String::new();
    let visible = visible_rows(rows);
    for slot in 0..visible
        invariant
            visible == list_height(rows),
            swatches@.len() == catalog@.len() + 1,
            text@ == list_text(
                slot as nat,
                selected,
                filter@,
                cols,
                rows,
                catalog@,
                swatches@,
            ),
    {
        let row = draw_slot(slot, selected, filter, cols, rows, catalog, swatches);
        text.append(row.as_str());
    }
    text
}

fn push_custom_preview(text: &mut String)
    ensures
        final(text)@ == old(text)@ + custom_preview(),
{
    broadcast use group_empty_text;

    let mut piece = String::new();
    piece.append("  ");
    push_fg(&mut piece, (92, 92, 115));
    piece.append("▸ Custom gradient — press Enter to configure");
    push_reset(&mut piece);
    text.append(piece.as_str());
}

fn draw_preview_row(
    selected: usize,
    filter: &[usize],
    rows: usize,
    catalog: &[PaletteEntry],
    preview: &str,
) -> (text: String)
    requires
        rows >= 2,
    ensures
        text@ == preview_row(selected, filter@, rows, catalog@, preview@),
{
    broadcast use group_empty_text;

    let mut text = String::new();
    push_move_to(&mut text, (rows - 2) as u16);
    push_clear_line(&mut text);
    if selected < filter.len() {
        let index: usize = filter[selected];
        if index < catalog.len() {
            push_named_preview(&mut text, catalog[index].display.as_str(), preview);
        } else {
            push_custom_preview(&mut text);
        }
    }
    text
}

fn draw_picker_hints(rows: usize) -> (text: String)
    ensures
        text@ == picker_hints(rows),
{
    broadcast use group_empty_text;

    let mut text = String::new();
    push_hints_open(&mut text, rows as u16);
    push_hint(&mut text, "↑↓", " move  ");
    push_hint(&mut text, "PgUp/Dn", " page  ");
    push_hint(&mut text, "/", " search  ");
    push_hint(&mut text, "r", " random  ");
    push_hint(&mut text, "Enter", " select  ");
    push_hint(&mut text, "Esc", "·");
    push_hint(&mut text, "q", " quit ");
    push_reset(&mut text);
    text
}

/// The title of the picker takes 30 bytes.
pub proof fn lemma_picker_title_len()
    ensures
        utf8_len(" pyroclear  ◆  color picker "@) == 30,
{
    reveal_strlit(" pyroclear  ◆  color picker ");
    crate::screen::lemma_title_len(" pyroclear  ◆  color picker "@, 12);
}

/// Draws the picker. `swatches` holds the swatches that [`picker_swatches`] asks for, and
/// `preview` is the one that [`picker_preview`] asks for.
pub fn draw_picker(
    selected: usize,
    filter: &[usize],
    search: &str,
    search_active: bool,
    cols: usize,
    rows: usize,
    catalog: &[PaletteEntry],
    swatches: &[String],
    preview: &str,
) -> (text: String)
    requires
        rows >= 2,
        swatches@.len() == catalog@.len() + 1,
    ensures
        text@ == picker_text(
            selected,
            filter@,
            search@,
            search_active,
            cols,
            rows,
            catalog@,
            swatches@,
            preview@,
        ),
{
    broadcast use group_empty_text;

    proof {
        lemma_picker_title_len();
    }
    let mut text = String::new();
    push_title_bar(&mut text, " pyroclear  ◆  color picker ", cols);
    let top = draw_search_row(search, search_active, count_matches(filter, catalog.len()));
    text.append(top.as_str());
    let list = draw_list(selected, filter, cols, rows, catalog, swatches);
    text.append(list.as_str());
    push_separator(&mut text, (rows.saturating_sub(4) + 1) as u16, cols);
    let row = draw_preview_row(selected, filter, rows, catalog, preview);
    text.append(row.as_str());
    let hints = draw_picker_hints(rows);
    text.append(hints.as_str());
    text
}

/// Draws the heading of the dialogue that asks for the two colours of a gradient.
pub fn draw_custom_dialogue(row: u16) -> (text: String)
    ensures
        text@ == dialogue_heading(row, "  Enter hex colors (e.g. #ff0000)"@),
{
    draw_dialogue_heading(row, "  Enter hex colors (e.g. #ff0000)")
}

/// The question that follows after `answered` answers in the dialogue on row `row`;
/// none is left after the second.
pub fn gradient_question(answered: usize, row: u16) -> (question: Option<Question>)
    requires
        row <= u16::MAX - 3,
    ensures
        question is Some <==> answered < 2,
        answered == 0 ==> asks(question->0, "  From:"@, row + 2, true),
        answered == 1 ==> asks(question->0, "  To:  "@, row + 3, true),
{
    match answered {
        0 => Some(Question { label: "  From:", row: row + 2, hex: true }),
        1 => Some(Question { label: "  To:  ", row: row + 3, hex: true }),
        _ => None,
    }
}

/// A swatch of the list is as wide as fifty columns leave room for, but has at least ten
/// columns and at most thirty.
pub proof fn lemma_swatch_width(cols: usize)
    ensures
        10 <= swatch_columns(cols) <= 30,
        60 <= cols <= 80 ==> swatch_columns(cols) + 50 == cols,
        cols < 60 ==> swatch_columns(cols) == 10,
        cols > 80 ==> swatch_columns(cols) == 30,
{
}

/// The number of matches counts each catalogue entry of the list and nothing else: an index
/// that is added counts where it is below the catalogue's length.
pub proof fn lemma_match_count(filter: Seq<usize>, index: usize, n: nat)
    ensures
        catalog_matches(Seq::empty(), n) == 0,
        index < n ==> catalog_matches(filter.push(index), n) == catalog_matches(filter, n) + 1,
        index >= n ==> catalog_matches(filter.push(index), n) == catalog_matches(filter, n),
{
    assert(filter.push(index).drop_last() =~= filter);
}

/// The search row shows the whole search and the number of matches in decimal; `match` is in
/// the singular for one of them only. Without a search it says how many palettes there are.
pub proof fn lemma_search_row(search: Seq<char>, active: bool, count: nat)
    ensures
        exists|number: Seq<char>|
            {
                &&& #[trigger] is_numeral(number, count as int)
                &&& !active && search.len() == 0 ==> search_row(search, active, count) == move_to(2)
                    + clear_line() + ("  "@ + fg((55, 55, 78)) + "/"@ + reset() + " "@ + fg(
                    (52, 52, 72),
                ) + "search palettes..."@ + reset() + "  "@ + fg((52, 52, 72)) + number
                    + " palettes"@ + reset())
                &&& active ==> search_row(search, active, count) == move_to(2) + clear_line() + (
                "  "@ + fg((255, 220, 80)) + "/"@ + search + "_"@ + reset() + "  "@ + fg(
                    (95, 95, 115),
                ) + number + " match"@ + (if count == 1 {
                    ""@
                } else {
                    "es"@
                }) + reset())
                &&& !active && search.len() > 0 ==> search_row(search, active, count) == move_to(2)
                    + clear_line() + ("  "@ + fg((150, 150, 180)) + "/"@ + search + ""@ + reset()
                    + "  "@ + fg((95, 95, 115)) + number + " match"@ + (if count == 1 {
                    ""@
                } else {
                    "es"@
                }) + reset())
            },
{
    lemma_decimal(count);
}

/// Whether `tail` shows a description at the end of a list row: from sixty columns on its
/// first three characters, and one more with each column beyond eighty.
pub open spec fn is_description(
    tail: Seq<char>,
    description: Seq<char>,
    selected: bool,
    cols: usize,
) -> bool {
    let color = if selected {
        (140u8, 140u8, 172u8)
    } else {
        (62u8, 62u8, 82u8)
    };
    &&& cols < 60 ==> tail.len() == 0
    &&& 60 <= cols <= 80 ==> exists|cut: Seq<char>| #[trigger]
        is_cut(cut, description, 3) && tail == "  "@ + fg(color) + cut + reset()
    &&& cols > 80 ==> exists|cut: Seq<char>| #[trigger]
        is_cut(cut, description, cols - 77) && tail == "  "@ + fg(color) + cut + reset()
}

/// Whether `content` shows a list entry: a mark where it is selected, the name in a column
/// of eighteen characters, the swatch, the colours and the description.
pub open spec fn is_entry(
    content: Seq<char>,
    selected: bool,
    name: Seq<char>,
    swatch: Seq<char>,
    hex: Seq<char>,
    description: Seq<char>,
    cols: usize,
) -> bool {
    exists|cell: Seq<char>, tail: Seq<char>|
        {
            &&& #[trigger] fills(cell, name, 18)
            &&& #[trigger] is_description(tail, description, selected, cols)
            &&& selected ==> content == bg((20, 26, 46)) + bold_fg((255, 230, 100)) + "  "@ + "▸"@
                + " "@ + cell + "  "@ + swatch + hex + tail + reset()
            &&& !selected ==> content == fg((178, 178, 205)) + "  "@ + " "@ + " "@ + cell + "  "@
                + swatch + hex + tail + reset()
        }
}

proof fn lemma_entry_text(
    selected: bool,
    name: Seq<char>,
    swatch: Seq<char>,
    hex: Seq<char>,
    description: Seq<char>,
    cols: usize,
)
    ensures
        is_entry(
            entry_text(selected, name, swatch, hex, description, cols),
            selected,
            name,
            swatch,
            hex,
            description,
            cols,
        ),
{
    let tail = description_column(description, selected, cols);
    let cell = padded(name, 18);
    lemma_padded_fills(name, 18);
    let room = if cols > 80 {
        cols - 77
    } else {
        3
    };
    lemma_truncated_is_cut(description, room as nat);
    let cut = truncated(description, room as nat);
    assert(is_cut(cut, description, room));
    if cols >= 60 {
        let color = if selected {
            (140u8, 140u8, 172u8)
        } else {
            (62u8, 62u8, 82u8)
        };
        assert(tail == "  "@ + fg(color) + cut + reset());
    }
    assert(is_description(tail, description, selected, cols));
    assert(fills(cell, name, 18));
}

/// Whether `line` is the row of the list `slot` rows below its first: the cursor goes there,
/// the row is erased, and the entry is shown that stands so far behind the first one shown.
/// An entry of the catalogue is shown with its own texts and its own swatch; what is beyond
/// the catalogue stands for a gradient of the user's own, which has the last swatch.
pub open spec fn is_list_line(
    line: Seq<char>,
    slot: int,
    selected: usize,
    filter: Seq<usize>,
    cols: usize,
    rows: usize,
    catalog: Seq<PaletteEntry>,
    swatches: Seq<String>,
) -> bool {
    let place = if selected + 6 < rows {
        slot
    } else {
        slot + selected + 7 - rows
    };
    exists|content: Seq<char>|
        {
            &&& line == #[trigger] (move_to((3 + slot) as u16) + clear_line() + content)
            &&& place >= filter.len() ==> content.len() == 0
            &&& place < filter.len() && filter[place] < catalog.len() ==> is_entry(
                content,
                place == selected,
                catalog[filter[place] as int].display@,
                swatches[filter[place] as int]@,
                hex_columns(
                    catalog[filter[place] as int].from_hex@,
                    catalog[filter[place] as int].to_hex@,
                ),
                catalog[filter[place] as int].description@,
                cols,
            )
            &&& place < filter.len() && filter[place] >= catalog.len() ==> is_entry(
                content,
                place == selected,
                "Custom"@,
                swatches.last()@,
                Seq::empty(),
                "enter your own #rrggbb gradient"@,
                cols,
            )
        }
}

proof fn lemma_slot_text(
    slot: int,
    selected: usize,
    filter: Seq<usize>,
    cols: usize,
    rows: usize,
    catalog: Seq<PaletteEntry>,
    swatches: Seq<String>,
)
    requires
        0 <= slot < list_height(rows),
        swatches.len() == catalog.len() + 1,
    ensures
        is_list_line(
            slot_text(slot, selected, filter, cols, rows, catalog, swatches),
            slot,
            selected,
            filter,
            cols,
            rows,
            catalog,
            swatches,
        ),
{
    let place = slot + list_offset(selected, rows);
    let content = if place < filter.len() {
        entry_row(filter[place], place == selected, cols, catalog, swatches)
    } else {
        Seq::empty()
    };
    if place < filter.len() {
        let index = filter[place] as int;
        if index < catalog.len() {
            let entry = catalog[index];
            lemma_entry_text(
                place == selected,
                entry.display@,
                swatches[index]@,
                hex_columns(entry.from_hex@, entry.to_hex@),
                entry.description@,
                cols,
            );
        } else {
            lemma_entry_text(
                place == selected,
                "Custom"@,
                swatches[catalog.len() as int]@,
                Seq::empty(),
                "enter your own #rrggbb gradient"@,
                cols,
            );
        }
    }
    assert(slot_text(slot, selected, filter, cols, rows, catalog, swatches) == move_to(
        (3 + slot) as u16,
    ) + clear_line() + content);
}

proof fn lemma_list_text(
    n: nat,
    selected: usize,
    filter: Seq<usize>,
    cols: usize,
    rows: usize,
    catalog: Seq<PaletteEntry>,
    swatches: Seq<String>,
) -> (lines: Seq<Seq<char>>)
    requires
        n <= list_height(rows),
        swatches.len() == catalog.len() + 1,
    ensures
        lines.len() == n,
        lines.flatten_alt() == list_text(n, selected, filter, cols, rows, catalog, swatches),
        forall|slot: int|
            0 <= slot < n ==> is_list_line(
                #[trigger] lines[slot],
                slot,
                selected,
                filter,
                cols,
                rows,
                catalog,
                swatches,
            ),
    decreases n,
{
    if n == 0 {
        Seq::empty()
    } else {
        let before = lemma_list_text(
            (n - 1) as nat,
            selected,
            filter,
            cols,
            rows,
            catalog,
            swatches,
        );
        let line = slot_text(n - 1, selected, filter, cols, rows, catalog, swatches);
        lemma_slot_text(n - 1, selected, filter, cols, rows, catalog, swatches);
        let lines = before.push(line);
        assert(lines.drop_last() =~= before);
        lines
    }
}

/// The picker's list has a line for each of its rows, in order, each with the entry that
/// belongs there.
pub proof fn lemma_list_shows_its_entries(
    selected: usize,
    filter: Seq<usize>,
    cols: usize,
    rows: usize,
    catalog: Seq<PaletteEntry>,
    swatches: Seq<String>,
)
    requires
        swatches.len() == catalog.len() + 1,
    ensures
        exists|lines: Seq<Seq<char>>|
            {
                &&& rows > 6 ==> lines.len() == rows - 6
                &&& rows <= 6 ==> lines.len() == 0
                &&& #[trigger] lines.flatten_alt() == list_text(
                    list_height(rows),
                    selected,
                    filter,
                    cols,
                    rows,
                    catalog,
                    swatches,
                )
                &&& forall|slot: int|
                    0 <= slot < lines.len() ==> is_list_line(
                        #[trigger] lines[slot],
                        slot,
                        selected,
                        filter,
                        cols,
                        rows,
                        catalog,
                        swatches,
                    )
            },
{
    let lines = lemma_list_text(
        list_height(rows),
        selected,
        filter,
        cols,
        rows,
        catalog,
        swatches,
    );
}

/// The preview row shows the selected entry with its name and the swatch that was painted for
/// it, and says what the enter key does where a gradient of the user's own is selected.
pub proof fn lemma_preview_row(
    selected: usize,
    filter: Seq<usize>,
    rows: usize,
    catalog: Seq<PaletteEntry>,
    preview: Seq<char>,
)
    requires
        rows >= 2,
    ensures
        selected >= filter.len() ==> preview_row(selected, filter, rows, catalog, preview)
            == move_to((rows - 2) as u16) + clear_line(),
        selected < filter.len() && filter[selected as int] < catalog.len() ==> preview_row(
            selected,
            filter,
            rows,
            catalog,
            preview,
        ) == move_to((rows - 2) as u16) + clear_line() + named_preview(
            catalog[filter[selected as int] as int].display@,
            preview,
        ),
        selected < filter.len() && filter[selected as int] >= catalog.len() ==> preview_row(
            selected,
            filter,
            rows,
            catalog,
            preview,
        ) == move_to((rows - 2) as u16) + clear_line() + ("  "@ + fg((92, 92, 115))
            + "▸ Custom gradient — press Enter to configure"@ + reset()),
{
    broadcast use group_empty_text;

}

/// The picker's screen from top to bottom: the title, the search, the list, a separator on
/// the fourth row from below or else the first, the preview, and the key hints on the last row.
pub proof fn lemma_picker_screen(
    selected: usize,
    filter: Seq<usize>,
    search: Seq<char>,
    search_active: bool,
    cols: usize,
    rows: usize,
    catalog: Seq<PaletteEntry>,
    swatches: Seq<String>,
    preview: Seq<char>,
)
    requires
        rows >= 2,
    ensures
        picker_text(
            selected,
            filter,
            search,
            search_active,
            cols,
            rows,
            catalog,
            swatches,
            preview,
        ) == title_bar(" pyroclear  ◆  color picker "@, cols) + search_row(
            search,
            search_active,
            catalog_matches(filter, catalog.len()),
        ) + list_text(list_height(rows), selected, filter, cols, rows, catalog, swatches)
            + separator(
            if rows >= 4 {
                (rows - 3) as u16
            } else {
                1
            },
            cols,
        ) + preview_row(
            selected,
            filter,
            rows,
            catalog,
            preview,
        ) + (hints_open(rows as u16) + hint("↑↓"@, " move  "@) + hint("PgUp/Dn"@, " page  "@)
            + hint("/"@, " search  "@) + hint("r"@, " random  "@) + hint("Enter"@, " select  "@)
            + hint("Esc"@, "·"@) + hint("q"@, " quit "@) + reset()),
{
}

} // verus!
