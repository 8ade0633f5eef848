//! Frames: the heat grid as text for the terminal.

use crate::ansi::{push_bg, push_default_bg, push_home, Rgb};
#[allow(unused_imports)]
use crate::ansi::{bg, default_bg, home, lemma_color_sequences, lemma_plain_sequences};
#[allow(unused_imports)]
use crate::text::{group_empty_text, is_numeral};
use vstd::prelude::*;

verus! {

/// What a cell is painted with.
#[derive(Clone, Copy, PartialEq, Eq, Structural)]
pub enum CellColor {
    /// The terminal's own background.
    Default,
    /// A background colour.
    Rgb(u8, u8, u8),
}

/// The colour of a cell: the palette's entry for its heat, or nothing where it is cold.
pub open spec fn cell_color(heat: u8, palette: Seq<Rgb>) -> CellColor {
    if heat == 0 {
        CellColor::Default
    } else {
        let (r, g, b) = palette[heat as int];
        CellColor::Rgb(r, g, b)
    }
}

/// The pieces that a frame is put together from.
pub enum Token {
    /// Go to the top left corner.
    Home,
    /// Paint the following cells in this colour.
    Paint(CellColor),
    /// One cell, in the colour that is set.
    Cell,
    /// Go on with the next row.
    EndRow,
}

/// A piece as the terminal receives it.
pub open spec fn token_text(token: Token) -> Seq<char> {
    match token {
        Token::Home => home(),
        Token::Paint(CellColor::Default) => default_bg(),
        Token::Paint(CellColor::Rgb(r, g, b)) => bg((r, g, b)),
        Token::Cell => seq![' '],
        Token::EndRow => seq!['\n'],
    }
}

/// Pieces one after the other, as the terminal receives them.
pub open spec fn tokens_text(tokens: Seq<Token>) -> Seq<char>
    decreases tokens.len(),
{
    if tokens.len() == 0 {
        Seq::empty()
    } else {
        tokens_text(tokens.drop_last()) + token_text(tokens.last())
    }
}

/// The colour of the cell with index `i`.
pub open spec fn color_at(grid: Seq<u8>, palette: Seq<Rgb>, i: int) -> CellColor {
    cell_color(grid[i], palette)
}

/// A frame up to the first `x` cells of row `y`. A colour is set where it differs
/// from that of the cell before, and at the first cell.
pub open spec fn tokens_until(
    grid: Seq<u8>,
    palette: Seq<Rgb>,
    cols: nat,
    y: nat,
    x: nat,
) -> Seq<Token>
    decreases y, x,
{
    if x > 0 {
        let before = tokens_until(grid, palette, cols, y, (x - 1) as nat);
        let i = y * cols + x - 1;
        let color = color_at(grid, palette, i);
        if i == 0 || color_at(grid, palette, i - 1) != color {
            before.push(Token::Paint(color)).push(Token::Cell)
        } else {
            before.push(Token::Cell)
        }
    } else if y > 0 {
        tokens_until(grid, palette, cols, (y - 1) as nat, cols).push(Token::EndRow)
    } else {
        seq![Token::Home]
    }
}

/// A frame of `rows` rows of `cols` cells.
pub open spec fn frame_tokens(
    grid: Seq<u8>,
    palette: Seq<Rgb>,
    cols: nat,
    rows: nat,
) -> Seq<Token> {
    tokens_until(grid, palette, cols, rows, 0)
}

/// A frame as the terminal receives it.
pub open spec fn frame_text(
    grid: Seq<u8>,
    palette: Seq<Rgb>,
    cols: nat,
    rows: nat,
) -> Seq<char> {
    tokens_text(frame_tokens(grid, palette, cols, rows))
}

/// Whether a frame can be drawn: the grid has all its cells, and the palette a
/// colour for each heat that occurs among them.
pub open spec fn drawable(grid: Seq<u8>, palette: Seq<Rgb>, cols: nat, rows: nat) -> bool {
    &&& cols * rows <= grid.len()
    &&& forall|i: int|
        0 <= i < cols * rows && #[trigger] grid[i] > 0 ==> (grid[i] as int) < palette.len()
}

proof fn lemma_push_token(tokens: Seq<Token>, token: Token)
    ensures
        tokens_text(tokens.push(token)) == tokens_text(tokens) + token_text(token),
{
    assert(tokens.push(token).drop_last() =~= tokens);
}

/// Appends the sequence that paints the following cells in `color`.
fn push_color(buf: &mut String, color: CellColor)
    ensures
        final(buf)@ == old(buf)@ + token_text(Token::Paint(color)),
{
    match color {
        CellColor::Default => push_default_bg(buf),
        CellColor::Rgb(r, g, b) => push_bg(buf, (r, g, b)),
    }
}

/// Replaces the contents of `buf` by the frame that shows the grid.
pub fn render(buf: &mut String, grid: &[u8], cols: usize, rows: usize, palette: &[Rgb])
    requires
        drawable(grid@, palette@, cols as nat, rows as nat),
    ensures
        final(buf)@ == frame_text(grid@, palette@, cols as nat, rows as nat),
{
    broadcast use group_empty_text;

    buf.clear();
    push_home(buf);
    proof {
        lemma_push_token(Seq::empty(), Token::Home);
        assert(Seq::<Token>::empty().push(Token::Home) =~= seq![Token::Home]);
    }
    assert(grid.len() >= cols * rows);

    let mut last: Option<CellColor> = None;
    for y in 0..rows
        invariant
            drawable(grid@, palette@, cols as nat, rows as nat),
            cols * rows <= grid.len(),
            buf@ == tokens_text(tokens_until(grid@, palette@, cols as nat, y as nat, 0)),
            last == (if y * cols == 0 {
                None
            } else {
                Some(color_at(grid@, palette@, y * cols - 1))
            }),
    {
        for x in 0..cols
            invariant
                drawable(grid@, palette@, cols as nat, rows as nat),
                cols * rows <= grid.len(),
                y < rows,
                buf@ == tokens_text(
                    tokens_until(grid@, palette@, cols as nat, y as nat, x as nat),
                ),
                last == (if y * cols + x == 0 {
                    None
                } else {
                    Some(color_at(grid@, palette@, y * cols + x - 1))
                }),
        {
            let ghost before = tokens_until(grid@, palette@, cols as nat, y as nat, x as nat);
            proof {
                crate::heat::lemma_cell_index(cols as int, rows as int, y as int, x as int);
            }
            let heat: u8 = grid[y * cols + x];
            let color = if heat == 0 {
                CellColor::Default
            } else {
                let (r, g, b) = palette[heat as usize];
                CellColor::Rgb(r, g, b)
            };
            assert(color == color_at(grid@, palette@, y * cols + x));
            let repaint: bool = match last {
                Some(set) => set != color,
                None => true,
            };
            if repaint {
                push_color(buf, color);
                last = Some(color);
            }
            buf.push(' ');
            proof {
                let text = tokens_text(before);
                lemma_push_token(before, Token::Paint(color));
                lemma_push_token(before.push(Token::Paint(color)), Token::Cell);
                lemma_push_token(before, Token::Cell);
                assert(text.push(' ') =~= text + seq![' ']);
                let painted = text + token_text(Token::Paint(color));
                assert(painted.push(' ') =~= painted + seq![' ']);
            }
        }
        let ghost text = buf@;
        buf.push('\n');
        proof {
            let row = tokens_until(grid@, palette@, cols as nat, y as nat, cols as nat);
            lemma_push_token(row, Token::EndRow);
            assert(text.push('\n') =~= text + seq!['\n']);
            assert((y + 1) * cols == y * cols + cols) by (nonlinear_arith);
        }
    }
}

/// What a terminal shows after it has received some pieces of a frame.
#[verifier::ext_equal]
pub struct Canvas {
    /// The rows that are complete.
    pub rows: Seq<Seq<Option<CellColor>>>,
    /// The cells of the row that is being drawn.
    pub row: Seq<Option<CellColor>>,
    /// The colour that is set, if one has been.
    pub ink: Option<CellColor>,
}

/// A terminal's reading of a frame: each cell is shown in the colour that was set
/// last.
pub open spec fn shown(tokens: Seq<Token>) -> Canvas
    decreases tokens.len(),
{
    if tokens.len() == 0 {
        Canvas { rows: Seq::empty(), row: Seq::empty(), ink: None }
    } else {
        let before = shown(tokens.drop_last());
        match tokens.last() {
            Token::Home => Canvas { rows: Seq::empty(), row: Seq::empty(), ink: before.ink },
            Token::Paint(color) => Canvas { ink: Some(color), ..before },
            Token::Cell => Canvas { row: before.row.push(before.ink), ..before },
            Token::EndRow => Canvas {
                rows: before.rows.push(before.row),
                row: Seq::empty(),
                ink: before.ink,
            },
        }
    }
}

/// The first `x` cells of row `y` in their own colours.
pub open spec fn row_colors(
    grid: Seq<u8>,
    palette: Seq<Rgb>,
    cols: nat,
    y: int,
    x: nat,
) -> Seq<Option<CellColor>> {
    Seq::new(x, |i: int| Some(color_at(grid, palette, y * cols + i)))
}

proof fn lemma_shown_until(grid: Seq<u8>, palette: Seq<Rgb>, cols: nat, y: nat, x: nat)
    requires
        x <= cols,
    ensures
        ({
            let canvas = shown(tokens_until(grid, palette, cols, y, x));
            &&& canvas.rows == Seq::new(y, |z: int| row_colors(grid, palette, cols, z, cols))
            &&& canvas.row == row_colors(grid, palette, cols, y as int, x)
            &&& y * cols + x > 0 ==> canvas.ink == Some(
                color_at(grid, palette, y * cols + x - 1),
            )
        }),
    decreases y, x,
{
    reveal_with_fuel(shown, 3);
    let tokens = tokens_until(grid, palette, cols, y, x);
    let canvas = shown(tokens);
    if x > 0 {
        lemma_shown_until(grid, palette, cols, y, (x - 1) as nat);
        let before = tokens_until(grid, palette, cols, y, (x - 1) as nat);
        let i = y * cols + x - 1;
        assert(0 <= y * cols) by (nonlinear_arith)
            requires
                0 <= y,
                0 <= cols,
        ;
        let color = color_at(grid, palette, i);
        let painted = before.push(Token::Paint(color));
        assert(painted.drop_last() =~= before);
        assert(painted.push(Token::Cell).drop_last() =~= painted);
        assert(before.push(Token::Cell).drop_last() =~= before);
        assert(canvas.row =~= shown(before).row.push(Some(color)));
        assert(canvas.row =~= row_colors(grid, palette, cols, y as int, x));
    } else if y > 0 {
        lemma_shown_until(grid, palette, cols, (y - 1) as nat, cols);
        let before = tokens_until(grid, palette, cols, (y - 1) as nat, cols);
        assert(before.push(Token::EndRow).drop_last() =~= before);
        assert(canvas.rows =~= Seq::new(y, |z: int| row_colors(grid, palette, cols, z, cols)));
        assert(canvas.row =~= row_colors(grid, palette, cols, y as int, 0));
        assert(y * cols == (y - 1) * cols + cols) by (nonlinear_arith);
    } else {
        assert(y * cols == 0) by (nonlinear_arith)
            requires
                y == 0,
        ;
        assert(canvas.rows =~= Seq::new(y, |z: int| row_colors(grid, palette, cols, z, cols)));
        assert(canvas.row =~= row_colors(grid, palette, cols, y as int, 0));
    }
}

/// A frame shows the whole grid, each cell in its own colour, though a colour is
/// only sent where it changes.
pub proof fn lemma_frame_shows_grid(
    grid: Seq<u8>,
    palette: Seq<Rgb>,
    cols: nat,
    rows: nat,
)
    ensures
        shown(frame_tokens(grid, palette, cols, rows)).rows == Seq::new(
            rows,
            |y: int| row_colors(grid, palette, cols, y, cols),
        ),
        shown(frame_tokens(grid, palette, cols, rows)).row.len() == 0,
{
    lemma_shown_until(grid, palette, cols, rows, 0);
}

/// Each cell is shown in the colour that the palette has for its heat, red, green and blue
/// unchanged, and a cold one in the terminal's own background.
pub proof fn lemma_cells_have_palette_colors(
    grid: Seq<u8>,
    palette: Seq<Rgb>,
    cols: nat,
    rows: nat,
    y: int,
    x: int,
)
    requires
        0 <= y < rows,
        0 <= x < cols,
    ensures
        shown(frame_tokens(grid, palette, cols, rows)).rows.len() == rows,
        shown(frame_tokens(grid, palette, cols, rows)).rows[y].len() == cols,
        grid[y * cols + x] == 0 ==> shown(frame_tokens(grid, palette, cols, rows)).rows[y][x]
            == Some(CellColor::Default),
        grid[y * cols + x] > 0 ==> shown(frame_tokens(grid, palette, cols, rows)).rows[y][x]
            == Some(
            CellColor::Rgb(
                palette[grid[y * cols + x] as int].0,
                palette[grid[y * cols + x] as int].1,
                palette[grid[y * cols + x] as int].2,
            ),
        ),
{
    lemma_frame_shows_grid(grid, palette, cols, rows);
}

/// A terminal reads each piece as what it stands for: the colour of a cell comes as its
/// red, green and blue in decimal, a cell is a space, and a row ends with a line feed.
pub proof fn lemma_token_texts(r: u8, g: u8, b: u8)
    ensures
        token_text(Token::Home) == "\x1b[H"@,
        token_text(Token::Paint(CellColor::Default)) == "\x1b[49m"@,
        token_text(Token::Cell) == " "@,
        token_text(Token::EndRow) == "\n"@,
        exists|red: Seq<char>, green: Seq<char>, blue: Seq<char>|
            {
                &&& #[trigger] is_numeral(red, r as int)
                &&& #[trigger] is_numeral(green, g as int)
                &&& #[trigger] is_numeral(blue, b as int)
                &&& token_text(Token::Paint(CellColor::Rgb(r, g, b))) == "\x1b[48;2;"@ + red
                    + ";"@ + green + ";"@ + blue + "m"@
            },
{
    lemma_plain_sequences();
    lemma_color_sequences((r, g, b));
    reveal_strlit(" ");
    reveal_strlit("\n");
    assert(seq![' '] =~= " "@);
    assert(seq!['\n'] =~= "\n"@);
}

/// The text of a frame is that of its pieces in order: a piece that is added adds its own
/// text and changes none.
pub proof fn lemma_tokens_text(tokens: Seq<Token>, token: Token)
    ensures
        tokens_text(Seq::empty()) == Seq::<char>::empty(),
        tokens_text(tokens.push(token)) == tokens_text(tokens) + token_text(token),
{
    lemma_push_token(tokens, token);
}

/// Whether the piece at `k` is in its place: the first goes to the top left corner and no
/// other does, and a colour is only set where another one was, right before a cell.
pub open spec fn is_in_place(tokens: Seq<Token>, k: int) -> bool {
    &&& tokens[k] is Home <==> k == 0
    &&& tokens[k] matches Token::Paint(color) ==> {
        &&& shown(tokens.take(k)).ink != Some(color)
        &&& k + 1 < tokens.len()
        &&& tokens[k + 1] is Cell
    }
}

proof fn lemma_pieces_until(
    grid: Seq<u8>,
    palette: Seq<Rgb>,
    cols: nat,
    y: nat,
    x: nat,
    k: int,
)
    requires
        x <= cols,
        0 <= k < tokens_until(grid, palette, cols, y, x).len(),
    ensures
        is_in_place(tokens_until(grid, palette, cols, y, x), k),
    decreases y, x,
{
    reveal_with_fuel(shown, 2);
    let tokens = tokens_until(grid, palette, cols, y, x);
    if x == 0 && y == 0 {
    } else {
        let (z, w) = if x > 0 {
            (y, (x - 1) as nat)
        } else {
            ((y - 1) as nat, cols)
        };
        let before = tokens_until(grid, palette, cols, z, w);
        lemma_until_not_empty(grid, palette, cols, z, w);
        lemma_shown_until(grid, palette, cols, z, w);
        if k < before.len() {
            lemma_pieces_until(grid, palette, cols, z, w, k);
            assert(tokens.take(k) =~= before.take(k));
            assert(tokens[k] == before[k]);
            if before[k] is Paint {
                assert(tokens[k + 1] == before[k + 1]);
            }
        } else if x > 0 && tokens[k] is Paint {
            assert(tokens.take(k) =~= before);
            lemma_no_ink_at_start(grid, palette, cols, z, w);
        }
    }
}

proof fn lemma_until_not_empty(grid: Seq<u8>, palette: Seq<Rgb>, cols: nat, y: nat, x: nat)
    ensures
        tokens_until(grid, palette, cols, y, x).len() > 0,
    decreases y, x,
{
    if x > 0 {
        lemma_until_not_empty(grid, palette, cols, y, (x - 1) as nat);
    }
}

proof fn lemma_no_ink_at_start(grid: Seq<u8>, palette: Seq<Rgb>, cols: nat, y: nat, x: nat)
    requires
        x <= cols,
    ensures
        y * cols + x == 0 ==> shown(tokens_until(grid, palette, cols, y, x)).ink is None,
    decreases y, x,
{
    reveal_with_fuel(shown, 2);
    assert(0 <= y * cols) by (nonlinear_arith)
        requires
            0 <= y,
            0 <= cols,
    ;
    if y * cols + x == 0 {
        if y > 0 {
            assert((y - 1) * cols == y * cols - cols) by (nonlinear_arith);
            assert(0 <= (y - 1) * cols) by (nonlinear_arith)
                requires
                    0 <= y - 1,
                    0 <= cols,
            ;
            lemma_no_ink_at_start(grid, palette, cols, (y - 1) as nat, cols);
            let before = tokens_until(grid, palette, cols, (y - 1) as nat, cols);
            assert(before.push(Token::EndRow).drop_last() =~= before);
        } else {
            assert(seq![Token::Home].drop_last() =~= Seq::<Token>::empty());
        }
    }
}

/// A frame goes to the top left corner once, at its beginning, and sends a colour only where
/// it differs from the one that is set.
pub proof fn lemma_frame_is_economical(
    grid: Seq<u8>,
    palette: Seq<Rgb>,
    cols: nat,
    rows: nat,
    k: int,
)
    requires
        0 <= k < frame_tokens(grid, palette, cols, rows).len(),
    ensures
        is_in_place(frame_tokens(grid, palette, cols, rows), k),
{
    lemma_pieces_until(grid, palette, cols, rows, 0, k);
}

} // verus!
