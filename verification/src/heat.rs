//! The heat simulation: a grid of heat values that spreads, drifts and cools.

use crate::rng::Rng;
#[allow(unused_imports)]
use crate::rng::{drawn, lemma_drawn_between, xorshift};
use crate::settings::AnimSettings;
use vstd::prelude::*;

verus! {

/// The heat of a cell that feeds the fire.
pub const MAX_HEAT: u8 = 36;

/// How often the heat spreads between two frames.
pub const STEPS_PER_FRAME: u32 = 2;

/// The row that feeds the fire: the top one where the fire falls, else the bottom one.
pub open spec fn source_row(rows: int, top_down: bool) -> int {
    if top_down {
        0
    } else {
        rows - 1
    }
}

/// Whether the cell with index `i` lies in row `y`.
pub open spec fn in_row(i: int, cols: int, y: int) -> bool {
    y * cols <= i < y * cols + cols
}

/// `grid` with every cell of the source row at full heat.
pub open spec fn refreshed(grid: Seq<u8>, cols: int, rows: int, top_down: bool) -> Seq<u8> {
    Seq::new(
        grid.len(),
        |i: int|
            if in_row(i, cols, source_row(rows, top_down)) {
                MAX_HEAT
            } else {
                grid[i]
            },
    )
}

/// A cold grid of the given size whose source row is at full heat.
pub open spec fn fresh_grid(cols: int, rows: int, top_down: bool) -> Seq<u8> {
    Seq::new(
        (cols * rows) as nat,
        |i: int|
            if in_row(i, cols, source_row(rows, top_down)) {
                MAX_HEAT
            } else {
                0
            },
    )
}

/// Heat that is lost when a cell radiates: the bounds of the draw.
pub open spec fn decay_bounds(height: u32) -> (i32, i32) {
    if height == 0 {
        (1, 4)
    } else if height == 2 {
        (0, 2)
    } else if height == 3 {
        (0, 1)
    } else {
        (0, 3)
    }
}

/// Columns that heat drifts sideways when a cell radiates: the bounds of the draw.
pub open spec fn drift_bounds(wind: i32) -> (i32, i32) {
    if wind == -2 {
        ((-2) as i32, 0)
    } else if wind == -1 {
        ((-1) as i32, 0)
    } else if wind == 1 {
        (0, 1)
    } else if wind == 2 {
        (0, 2)
    } else {
        ((-1) as i32, 1)
    }
}

/// Heat that a source cell loses in a cooling step: the bounds of the draw.
pub open spec fn cooling_bounds() -> (i32, i32) {
    (2, 6)
}

/// `heat` lowered by `loss`, but not below zero.
pub open spec fn lowered(heat: u8, loss: int) -> u8 {
    if heat - loss > 0 {
        (heat - loss) as u8
    } else {
        0
    }
}

/// `column` moved into the grid's columns.
pub open spec fn clamped(column: int, cols: int) -> int {
    if column < 0 {
        0
    } else if column > cols - 1 {
        cols - 1
    } else {
        column
    }
}

/// A grid together with the state of the generator that disturbs it.
#[verifier::ext_equal]
pub struct Flames {
    pub grid: Seq<u8>,
    pub state: u64,
}

/// The rows between which the `i`-th transfer of a column moves heat. Transfers
/// are made from the top of the screen to its bottom, whichever way the fire burns.
pub open spec fn transfer_rows(top_down: bool, i: int) -> (int, int) {
    if top_down {
        (i, i + 1)
    } else {
        (i + 1, i)
    }
}

/// The `i`-th transfer of column `x`: the cell's heat, less a random loss, replaces
/// that of the cell one row further from the source, some random columns aside.
pub open spec fn radiated(
    flames: Flames,
    cols: int,
    settings: AnimSettings,
    x: int,
    i: int,
) -> Flames {
    let (from, to) = transfer_rows(settings.direction, i);
    let (decay_lo, decay_hi) = decay_bounds(settings.height);
    let (drift_lo, drift_hi) = drift_bounds(settings.wind);
    let decay = drawn(flames.state, decay_lo, decay_hi);
    let drift = drawn(xorshift(flames.state), drift_lo, drift_hi);
    Flames {
        grid: flames.grid.update(
            to * cols + clamped(x + drift, cols),
            lowered(flames.grid[from * cols + x], decay),
        ),
        state: xorshift(xorshift(flames.state)),
    }
}

/// The first `n` transfers of column `x`.
pub open spec fn column_radiated(
    flames: Flames,
    cols: int,
    settings: AnimSettings,
    x: int,
    n: nat,
) -> Flames
    decreases n,
{
    if n == 0 {
        flames
    } else {
        radiated(
            column_radiated(flames, cols, settings, x, (n - 1) as nat),
            cols,
            settings,
            x,
            n - 1,
        )
    }
}

/// All transfers of the first `n` columns.
pub open spec fn spread(
    flames: Flames,
    cols: int,
    rows: int,
    settings: AnimSettings,
    n: nat,
) -> Flames
    decreases n,
{
    if n == 0 {
        flames
    } else {
        column_radiated(
            spread(flames, cols, rows, settings, (n - 1) as nat),
            cols,
            settings,
            n - 1,
            (rows - 1) as nat,
        )
    }
}

/// The first `n` cells of the source row, each lowered by a random loss.
pub open spec fn source_cooled(
    flames: Flames,
    cols: int,
    rows: int,
    top_down: bool,
    n: nat,
) -> Flames
    decreases n,
{
    if n == 0 {
        flames
    } else {
        let before = source_cooled(flames, cols, rows, top_down, (n - 1) as nat);
        let i = source_row(rows, top_down) * cols + n - 1;
        let (lo, hi) = cooling_bounds();
        Flames {
            grid: before.grid.update(i, lowered(before.grid[i], drawn(before.state, lo, hi))),
            state: xorshift(before.state),
        }
    }
}

/// One step: heat spreads through all columns, then the source row cools if the
/// fire is `cooling`.
pub open spec fn stepped(
    flames: Flames,
    cols: int,
    rows: int,
    settings: AnimSettings,
    cooling: bool,
) -> Flames {
    let after = spread(flames, cols, rows, settings, cols as nat);
    if cooling {
        source_cooled(after, cols, rows, settings.direction, cols as nat)
    } else {
        after
    }
}

/// `n` steps.
pub open spec fn steps(
    flames: Flames,
    cols: int,
    rows: int,
    settings: AnimSettings,
    cooling: bool,
    n: nat,
) -> Flames
    decreases n,
{
    if n == 0 {
        flames
    } else {
        stepped(
            steps(flames, cols, rows, settings, cooling, (n - 1) as nat),
            cols,
            rows,
            settings,
            cooling,
        )
    }
}

/// A cell's index lies within the grid, and within its own row only.
pub proof fn lemma_cell_index(cols: int, rows: int, y: int, x: int)
    requires
        0 <= x < cols,
        0 <= y < rows,
    ensures
        0 <= y * cols,
        y * cols + cols <= rows * cols,
        rows * cols == cols * rows,
        in_row(y * cols + x, cols, y),
        0 <= y * cols + x < rows * cols,
{
    assert(0 <= y * cols && y * cols + cols <= rows * cols && rows * cols == cols * rows)
        by (nonlinear_arith)
        requires
            0 < cols,
            0 <= y < rows,
    ;
}

/// Puts every cell of the source row at full heat.
pub fn heat_source(grid: &mut Vec<u8>, cols: usize, rows: usize, top_down: bool)
    requires
        old(grid)@.len() == cols * rows,
        rows > 0 || (top_down && cols == 0),
    ensures
        final(grid)@ == refreshed(old(grid)@, cols as int, rows as int, top_down),
{
    let ghost before = grid@;
    assert(grid.len() == cols * rows);
    let source_row: usize = if top_down {
        0
    } else {
        rows - 1
    };
    for x in 0..cols
        invariant
            grid@.len() == before.len(),
            before.len() == cols * rows,
            cols * rows <= usize::MAX,
            rows > 0 || (top_down && cols == 0),
            source_row == self::source_row(rows as int, top_down),
            forall|i: int|
                0 <= i < before.len() ==> #[trigger] grid@[i] == (if source_row * cols <= i
                    < source_row * cols + x {
                    MAX_HEAT
                } else {
                    before[i]
                }),
    {
        proof {
            lemma_cell_index(cols as int, rows as int, source_row as int, x as int);
        }
        grid[source_row * cols + x] = MAX_HEAT;
    }
    assert(grid@ =~= refreshed(before, cols as int, rows as int, top_down));
}

/// A cold grid of `rows` rows of `cols` cells, with the source row at full heat.
pub fn resize_grid(cols: usize, rows: usize, top_down: bool) -> (grid: Vec<u8>)
    requires
        cols * rows <= isize::MAX,
        rows > 0 || (top_down && cols == 0),
    ensures
        grid@ == fresh_grid(cols as int, rows as int, top_down),
{
    let mut grid: Vec<u8> = vec![0u8; cols * rows];
    heat_source(&mut grid, cols, rows, top_down);
    assert(grid@ =~= fresh_grid(cols as int, rows as int, top_down));
    grid
}

/// The loss that a radiating cell draws for the flame height `height`.
fn draw_decay(rng: &mut Rng, height: u32) -> (decay: i32)
    ensures
        final(rng)@ == xorshift(old(rng)@),
        decay == drawn(old(rng)@, decay_bounds(height).0, decay_bounds(height).1),
        0 <= decay <= 4,
{
    match height {
        0 => rng.range(1, 4),
        1 => rng.range(0, 3),
        2 => rng.range(0, 2),
        3 => rng.range(0, 1),
        _ => rng.range(0, 3),
    }
}

/// The drift that a radiating cell draws for the wind `wind`.
fn draw_drift(rng: &mut Rng, wind: i32) -> (drift: i32)
    ensures
        final(rng)@ == xorshift(old(rng)@),
        drift == drawn(old(rng)@, drift_bounds(wind).0, drift_bounds(wind).1),
        -2 <= drift <= 2,
{
    match wind {
        -2 => rng.range(-2, 0),
        -1 => rng.range(-1, 0),
        0 => rng.range(-1, 1),
        1 => rng.range(0, 1),
        2 => rng.range(0, 2),
        _ => rng.range(-1, 1),
    }
}

/// The `i`-th transfer of column `x`, see [`radiated`].
fn radiate(
    grid: &mut Vec<u8>,
    rng: &mut Rng,
    cols: usize,
    rows: usize,
    settings: &AnimSettings,
    x: usize,
    i: usize,
)
    requires
        old(grid)@.len() == cols * rows,
        cols < i32::MAX,
        x < cols,
        i + 1 < rows,
    ensures
        final(grid)@.len() == old(grid)@.len(),
        (Flames { grid: final(grid)@, state: final(rng)@ }) == radiated(
            Flames { grid: old(grid)@, state: old(rng)@ },
            cols as int,
            *settings,
            x as int,
            i as int,
        ),
{
    let (from, to): (usize, usize) = if settings.direction {
        (i, i + 1)
    } else {
        (i + 1, i)
    };
    assert(grid.len() == cols * rows);
    proof {
        lemma_cell_index(cols as int, rows as int, from as int, x as int);
    }
    let heat: u8 = grid[from * cols + x];
    let decay = draw_decay(rng, settings.height);
    let drift = draw_drift(rng, settings.wind);
    let column: i32 = x as i32 + drift;
    let nx: usize = if column < 0 {
        0
    } else if column > cols as i32 - 1 {
        cols - 1
    } else {
        column as usize
    };
    let new_val: u8 = (heat as i32 - decay).max(0) as u8;
    proof {
        lemma_cell_index(cols as int, rows as int, to as int, nx as int);
    }
    grid[to * cols + nx] = new_val;
}

/// One step, see [`stepped`].
pub fn propagate(
    grid: &mut Vec<u8>,
    rng: &mut Rng,
    cols: usize,
    rows: usize,
    settings: &AnimSettings,
    cooling: bool,
)
    requires
        old(grid)@.len() == cols * rows,
        cols < i32::MAX,
        rows > 0,
    ensures
        final(grid)@.len() == old(grid)@.len(),
        (Flames { grid: final(grid)@, state: final(rng)@ }) == stepped(
            Flames { grid: old(grid)@, state: old(rng)@ },
            cols as int,
            rows as int,
            *settings,
            cooling,
        ),
{
    let ghost before = Flames { grid: grid@, state: rng@ };
    for x in 0..cols
        invariant
            grid@.len() == cols * rows,
            cols < i32::MAX,
            rows > 0,
            (Flames { grid: grid@, state: rng@ }) == spread(
                before,
                cols as int,
                rows as int,
                *settings,
                x as nat,
            ),
    {
        let ghost column = Flames { grid: grid@, state: rng@ };
        for i in 0..rows - 1
            invariant
                grid@.len() == cols * rows,
                cols < i32::MAX,
                rows > 0,
                x < cols,
                (Flames { grid: grid@, state: rng@ }) == column_radiated(
                    column,
                    cols as int,
                    *settings,
                    x as int,
                    i as nat,
                ),
        {
            radiate(grid, rng, cols, rows, settings, x, i);
        }
    }
    if cooling {
        let ghost spreaded = Flames { grid: grid@, state: rng@ };
        let source_row: usize = if settings.direction {
            0
        } else {
            rows - 1
        };
        for x in 0..cols
            invariant
                grid@.len() == cols * rows,
                rows > 0,
                source_row == self::source_row(rows as int, settings.direction),
                (Flames { grid: grid@, state: rng@ }) == source_cooled(
                    spreaded,
                    cols as int,
                    rows as int,
                    settings.direction,
                    x as nat,
                ),
        {
            assert(grid.len() == cols * rows);
            proof {
                lemma_cell_index(cols as int, rows as int, source_row as int, x as int);
            }
            let index: usize = source_row * cols + x;
            let loss = rng.range(2, 6);
            let heat: u8 = grid[index];
            grid[index] = (heat as i32 - loss).max(0) as u8;
        }
    }
}

/// Whether no cell is hotter than `limit`.
pub open spec fn at_most(grid: Seq<u8>, limit: u8) -> bool {
    forall|i: int| 0 <= i < grid.len() ==> #[trigger] grid[i] <= limit
}

/// A cell of one row never lies in another.
proof fn lemma_rows_disjoint(cols: int, i: int, y: int, z: int)
    requires
        in_row(i, cols, y),
        y != z,
    ensures
        !in_row(i, cols, z),
{
    if y < z {
        assert(y * cols + cols <= z * cols) by (nonlinear_arith)
            requires
                y + 1 <= z,
                0 <= cols,
        ;
    } else {
        assert(z * cols + cols <= y * cols) by (nonlinear_arith)
            requires
                z + 1 <= y,
                0 <= cols,
        ;
    }
}

/// What a single transfer does: it keeps the grid's size, makes no cell hotter than
/// the hottest was, and leaves the source row alone.
proof fn lemma_radiated(
    flames: Flames,
    cols: int,
    rows: int,
    settings: AnimSettings,
    x: int,
    i: int,
    limit: u8,
)
    requires
        flames.grid.len() == cols * rows,
        0 <= x < cols,
        0 <= i < rows - 1,
        at_most(flames.grid, limit),
    ensures
        ({
            let after = radiated(flames, cols, settings, x, i).grid;
            &&& after.len() == flames.grid.len()
            &&& at_most(after, limit)
            &&& forall|j: int|
                in_row(j, cols, source_row(rows, settings.direction)) ==> #[trigger] after[j]
                    == flames.grid[j]
        }),
{
    let (from, to) = transfer_rows(settings.direction, i);
    let (decay_lo, decay_hi) = decay_bounds(settings.height);
    let (drift_lo, drift_hi) = drift_bounds(settings.wind);
    lemma_drawn_between(flames.state, decay_lo, decay_hi);
    let nx = clamped(x + drawn(xorshift(flames.state), drift_lo, drift_hi), cols);
    lemma_cell_index(cols, rows, from, x);
    lemma_cell_index(cols, rows, to, nx);
    lemma_rows_disjoint(cols, to * cols + nx, to, source_row(rows, settings.direction));
    lemma_cell_index(cols, rows, source_row(rows, settings.direction), x);
    assert(flames.grid[from * cols + x] <= limit);
}

proof fn lemma_column_radiated(
    flames: Flames,
    cols: int,
    rows: int,
    settings: AnimSettings,
    x: int,
    n: nat,
    limit: u8,
)
    requires
        flames.grid.len() == cols * rows,
        0 <= x < cols,
        n < rows,
        at_most(flames.grid, limit),
    ensures
        ({
            let after = column_radiated(flames, cols, settings, x, n).grid;
            &&& after.len() == flames.grid.len()
            &&& at_most(after, limit)
            &&& forall|j: int|
                in_row(j, cols, source_row(rows, settings.direction)) ==> #[trigger] after[j]
                    == flames.grid[j]
        }),
    decreases n,
{
    if n > 0 {
        lemma_column_radiated(flames, cols, rows, settings, x, (n - 1) as nat, limit);
        lemma_radiated(
            column_radiated(flames, cols, settings, x, (n - 1) as nat),
            cols,
            rows,
            settings,
            x,
            n - 1,
            limit,
        );
    }
}

/// Spreading keeps the grid's size, makes no cell hotter than the hottest was, and
/// leaves the source row alone.
pub proof fn lemma_spread(
    flames: Flames,
    cols: int,
    rows: int,
    settings: AnimSettings,
    n: nat,
    limit: u8,
)
    requires
        flames.grid.len() == cols * rows,
        n <= cols,
        rows > 0,
        at_most(flames.grid, limit),
    ensures
        ({
            let after = spread(flames, cols, rows, settings, n).grid;
            &&& after.len() == flames.grid.len()
            &&& at_most(after, limit)
            &&& forall|j: int|
                in_row(j, cols, source_row(rows, settings.direction)) ==> #[trigger] after[j]
                    == flames.grid[j]
        }),
    decreases n,
{
    if n > 0 {
        lemma_spread(flames, cols, rows, settings, (n - 1) as nat, limit);
        lemma_column_radiated(
            spread(flames, cols, rows, settings, (n - 1) as nat),
            cols,
            rows,
            settings,
            n - 1,
            (rows - 1) as nat,
            limit,
        );
    }
}

/// Cooling takes between two and six degrees off each of the first `n` source cells,
/// never below zero, and leaves every other cell alone.
pub proof fn lemma_source_cooled(
    flames: Flames,
    cols: int,
    rows: int,
    top_down: bool,
    n: nat,
)
    requires
        flames.grid.len() == cols * rows,
        n <= cols,
        rows > 0,
    ensures
        ({
            let after = source_cooled(flames, cols, rows, top_down, n).grid;
            let start = source_row(rows, top_down) * cols;
            &&& after.len() == flames.grid.len()
            &&& forall|j: int|
                #![trigger after[j]]
                start <= j < start + n ==> lowered(flames.grid[j], 6) <= after[j] <= lowered(
                    flames.grid[j],
                    2,
                )
            &&& forall|j: int|
                0 <= j < flames.grid.len() && !(start <= j < start + n) ==> #[trigger] after[j]
                    == flames.grid[j]
        }),
    decreases n,
{
    if n > 0 {
        lemma_source_cooled(flames, cols, rows, top_down, (n - 1) as nat);
        let before = source_cooled(flames, cols, rows, top_down, (n - 1) as nat);
        lemma_cell_index(cols, rows, source_row(rows, top_down), n - 1);
        lemma_drawn_between(before.state, 2, 6);
    }
}

/// A step keeps the grid's size and makes no cell hotter than the hottest was.
pub proof fn lemma_stepped_no_hotter(
    flames: Flames,
    cols: int,
    rows: int,
    settings: AnimSettings,
    cooling: bool,
    limit: u8,
)
    requires
        flames.grid.len() == cols * rows,
        0 <= cols,
        rows > 0,
        at_most(flames.grid, limit),
    ensures
        stepped(flames, cols, rows, settings, cooling).grid.len() == flames.grid.len(),
        at_most(stepped(flames, cols, rows, settings, cooling).grid, limit),
{
    lemma_spread(flames, cols, rows, settings, cols as nat, limit);
    let after = spread(flames, cols, rows, settings, cols as nat);
    if cooling {
        lemma_source_cooled(after, cols, rows, settings.direction, cols as nat);
        let cooled = source_cooled(after, cols, rows, settings.direction, cols as nat);
        assert forall|i: int| 0 <= i < cooled.grid.len() implies #[trigger] cooled.grid[i]
            <= limit by {
            assert(after.grid[i] <= limit);
        }
    }
}

/// However many steps are made, none makes a cell hotter than the hottest was at
/// the start: heat only moves and fades.
pub proof fn lemma_steps_no_hotter(
    flames: Flames,
    cols: int,
    rows: int,
    settings: AnimSettings,
    cooling: bool,
    n: nat,
    limit: u8,
)
    requires
        flames.grid.len() == cols * rows,
        0 <= cols,
        rows > 0,
        at_most(flames.grid, limit),
    ensures
        steps(flames, cols, rows, settings, cooling, n).grid.len() == flames.grid.len(),
        at_most(steps(flames, cols, rows, settings, cooling, n).grid, limit),
    decreases n,
{
    if n > 0 {
        lemma_steps_no_hotter(flames, cols, rows, settings, cooling, (n - 1) as nat, limit);
        lemma_stepped_no_hotter(
            steps(flames, cols, rows, settings, cooling, (n - 1) as nat),
            cols,
            rows,
            settings,
            cooling,
            limit,
        );
    }
}

/// A fire that is fed keeps its source row through any number of steps.
pub proof fn lemma_source_kept(
    flames: Flames,
    cols: int,
    rows: int,
    settings: AnimSettings,
    n: nat,
    j: int,
)
    requires
        flames.grid.len() == cols * rows,
        0 <= cols,
        rows > 0,
        in_row(j, cols, source_row(rows, settings.direction)),
    ensures
        steps(flames, cols, rows, settings, false, n).grid[j] == flames.grid[j],
    decreases n,
{
    if n > 0 {
        lemma_source_kept(flames, cols, rows, settings, (n - 1) as nat, j);
        let before = steps(flames, cols, rows, settings, false, (n - 1) as nat);
        lemma_steps_no_hotter(flames, cols, rows, settings, false, (n - 1) as nat, u8::MAX);
        lemma_spread(before, cols, rows, settings, cols as nat, u8::MAX);
    }
}

/// A source that is no longer fed loses at least two degrees with each step, until
/// it is cold.
pub proof fn lemma_source_fades(
    flames: Flames,
    cols: int,
    rows: int,
    settings: AnimSettings,
    n: nat,
    j: int,
)
    requires
        flames.grid.len() == cols * rows,
        0 <= cols,
        rows > 0,
        in_row(j, cols, source_row(rows, settings.direction)),
    ensures
        steps(flames, cols, rows, settings, true, n).grid[j] <= lowered(
            flames.grid[j],
            2 * n as int,
        ),
    decreases n,
{
    if n > 0 {
        lemma_source_fades(flames, cols, rows, settings, (n - 1) as nat, j);
        let before = steps(flames, cols, rows, settings, true, (n - 1) as nat);
        lemma_steps_no_hotter(flames, cols, rows, settings, true, (n - 1) as nat, u8::MAX);
        lemma_spread(before, cols, rows, settings, cols as nat, u8::MAX);
        let after = spread(before, cols, rows, settings, cols as nat);
        lemma_source_cooled(after, cols, rows, settings.direction, cols as nat);
        assert(after.grid[j] == before.grid[j]);
    }
}

/// Whether `value` is `heat` less `loss`, or zero where the loss is larger.
pub open spec fn is_reduced(value: u8, heat: u8, loss: int) -> bool {
    &&& heat >= loss ==> value + loss == heat
    &&& heat < loss ==> value == 0
}

/// Whether a generator that gives `random` makes a radiating cell lose `loss` degrees:
/// one to four for low flames, up to three for medium ones and any unknown height, up to
/// two for high ones, at most one for extreme ones.
pub open spec fn is_loss(loss: int, height: u32, random: u64) -> bool {
    &&& height == 0 ==> loss == 1 + random % 4
    &&& height == 1 || height > 3 ==> loss == random % 4
    &&& height == 2 ==> loss == random % 3
    &&& height == 3 ==> loss == random % 2
}

/// Whether a generator that gives `random` carries heat `drift` columns to the right: up to
/// two columns with a strong wind, at most one with a gentle one, and at most one to either
/// side without wind or with an unknown one.
pub open spec fn is_drift(drift: int, wind: i32, random: u64) -> bool {
    &&& wind == 2 ==> drift == random % 3
    &&& wind == 1 ==> drift == random % 2
    &&& wind == -1 ==> drift == random % 2 - 1
    &&& wind == -2 ==> drift == random % 3 - 2
    &&& wind == 0 || wind < -2 || wind > 2 ==> drift == random % 3 - 1
}

/// Whether `column` is the column nearest to `aim` among the `cols` columns of a grid.
pub open spec fn is_nearest_column(column: int, aim: int, cols: int) -> bool {
    &&& 0 <= column < cols
    &&& 0 <= aim < cols ==> column == aim
    &&& aim < 0 ==> column == 0
    &&& aim >= cols ==> column + 1 == cols
}

/// Whether `after` is `before` with the heat of cell `from`, less `loss`, in cell `to`.
pub open spec fn is_moved(
    before: Seq<u8>,
    after: Seq<u8>,
    from: int,
    to: int,
    loss: int,
) -> bool {
    &&& after.len() == before.len()
    &&& is_reduced(after[to], before[from], loss)
    &&& forall|j: int| 0 <= j < before.len() && j != to ==> #[trigger] after[j] == before[j]
}

/// Whether `after` comes from `before` by one transfer of column `x`: a falling fire moves
/// heat from row `i` down to row `i + 1`, a rising one from row `i + 1` up to row `i`. The
/// generator is asked twice, for the loss and for the drift.
pub open spec fn is_transfer(
    before: Flames,
    after: Flames,
    cols: int,
    settings: AnimSettings,
    x: int,
    i: int,
) -> bool {
    let first = xorshift(before.state);
    let second = xorshift(first);
    &&& after.state == second
    &&& exists|loss: int, drift: int, column: int|
        {
            &&& #[trigger] is_loss(loss, settings.height, first)
            &&& #[trigger] is_drift(drift, settings.wind, second)
            &&& #[trigger] is_nearest_column(column, x + drift, cols)
            &&& settings.direction ==> is_moved(
                before.grid,
                after.grid,
                i * cols + x,
                (i + 1) * cols + column,
                loss,
            )
            &&& !settings.direction ==> is_moved(
                before.grid,
                after.grid,
                (i + 1) * cols + x,
                i * cols + column,
                loss,
            )
        }
}

/// Whether the flames that `at` holds before the `i`-th transfer of column `x` become, by
/// that transfer, those that it holds before the next one.
pub open spec fn goes_on(
    at: spec_fn(int, int) -> Flames,
    cols: int,
    settings: AnimSettings,
    x: int,
    i: int,
) -> bool {
    is_transfer(at(x, i), at(x, i + 1), cols, settings, x, i)
}

/// Whether the flames behind the last transfer of column `x` are those before the first one
/// of the next column.
pub open spec fn turns_over(at: spec_fn(int, int) -> Flames, rows: int, x: int) -> bool {
    at(x, rows - 1) == at(x + 1, 0)
}

/// Whether `at` leads from `before` to `after` by transfers between each two neighbouring
/// rows, from the top of the screen to its bottom, of each column, from left to right.
pub open spec fn is_spreading(
    at: spec_fn(int, int) -> Flames,
    before: Flames,
    after: Flames,
    cols: int,
    rows: int,
    settings: AnimSettings,
) -> bool {
    &&& at(0, 0) == before
    &&& at(cols, 0) == after
    &&& forall|x: int, i: int|
        0 <= x < cols && 0 <= i < rows - 1 ==> #[trigger] goes_on(at, cols, settings, x, i)
    &&& forall|x: int| 0 <= x < cols ==> #[trigger] turns_over(at, rows, x)
}

/// Whether `after` comes from `before` by the loss of two to six degrees in cell `i`.
pub open spec fn is_cooling(before: Flames, after: Flames, i: int) -> bool {
    &&& after.state == xorshift(before.state)
    &&& is_moved(before.grid, after.grid, i, i, 2 + xorshift(before.state) % 5)
}

/// Whether the flames that `at` holds before cell `x` of the source row cools become, by that,
/// those that it holds before the next cell does. The source row is the top row of a falling
/// fire and the bottom row of a rising one.
pub open spec fn cools_on(
    at: spec_fn(int) -> Flames,
    cols: int,
    rows: int,
    top_down: bool,
    x: int,
) -> bool {
    &&& top_down ==> is_cooling(at(x), at(x + 1), x)
    &&& !top_down ==> is_cooling(at(x), at(x + 1), (rows - 1) * cols + x)
}

/// Whether `at` leads from `before` to `after` by cooling each cell of the source row, from
/// left to right.
pub open spec fn is_row_cooling(
    at: spec_fn(int) -> Flames,
    before: Flames,
    after: Flames,
    cols: int,
    rows: int,
    top_down: bool,
) -> bool {
    &&& at(0) == before
    &&& at(cols) == after
    &&& forall|x: int| 0 <= x < cols ==> #[trigger] cools_on(at, cols, rows, top_down, x)
}

/// Whether `after` comes from `before` by one step: all transfers, and then, where the fire
/// is `cooling`, the loss of heat in its source row.
pub open spec fn is_step(
    before: Flames,
    after: Flames,
    cols: int,
    rows: int,
    settings: AnimSettings,
    cooling: bool,
) -> bool {
    exists|at: spec_fn(int, int) -> Flames, mid: Flames|
        {
            &&& #[trigger] is_spreading(at, before, mid, cols, rows, settings)
            &&& !cooling ==> mid == after
            &&& cooling ==> exists|cooled: spec_fn(int) -> Flames| #[trigger]
                is_row_cooling(
                    cooled,
                    mid,
                    after,
                    cols,
                    rows,
                    settings.direction,
                )
        }
}

/// Every transfer moves heat, whatever the size of the screen and wherever it is made.
pub proof fn lemma_transfer_moves_heat(
    flames: Flames,
    cols: int,
    rows: int,
    settings: AnimSettings,
    x: int,
    i: int,
)
    requires
        flames.grid.len() == cols * rows,
        0 <= x < cols,
        0 <= i < rows - 1,
    ensures
        is_transfer(flames, radiated(flames, cols, settings, x, i), cols, settings, x, i),
{
    let after = radiated(flames, cols, settings, x, i);
    let (from, to) = transfer_rows(settings.direction, i);
    let (decay_lo, decay_hi) = decay_bounds(settings.height);
    let (drift_lo, drift_hi) = drift_bounds(settings.wind);
    let loss = drawn(flames.state, decay_lo, decay_hi);
    let drift = drawn(xorshift(flames.state), drift_lo, drift_hi);
    let column = clamped(x + drift, cols);
    lemma_drawn_between(flames.state, decay_lo, decay_hi);
    lemma_drawn_between(xorshift(flames.state), drift_lo, drift_hi);
    lemma_cell_index(cols, rows, from, x);
    lemma_cell_index(cols, rows, to, column);
    assert(is_loss(loss, settings.height, xorshift(flames.state)));
    assert(is_drift(drift, settings.wind, xorshift(xorshift(flames.state))));
    assert(is_nearest_column(column, x + drift, cols));
    assert(is_moved(flames.grid, after.grid, from * cols + x, to * cols + column, loss));
}

/// The `n`-th transfer of a column is made behind the first `n` ones, on a column of any
/// height.
pub proof fn lemma_column_moves_heat(
    flames: Flames,
    cols: int,
    rows: int,
    settings: AnimSettings,
    x: int,
    n: nat,
)
    requires
        flames.grid.len() == cols * rows,
        0 <= x < cols,
        n < rows - 1,
    ensures
        is_transfer(
            column_radiated(flames, cols, settings, x, n),
            column_radiated(flames, cols, settings, x, n + 1),
            cols,
            settings,
            x,
            n as int,
        ),
{
    lemma_column_radiated(flames, cols, rows, settings, x, n, u8::MAX);
    lemma_transfer_moves_heat(
        column_radiated(flames, cols, settings, x, n),
        cols,
        rows,
        settings,
        x,
        n as int,
    );
}

proof fn lemma_spread_moves_heat(
    flames: Flames,
    cols: int,
    rows: int,
    settings: AnimSettings,
)
    requires
        flames.grid.len() == cols * rows,
        0 <= cols,
        rows > 0,
    ensures
        exists|at: spec_fn(int, int) -> Flames| #[trigger]
            is_spreading(
                at,
                flames,
                spread(flames, cols, rows, settings, cols as nat),
                cols,
                rows,
                settings,
            ),
{
    let at = |x: int, i: int|
        column_radiated(
            spread(flames, cols, rows, settings, x as nat),
            cols,
            settings,
            x,
            i as nat,
        );
    assert forall|x: int, i: int| 0 <= x < cols && 0 <= i < rows - 1 implies #[trigger] goes_on(
        at,
        cols,
        settings,
        x,
        i,
    ) by {
        lemma_spread(flames, cols, rows, settings, x as nat, u8::MAX);
        lemma_column_moves_heat(
            spread(flames, cols, rows, settings, x as nat),
            cols,
            rows,
            settings,
            x,
            i as nat,
        );
    }
    assert forall|x: int| 0 <= x < cols implies #[trigger] turns_over(at, rows, x) by {
        assert((x + 1) as nat - 1 == x);
    }
    assert(is_spreading(
        at,
        flames,
        spread(flames, cols, rows, settings, cols as nat),
        cols,
        rows,
        settings,
    ));
}

proof fn lemma_cooling_takes_heat(flames: Flames, cols: int, rows: int, top_down: bool)
    requires
        flames.grid.len() == cols * rows,
        0 <= cols,
        rows > 0,
    ensures
        exists|at: spec_fn(int) -> Flames| #[trigger]
            is_row_cooling(
                at,
                flames,
                source_cooled(flames, cols, rows, top_down, cols as nat),
                cols,
                rows,
                top_down,
            ),
{
    let y = source_row(rows, top_down);
    let at = |x: int| source_cooled(flames, cols, rows, top_down, x as nat);
    assert forall|x: int| 0 <= x < cols implies #[trigger] cools_on(
        at,
        cols,
        rows,
        top_down,
        x,
    ) by {
        lemma_source_cooled(flames, cols, rows, top_down, x as nat);
        lemma_cell_index(cols, rows, y, x);
        lemma_drawn_between(at(x).state, 2, 6);
        assert((x + 1) as nat - 1 == x);
        assert(is_cooling(at(x), at(x + 1), y * cols + x));
        assert(0 * cols == 0);
    }
    assert(is_row_cooling(
        at,
        flames,
        source_cooled(flames, cols, rows, top_down, cols as nat),
        cols,
        rows,
        top_down,
    ));
}

/// A step makes every transfer of every column, and then cools the whole source row of a
/// cooling fire.
pub proof fn lemma_step_moves_heat(
    flames: Flames,
    cols: int,
    rows: int,
    settings: AnimSettings,
    cooling: bool,
)
    requires
        flames.grid.len() == cols * rows,
        0 <= cols,
        rows > 0,
    ensures
        is_step(
            flames,
            stepped(flames, cols, rows, settings, cooling),
            cols,
            rows,
            settings,
            cooling,
        ),
{
    let mid = spread(flames, cols, rows, settings, cols as nat);
    lemma_spread_moves_heat(flames, cols, rows, settings);
    lemma_spread(flames, cols, rows, settings, cols as nat, u8::MAX);
    lemma_cooling_takes_heat(mid, cols, rows, settings.direction);
    let at = choose|at: spec_fn(int, int) -> Flames| #[trigger]
        is_spreading(at, flames, mid, cols, rows, settings);
    assert(is_spreading(at, flames, mid, cols, rows, settings));
}

/// The row next to the source, which heat reaches first.
pub open spec fn neighbour_row(rows: int, top_down: bool) -> int {
    if top_down {
        1
    } else {
        rows - 2
    }
}

/// Whether some cell of row `y` has at least the heat `least`.
pub open spec fn burns(grid: Seq<u8>, cols: int, y: int, least: int) -> bool {
    exists|j: int| in_row(j, cols, y) && 0 <= j < grid.len() && #[trigger] grid[j] >= least
}

proof fn lemma_column_heats_neighbour(
    flames: Flames,
    cols: int,
    rows: int,
    settings: AnimSettings,
    x: int,
    n: nat,
)
    requires
        flames.grid.len() == cols * rows,
        0 <= x < cols,
        1 <= n < rows,
        settings.direction || n == rows - 1,
    ensures
        burns(
            column_radiated(flames, cols, settings, x, n).grid,
            cols,
            neighbour_row(rows, settings.direction),
            flames.grid[source_row(rows, settings.direction) * cols + x] - 4,
        ),
    decreases n,
{
    let source = source_row(rows, settings.direction);
    let y = neighbour_row(rows, settings.direction);
    let before = column_radiated(flames, cols, settings, x, (n - 1) as nat);
    let after = column_radiated(flames, cols, settings, x, n);
    let least = flames.grid[source * cols + x] - 4;
    lemma_column_radiated(flames, cols, rows, settings, x, (n - 1) as nat, u8::MAX);
    lemma_cell_index(cols, rows, source, x);
    assert(before.grid[source * cols + x] == flames.grid[source * cols + x]);
    let (from, to) = transfer_rows(settings.direction, n - 1);
    let (decay_lo, decay_hi) = decay_bounds(settings.height);
    let (drift_lo, drift_hi) = drift_bounds(settings.wind);
    lemma_drawn_between(before.state, decay_lo, decay_hi);
    let nx = clamped(x + drawn(xorshift(before.state), drift_lo, drift_hi), cols);
    lemma_cell_index(cols, rows, to, nx);
    let target = to * cols + nx;
    if to == y {
        assert(from == source);
        assert(after.grid[target] >= least);
    } else {
        lemma_column_heats_neighbour(flames, cols, rows, settings, x, (n - 1) as nat);
        let j = choose|j: int|
            in_row(j, cols, y) && 0 <= j < before.grid.len() && #[trigger] before.grid[j]
                >= least;
        lemma_rows_disjoint(cols, target, to, y);
        assert(after.grid[j] == before.grid[j]);
    }
}

/// Fire catches: after a step of a fed fire, the row next to the source holds a cell that
/// has, but for four degrees at most, the heat of the source's last cell.
pub proof fn lemma_fire_catches(
    flames: Flames,
    cols: int,
    rows: int,
    settings: AnimSettings,
)
    requires
        flames.grid.len() == cols * rows,
        cols > 0,
        rows > 1,
    ensures
        burns(
            stepped(flames, cols, rows, settings, false).grid,
            cols,
            neighbour_row(rows, settings.direction),
            flames.grid[source_row(rows, settings.direction) * cols + cols - 1] - 4,
        ),
{
    let before = spread(flames, cols, rows, settings, (cols - 1) as nat);
    lemma_spread(flames, cols, rows, settings, (cols - 1) as nat, u8::MAX);
    lemma_cell_index(cols, rows, source_row(rows, settings.direction), cols - 1);
    lemma_column_heats_neighbour(before, cols, rows, settings, cols - 1, (rows - 1) as nat);
}

/// A fresh grid has a cell for each place; those of the top row of a falling fire, or the
/// bottom row of a rising one, are at full heat, all others cold.
pub proof fn lemma_fresh_grid(cols: int, rows: int, top_down: bool, y: int, x: int)
    requires
        0 <= x < cols,
        0 <= y < rows,
    ensures
        fresh_grid(cols, rows, top_down).len() == cols * rows,
        fresh_grid(cols, rows, top_down)[y * cols + x] == (if top_down && y == 0 || !top_down
            && y + 1 == rows {
            36u8
        } else {
            0u8
        }),
{
    lemma_cell_index(cols, rows, y, x);
    if y != source_row(rows, top_down) {
        lemma_rows_disjoint(cols, y * cols + x, y, source_row(rows, top_down));
    }
}

/// Feeding puts the top row of a falling fire, or the bottom row of a rising one, at full
/// heat, and leaves all other cells alone.
pub proof fn lemma_feeding(grid: Seq<u8>, cols: int, rows: int, top_down: bool, y: int, x: int)
    requires
        grid.len() == cols * rows,
        0 <= x < cols,
        0 <= y < rows,
    ensures
        refreshed(grid, cols, rows, top_down).len() == grid.len(),
        refreshed(grid, cols, rows, top_down)[y * cols + x] == (if top_down && y == 0
            || !top_down && y + 1 == rows {
            36u8
        } else {
            grid[y * cols + x]
        }),
{
    lemma_cell_index(cols, rows, y, x);
    if y != source_row(rows, top_down) {
        lemma_rows_disjoint(cols, y * cols + x, y, source_row(rows, top_down));
    }
}

} // verus!
