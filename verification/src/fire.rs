//! The animation itself: what happens between two frames, and when it ends.

use crate::ansi::Rgb;
use crate::heat::{heat_source, propagate, resize_grid, MAX_HEAT, STEPS_PER_FRAME};
#[allow(unused_imports)]
use crate::heat::{
    at_most, burns, fresh_grid, in_row, is_step, lemma_cell_index, lemma_feeding,
    lemma_fire_catches, lemma_fresh_grid, lemma_source_fades, lemma_source_kept,
    lemma_step_moves_heat, lemma_steps_no_hotter, lowered, refreshed, source_row,
    steps, stepped, Flames,
};
use crate::render::render;
#[allow(unused_imports)]
use crate::render::{
    frame_text, frame_tokens, lemma_cells_have_palette_colors, lemma_frame_shows_grid, shown,
    tokens_text, CellColor, Token,
};
use crate::rng::Rng;
use crate::settings::AnimSettings;
#[allow(unused_imports)]
use crate::text::group_empty_text;
use vstd::prelude::*;

verus! {

/// How long the animation lasts at most, in nanoseconds.
pub const MAX_DURATION: u128 = 2_200_000_000;

/// A cooling fire whose cells are all below this heat is out.
pub const DIE_OUT_THRESHOLD: u8 = 2;

/// Sent before the first frame: hides the cursor, resets colours, and clears the
/// screen with its scrollback.
pub const BURN_BEGIN: &'static str = "\x1b[?25l\x1b[0m\x1b[H\x1b[2J\x1b[3J";

/// Sent after the last frame: shows the cursor again.
pub const BURN_END: &'static str = "\x1b[?25h";

/// The pause after each frame, in milliseconds.
pub fn frame_delay(fps: u32) -> (millis: u64)
    ensures
        millis == 1000nat / (if fps == 0 {
            1
        } else {
            fps as nat
        }),
{
    1000 / (if fps == 0 {
        1
    } else {
        fps
    }) as u64
}

/// Whether a fire can burn on a screen of this size.
pub open spec fn burnable(cols: usize, rows: usize) -> bool {
    &&& rows > 0
    &&& cols < i32::MAX
    &&& cols * rows <= isize::MAX
}

/// Whether all cells are below the heat at which a cooling fire is out.
pub open spec fn died_out(grid: Seq<u8>) -> bool {
    forall|i: int| 0 <= i < grid.len() ==> #[trigger] grid[i] < DIE_OUT_THRESHOLD
}

/// The heat of the hottest cell, or zero without cells.
pub fn peak(grid: &[u8]) -> (hottest: u8)
    ensures
        at_most(grid@, hottest),
        grid@.len() == 0 ==> hottest == 0,
        grid@.len() > 0 ==> grid@.contains(hottest),
{
    let mut hottest: u8 = 0;
    for i in 0..grid.len()
        invariant
            forall|j: int| 0 <= j < i ==> #[trigger] grid@[j] <= hottest,
            i == 0 ==> hottest == 0,
            i > 0 ==> exists|j: int| 0 <= j < i && grid@[j] == hottest,
    {
        if i == 0 || grid[i] > hottest {
            hottest = grid[i];
        }
        assert(grid@[i as int] <= hottest);
    }
    hottest
}

/// A burning screen.
pub struct Fire {
    /// The heat of all cells, row by row.
    pub grid: Vec<u8>,
    pub cols: usize,
    pub rows: usize,
    pub rng: Rng,
    pub settings: AnimSettings,
}

/// What is known when a frame is due.
#[derive(Clone, Copy, Debug, PartialEq, Eq, Structural)]
pub struct Tick {
    /// Whether the animation has been interrupted.
    pub interrupted: bool,
    /// The nanoseconds since the fire was lit.
    pub elapsed: u128,
    /// The nanoseconds after which the fire is no longer fed.
    pub cool_at: u128,
    /// The terminal's current columns.
    pub cols: usize,
    /// The terminal's current rows.
    pub rows: usize,
}

impl Tick {
    /// Whether the animation is over.
    pub open spec fn is_over(self) -> bool {
        self.interrupted || self.elapsed > MAX_DURATION
    }

    /// Whether the fire is no longer fed.
    pub open spec fn is_cooling(self) -> bool {
        self.elapsed > self.cool_at
    }
}

/// The flames that a tick leaves on a screen of `cols` by `rows` cells: a screen of
/// another size starts anew, a fed fire has its source row at full heat, and then
/// heat moves.
pub open spec fn burned(
    flames: Flames,
    cols: usize,
    rows: usize,
    settings: AnimSettings,
    tick: Tick,
) -> Flames {
    let resized = if tick.cols != cols || tick.rows != rows {
        fresh_grid(tick.cols as int, tick.rows as int, settings.direction)
    } else {
        flames.grid
    };
    let fed = if tick.is_cooling() {
        resized
    } else {
        refreshed(resized, tick.cols as int, tick.rows as int, settings.direction)
    };
    steps(
        Flames { grid: fed, state: flames.state },
        tick.cols as int,
        tick.rows as int,
        settings,
        tick.is_cooling(),
        STEPS_PER_FRAME as nat,
    )
}

/// What is to be done after a tick.
#[derive(Clone, Copy, Debug, PartialEq, Eq, Structural)]
pub enum BurnAction {
    /// End without another frame.
    Stop,
    /// Show the frame and end: the fire is out.
    ShowAndStop,
    /// Show the frame, pause, and go on.
    ShowAndWait,
}

/// What a tick asks for: the end where the animation is over, the last frame where it
/// leaves a cooling fire out, else a frame with more to follow.
pub open spec fn turn(
    flames: Flames,
    cols: usize,
    rows: usize,
    settings: AnimSettings,
    tick: Tick,
) -> BurnAction {
    if tick.is_over() {
        BurnAction::Stop
    } else if tick.is_cooling() && died_out(burned(flames, cols, rows, settings, tick).grid) {
        BurnAction::ShowAndStop
    } else {
        BurnAction::ShowAndWait
    }
}

/// The frame that shows the flames that a tick leaves.
pub open spec fn turn_frame(
    flames: Flames,
    cols: usize,
    rows: usize,
    settings: AnimSettings,
    palette: Seq<Rgb>,
    tick: Tick,
) -> Seq<char> {
    frame_text(
        burned(flames, cols, rows, settings, tick).grid,
        palette,
        tick.cols as nat,
        tick.rows as nat,
    )
}

/// What a turn writes: its frame where it shows one, and the end where it is the last.
pub open spec fn turn_text(action: BurnAction, frame: Seq<char>) -> Seq<char> {
    match action {
        BurnAction::Stop => BURN_END@,
        BurnAction::ShowAndStop => frame + BURN_END@,
        BurnAction::ShowAndWait => frame,
    }
}

/// The text that a turn writes, see [`turn_text`].
pub fn turn_output(action: BurnAction, frame: &str) -> (text: String)
    ensures
        text@ == turn_text(action, frame@),
{
    broadcast use group_empty_text;

    let mut text = String::new();
    match action {
        BurnAction::Stop => {
            text.append(BURN_END);
        },
        BurnAction::ShowAndStop => {
            text.append(frame);
            text.append(BURN_END);
        },
        BurnAction::ShowAndWait => {
            text.append(frame);
        },
    }
    text
}

impl Fire {
    /// The grid has all its cells, and none is hotter than the source.
    pub open spec fn wf(&self) -> bool {
        &&& burnable(self.cols, self.rows)
        &&& self.grid@.len() == self.cols * self.rows
        &&& at_most(self.grid@, MAX_HEAT)
    }

    /// The grid with the state of its generator.
    pub open spec fn flames(&self) -> Flames {
        Flames { grid: self.grid@, state: self.rng@ }
    }

    /// The flames that a tick leaves.
    pub open spec fn flames_after(&self, tick: Tick) -> Flames {
        burned(self.flames(), self.cols, self.rows, self.settings, tick)
    }

    /// A fire that has just been lit.
    pub fn new(cols: usize, rows: usize, settings: AnimSettings, rng: Rng) -> (fire: Self)
        requires
            burnable(cols, rows),
        ensures
            fire.wf(),
            fire.cols == cols,
            fire.rows == rows,
            fire.settings == settings,
            fire.rng == rng,
            fire.grid@ == fresh_grid(cols as int, rows as int, settings.direction),
    {
        let grid = resize_grid(cols, rows, settings.direction);
        Fire { grid, cols, rows, rng, settings }
    }

    /// Brings the fire to the next frame.
    fn advance(&mut self, tick: Tick)
        requires
            old(self).wf(),
            burnable(tick.cols, tick.rows),
        ensures
            final(self).wf(),
            final(self).cols == tick.cols,
            final(self).rows == tick.rows,
            final(self).settings == old(self).settings,
            final(self).flames() == old(self).flames_after(tick),
    {
        if tick.cols != self.cols || tick.rows != self.rows {
            self.cols = tick.cols;
            self.rows = tick.rows;
            self.grid = resize_grid(tick.cols, tick.rows, self.settings.direction);
        }
        if tick.elapsed <= tick.cool_at {
            heat_source(&mut self.grid, self.cols, self.rows, self.settings.direction);
        }
        let ghost fed = self.flames();
        let cooling: bool = tick.elapsed > tick.cool_at;
        for step in 0..STEPS_PER_FRAME
            invariant
                burnable(self.cols, self.rows),
                self.cols == tick.cols,
                self.rows == tick.rows,
                self.settings == old(self).settings,
                cooling == tick.is_cooling(),
                self.grid@.len() == self.cols * self.rows,
                self.flames() == steps(
                    fed,
                    self.cols as int,
                    self.rows as int,
                    self.settings,
                    cooling,
                    step as nat,
                ),
        {
            propagate(
                &mut self.grid,
                &mut self.rng,
                self.cols,
                self.rows,
                &self.settings,
                cooling,
            );
        }
        proof {
            lemma_steps_no_hotter(
                fed,
                self.cols as int,
                self.rows as int,
                self.settings,
                cooling,
                STEPS_PER_FRAME as nat,
                MAX_HEAT,
            );
        }
    }
}

/// Makes one turn of the animation: ends it where it is over, else brings the fire
/// to the next frame and writes that to `frame`.
pub fn burn(fire: &mut Fire, palette: &[Rgb], tick: Tick, frame: &mut String) -> (action:
    BurnAction)
    requires
        old(fire).wf(),
        !tick.is_over() ==> burnable(tick.cols, tick.rows),
        !tick.is_over() ==> palette@.len() > MAX_HEAT,
    ensures
        final(fire).wf(),
        action == turn(
            old(fire).flames(),
            old(fire).cols,
            old(fire).rows,
            old(fire).settings,
            tick,
        ),
        tick.is_over() ==> *final(fire) == *old(fire) && final(frame)@ == old(frame)@,
        !tick.is_over() ==> {
            &&& final(fire).cols == tick.cols
            &&& final(fire).rows == tick.rows
            &&& final(fire).settings == old(fire).settings
            &&& final(fire).flames() == old(fire).flames_after(tick)
            &&& final(frame)@ == turn_frame(
                old(fire).flames(),
                old(fire).cols,
                old(fire).rows,
                old(fire).settings,
                palette@,
                tick,
            )
        },
{
    if tick.interrupted || tick.elapsed > MAX_DURATION {
        return BurnAction::Stop;
    }
    fire.advance(tick);
    render(frame, &fire.grid, fire.cols, fire.rows, palette);
    if tick.elapsed > tick.cool_at {
        let hottest = peak(&fire.grid);
        if hottest < DIE_OUT_THRESHOLD {
            return BurnAction::ShowAndStop;
        }
        proof {
            if fire.grid@.len() > 0 {
                let i = choose|i: int| 0 <= i < fire.grid@.len() && fire.grid@[i] == hottest;
                assert(fire.grid@[i] >= DIE_OUT_THRESHOLD);
            }
        }
    }
    BurnAction::ShowAndWait
}

/// The frames that a run shows: one for each tick, up to the turn that ends it.
pub open spec fn frames(
    flames: Flames,
    cols: usize,
    rows: usize,
    settings: AnimSettings,
    palette: Seq<Rgb>,
    ticks: Seq<Tick>,
) -> Seq<Seq<char>>
    decreases ticks.len(),
{
    if ticks.len() == 0 {
        Seq::empty()
    } else {
        let tick = ticks.first();
        let frame = turn_frame(flames, cols, rows, settings, palette, tick);
        match turn(flames, cols, rows, settings, tick) {
            BurnAction::Stop => Seq::empty(),
            BurnAction::ShowAndStop => seq![frame],
            BurnAction::ShowAndWait => seq![frame] + frames(
                burned(flames, cols, rows, settings, tick),
                tick.cols,
                tick.rows,
                settings,
                palette,
                ticks.drop_first(),
            ),
        }
    }
}

/// Whether one of the ticks ends the run.
pub open spec fn ends(
    flames: Flames,
    cols: usize,
    rows: usize,
    settings: AnimSettings,
    ticks: Seq<Tick>,
) -> bool
    decreases ticks.len(),
{
    ticks.len() > 0 && (turn(flames, cols, rows, settings, ticks.first()) is ShowAndWait ==> ends(
        burned(flames, cols, rows, settings, ticks.first()),
        ticks.first().cols,
        ticks.first().rows,
        settings,
        ticks.drop_first(),
    ))
}

/// What the turns of a run write, one behind the other.
pub open spec fn turns_text(
    flames: Flames,
    cols: usize,
    rows: usize,
    settings: AnimSettings,
    palette: Seq<Rgb>,
    ticks: Seq<Tick>,
) -> Seq<char>
    decreases ticks.len(),
{
    if ticks.len() == 0 {
        Seq::empty()
    } else {
        let tick = ticks.first();
        let action = turn(flames, cols, rows, settings, tick);
        let text = turn_text(action, turn_frame(flames, cols, rows, settings, palette, tick));
        if action is ShowAndWait {
            text + turns_text(
                burned(flames, cols, rows, settings, tick),
                tick.cols,
                tick.rows,
                settings,
                palette,
                ticks.drop_first(),
            )
        } else {
            text
        }
    }
}

/// All that a run writes to the terminal.
pub open spec fn run_text(
    flames: Flames,
    cols: usize,
    rows: usize,
    settings: AnimSettings,
    palette: Seq<Rgb>,
    ticks: Seq<Tick>,
) -> Seq<char> {
    BURN_BEGIN@ + turns_text(flames, cols, rows, settings, palette, ticks)
}

proof fn lemma_turns_write_frames(
    flames: Flames,
    cols: usize,
    rows: usize,
    settings: AnimSettings,
    palette: Seq<Rgb>,
    ticks: Seq<Tick>,
)
    ensures
        turns_text(flames, cols, rows, settings, palette, ticks) == frames(
            flames,
            cols,
            rows,
            settings,
            palette,
            ticks,
        ).flatten() + (if ends(flames, cols, rows, settings, ticks) {
            BURN_END@
        } else {
            Seq::empty()
        }),
    decreases ticks.len(),
{
    let shown = frames(flames, cols, rows, settings, palette, ticks);
    if ticks.len() > 0 {
        let tick = ticks.first();
        let frame = turn_frame(flames, cols, rows, settings, palette, tick);
        let later = ticks.drop_first();
        let next = burned(flames, cols, rows, settings, tick);
        match turn(flames, cols, rows, settings, tick) {
            BurnAction::Stop => {},
            BurnAction::ShowAndStop => {
                assert(shown.drop_first() =~= Seq::<Seq<char>>::empty());
                assert(shown.drop_first().flatten() =~= Seq::<char>::empty());
                assert(shown.flatten() =~= frame);
            },
            BurnAction::ShowAndWait => {
                lemma_turns_write_frames(next, tick.cols, tick.rows, settings, palette, later);
                let rest = frames(next, tick.cols, tick.rows, settings, palette, later);
                assert(shown.drop_first() =~= rest);
                assert(shown.flatten() == frame + rest.flatten());
            },
        }
    }
}

/// However a run ends, it has written the beginning, then its frames in order, then
/// the end, and nothing else; as long as it goes on, the end is all that is missing.
pub proof fn lemma_run_writes_frames(
    flames: Flames,
    cols: usize,
    rows: usize,
    settings: AnimSettings,
    palette: Seq<Rgb>,
    ticks: Seq<Tick>,
)
    ensures
        ends(flames, cols, rows, settings, ticks) ==> run_text(
            flames,
            cols,
            rows,
            settings,
            palette,
            ticks,
        ) == BURN_BEGIN@ + frames(flames, cols, rows, settings, palette, ticks).flatten()
            + BURN_END@,
        !ends(flames, cols, rows, settings, ticks) ==> run_text(
            flames,
            cols,
            rows,
            settings,
            palette,
            ticks,
        ) == BURN_BEGIN@ + frames(flames, cols, rows, settings, palette, ticks).flatten(),
{
    lemma_turns_write_frames(flames, cols, rows, settings, palette, ticks);
}

/// A run ends with the first tick at which the animation is over, if not before.
pub proof fn lemma_run_ends_when_over(
    flames: Flames,
    cols: usize,
    rows: usize,
    settings: AnimSettings,
    ticks: Seq<Tick>,
    k: int,
)
    requires
        0 <= k < ticks.len(),
        ticks[k].is_over(),
    ensures
        ends(flames, cols, rows, settings, ticks),
    decreases k,
{
    if k > 0 {
        lemma_run_ends_when_over(
            burned(flames, cols, rows, settings, ticks.first()),
            ticks.first().cols,
            ticks.first().rows,
            settings,
            ticks.drop_first(),
            k - 1,
        );
    }
}

/// While the fire is fed, every frame shows its source row at full heat.
pub proof fn lemma_fed_source_is_full(
    flames: Flames,
    cols: usize,
    rows: usize,
    settings: AnimSettings,
    tick: Tick,
    j: int,
)
    requires
        flames.grid.len() == cols * rows,
        tick.rows > 0,
        !tick.is_cooling(),
        in_row(j, tick.cols as int, source_row(tick.rows as int, settings.direction)),
    ensures
        burned(flames, cols, rows, settings, tick).grid[j] == MAX_HEAT,
{
    let cells = tick.cols as int;
    let y = source_row(tick.rows as int, settings.direction);
    lemma_cell_index(cells, tick.rows as int, y, j - y * cells);
    let resized = if tick.cols != cols || tick.rows != rows {
        fresh_grid(cells, tick.rows as int, settings.direction)
    } else {
        flames.grid
    };
    let fed = refreshed(resized, cells, tick.rows as int, settings.direction);
    lemma_source_kept(
        Flames { grid: fed, state: flames.state },
        cells,
        tick.rows as int,
        settings,
        STEPS_PER_FRAME as nat,
        j,
    );
}

/// Whether every tick finds the fire cooling on a screen of the given size.
pub open spec fn all_cooling(ticks: Seq<Tick>, cols: usize, rows: usize) -> bool {
    forall|k: int|
        #![trigger ticks[k]]
        0 <= k < ticks.len() ==> ticks[k].is_cooling() && ticks[k].cols == cols && ticks[k].rows
            == rows
}

proof fn lemma_all_but_last_cooling(ticks: Seq<Tick>, cols: usize, rows: usize)
    requires
        ticks.len() > 0,
        all_cooling(ticks, cols, rows),
    ensures
        all_cooling(ticks.drop_last(), cols, rows),
        ticks.last().is_cooling() && ticks.last().cols == cols && ticks.last().rows == rows,
{
    let earlier = ticks.drop_last();
    assert forall|k: int| 0 <= k < earlier.len() implies #[trigger] earlier[k] == ticks[k] by {}
    assert(ticks[ticks.len() - 1] == ticks.last());
}

/// The flames after several ticks on a screen that keeps its size.
pub open spec fn burned_through(
    flames: Flames,
    cols: usize,
    rows: usize,
    settings: AnimSettings,
    ticks: Seq<Tick>,
) -> Flames
    decreases ticks.len(),
{
    if ticks.len() == 0 {
        flames
    } else {
        burned(
            burned_through(flames, cols, rows, settings, ticks.drop_last()),
            cols,
            rows,
            settings,
            ticks.last(),
        )
    }
}

/// A cooling fire never flares up: on a screen that keeps its size no cell ever gets
/// hotter than the hottest was.
pub proof fn lemma_cooling_never_flares(
    flames: Flames,
    cols: usize,
    rows: usize,
    settings: AnimSettings,
    ticks: Seq<Tick>,
    limit: u8,
)
    requires
        flames.grid.len() == cols * rows,
        rows > 0,
        all_cooling(ticks, cols, rows),
        at_most(flames.grid, limit),
    ensures
        burned_through(flames, cols, rows, settings, ticks).grid.len() == flames.grid.len(),
        at_most(burned_through(flames, cols, rows, settings, ticks).grid, limit),
    decreases ticks.len(),
{
    if ticks.len() > 0 {
        let earlier = ticks.drop_last();
        lemma_all_but_last_cooling(ticks, cols, rows);
        lemma_cooling_never_flares(flames, cols, rows, settings, earlier, limit);
        lemma_steps_no_hotter(
            burned_through(flames, cols, rows, settings, earlier),
            cols as int,
            rows as int,
            settings,
            true,
            STEPS_PER_FRAME as nat,
            limit,
        );
    }
}

/// A fire that is out stays out: once a cooling fire has died, no later frame of it
/// holds a burning cell.
pub proof fn lemma_dead_stays_dead(
    flames: Flames,
    cols: usize,
    rows: usize,
    settings: AnimSettings,
    ticks: Seq<Tick>,
)
    requires
        flames.grid.len() == cols * rows,
        rows > 0,
        all_cooling(ticks, cols, rows),
        died_out(flames.grid),
    ensures
        died_out(burned_through(flames, cols, rows, settings, ticks).grid),
{
    let limit = (DIE_OUT_THRESHOLD - 1) as u8;
    assert(at_most(flames.grid, limit));
    lemma_cooling_never_flares(flames, cols, rows, settings, ticks, limit);
    let after = burned_through(flames, cols, rows, settings, ticks).grid;
    assert forall|i: int| 0 <= i < after.len() implies #[trigger] after[i]
        < DIE_OUT_THRESHOLD by {}
}

/// Once the fire is no longer fed, its source loses at least two degrees with each
/// step of each frame, so it is cold after nine frames.
pub proof fn lemma_source_goes_cold(
    flames: Flames,
    cols: usize,
    rows: usize,
    settings: AnimSettings,
    ticks: Seq<Tick>,
    j: int,
)
    requires
        flames.grid.len() == cols * rows,
        rows > 0,
        all_cooling(ticks, cols, rows),
        at_most(flames.grid, MAX_HEAT),
        in_row(j, cols as int, source_row(rows as int, settings.direction)),
    ensures
        burned_through(flames, cols, rows, settings, ticks).grid[j] <= lowered(
            flames.grid[j],
            2 * STEPS_PER_FRAME * ticks.len(),
        ),
        ticks.len() >= 9 ==> burned_through(flames, cols, rows, settings, ticks).grid[j] == 0,
    decreases ticks.len(),
{
    let y = source_row(rows as int, settings.direction);
    lemma_cell_index(cols as int, rows as int, y, j - y * cols);
    if ticks.len() > 0 {
        let earlier = ticks.drop_last();
        lemma_all_but_last_cooling(ticks, cols, rows);
        lemma_cooling_never_flares(flames, cols, rows, settings, earlier, MAX_HEAT);
        lemma_source_goes_cold(flames, cols, rows, settings, earlier, j);
        lemma_source_fades(
            burned_through(flames, cols, rows, settings, earlier),
            cols as int,
            rows as int,
            settings,
            STEPS_PER_FRAME as nat,
            j,
        );
    }
    assert(flames.grid[j] <= MAX_HEAT);
}

/// Whether a frame that is due at `tick` starts from the heat `heat` in row `y` and column
/// `x`: full heat where the fire is fed there or newly lit, cold elsewhere on a screen of a
/// new size, and otherwise as `flames` has it.
pub open spec fn starts_from(
    heat: u8,
    flames: Flames,
    cols: usize,
    rows: usize,
    top_down: bool,
    tick: Tick,
    y: int,
    x: int,
) -> bool {
    let resized = tick.cols != cols || tick.rows != rows;
    let source = if top_down {
        y == 0
    } else {
        y + 1 == tick.rows
    };
    &&& source && (resized || tick.elapsed <= tick.cool_at) ==> heat == 36
    &&& !source && resized ==> heat == 0
    &&& !resized && !(source && tick.elapsed <= tick.cool_at) ==> heat == flames.grid[y
        * tick.cols + x]
}

/// Whether a frame that is due at `tick` starts from `start`.
pub open spec fn is_start(
    start: Flames,
    flames: Flames,
    cols: usize,
    rows: usize,
    top_down: bool,
    tick: Tick,
) -> bool {
    &&& start.state == flames.state
    &&& start.grid.len() == tick.cols * tick.rows
    &&& forall|y: int, x: int|
        0 <= y < tick.rows && 0 <= x < tick.cols ==> #[trigger] starts_from(
            start.grid[y * tick.cols + x],
            flames,
            cols,
            rows,
            top_down,
            tick,
            y,
            x,
        )
}

/// Whether two steps lead from `start` through `mid` to `end`, with cooling once the fire is
/// no longer fed.
pub open spec fn is_two_steps(
    start: Flames,
    mid: Flames,
    end: Flames,
    settings: AnimSettings,
    tick: Tick,
) -> bool {
    let cols = tick.cols as int;
    let rows = tick.rows as int;
    &&& is_step(start, mid, cols, rows, settings, tick.elapsed > tick.cool_at)
    &&& is_step(mid, end, cols, rows, settings, tick.elapsed > tick.cool_at)
}

/// A frame is two steps from where it starts, with cooling once the fire is no longer fed.
pub proof fn lemma_frame_is_two_steps(
    flames: Flames,
    cols: usize,
    rows: usize,
    settings: AnimSettings,
    tick: Tick,
)
    requires
        flames.grid.len() == cols * rows,
        tick.rows > 0,
    ensures
        exists|start: Flames, mid: Flames|
            {
                &&& is_start(start, flames, cols, rows, settings.direction, tick)
                &&& #[trigger] is_two_steps(
                    start,
                    mid,
                    burned(flames, cols, rows, settings, tick),
                    settings,
                    tick,
                )
            },
{
    let width = tick.cols as int;
    let height = tick.rows as int;
    let cooling = tick.elapsed > tick.cool_at;
    let resized = if tick.cols != cols || tick.rows != rows {
        fresh_grid(width, height, settings.direction)
    } else {
        flames.grid
    };
    let fed = if cooling {
        resized
    } else {
        refreshed(resized, width, height, settings.direction)
    };
    let start = Flames { grid: fed, state: flames.state };
    assert(0 <= width * height) by (nonlinear_arith)
        requires
            0 <= width,
            0 < height,
    ;
    assert(resized.len() == width * height);
    assert forall|y: int, x: int| 0 <= y < height && 0 <= x < width implies #[trigger] starts_from(
        start.grid[y * tick.cols + x],
        flames,
        cols,
        rows,
        settings.direction,
        tick,
        y,
        x,
    ) by {
        lemma_fresh_grid(width, height, settings.direction, y, x);
        lemma_feeding(resized, width, height, settings.direction, y, x);
    }
    let mid = stepped(start, width, height, settings, cooling);
    lemma_step_moves_heat(start, width, height, settings, cooling);
    lemma_steps_no_hotter(start, width, height, settings, cooling, 1, u8::MAX);
    reveal_with_fuel(steps, 3);
    assert(steps(start, width, height, settings, cooling, 1) == mid);
    lemma_step_moves_heat(mid, width, height, settings, cooling);
    assert(burned(flames, cols, rows, settings, tick) == stepped(
        mid,
        width,
        height,
        settings,
        cooling,
    ));
    assert(is_start(start, flames, cols, rows, settings.direction, tick));
    assert(is_two_steps(
        start,
        mid,
        burned(flames, cols, rows, settings, tick),
        settings,
        tick,
    ));
}

/// Flames rise: in every frame of a fed fire the row next to its source is burning, with a
/// cell at no less than 32 degrees, on a screen of any size.
pub proof fn lemma_fed_fire_burns(
    flames: Flames,
    cols: usize,
    rows: usize,
    settings: AnimSettings,
    tick: Tick,
)
    requires
        flames.grid.len() == cols * rows,
        tick.cols > 0,
        tick.rows > 1,
        tick.elapsed <= tick.cool_at,
    ensures
        burns(
            burned(flames, cols, rows, settings, tick).grid,
            tick.cols as int,
            if settings.direction {
                1
            } else {
                tick.rows - 2
            },
            32,
        ),
{
    let width = tick.cols as int;
    let height = tick.rows as int;
    let resized = if tick.cols != cols || tick.rows != rows {
        fresh_grid(width, height, settings.direction)
    } else {
        flames.grid
    };
    let y = source_row(height, settings.direction);
    lemma_cell_index(width, height, y, width - 1);
    let fed = refreshed(resized, width, height, settings.direction);
    let start = Flames { grid: fed, state: flames.state };
    assert(fed.len() == width * height);
    let mid = stepped(start, width, height, settings, false);
    reveal_with_fuel(steps, 3);
    assert(steps(start, width, height, settings, false, 1) == mid);
    lemma_steps_no_hotter(start, width, height, settings, false, 1, u8::MAX);
    lemma_source_kept(start, width, height, settings, 1, y * width + width - 1);
    lemma_fire_catches(mid, width, height, settings);
    assert(burned(flames, cols, rows, settings, tick) == stepped(
        mid,
        width,
        height,
        settings,
        false,
    ));
}

/// The animation stops when it is interrupted or lasts longer than 2.2 seconds. Else it
/// shows a frame, which is the last where the fire is no longer fed and every cell of the
/// frame is below two degrees.
pub proof fn lemma_when_a_run_ends(
    flames: Flames,
    cols: usize,
    rows: usize,
    settings: AnimSettings,
    tick: Tick,
)
    ensures
        turn(flames, cols, rows, settings, tick) is Stop <==> tick.interrupted || tick.elapsed
            > 2_200_000_000,
        turn(flames, cols, rows, settings, tick) is ShowAndStop <==> {
            &&& !tick.interrupted
            &&& tick.cool_at < tick.elapsed <= 2_200_000_000
            &&& forall|i: int|
                0 <= i < burned(flames, cols, rows, settings, tick).grid.len() ==> #[trigger] burned(
                    flames,
                    cols,
                    rows,
                    settings,
                    tick,
                ).grid[i] < 2
        },
{
}

/// The frame of a turn shows, on the whole screen that the terminal has at the time, every
/// cell of the flames in the colour that the palette has for its heat.
pub proof fn lemma_turn_shows_flames(
    flames: Flames,
    cols: usize,
    rows: usize,
    settings: AnimSettings,
    palette: Seq<Rgb>,
    tick: Tick,
)
    ensures
        exists|tokens: Seq<Token>|
            {
                &&& #[trigger] tokens_text(tokens) == turn_frame(
                    flames,
                    cols,
                    rows,
                    settings,
                    palette,
                    tick,
                )
                &&& shown(tokens).rows.len() == tick.rows
                &&& forall|y: int, x: int|
                    #![trigger shown(tokens).rows[y][x]]
                    0 <= y < tick.rows && 0 <= x < tick.cols ==> {
                        let heat = burned(flames, cols, rows, settings, tick).grid[y * tick.cols
                            + x];
                        &&& shown(tokens).rows[y].len() == tick.cols
                        &&& heat == 0 ==> shown(tokens).rows[y][x] == Some(CellColor::Default)
                        &&& heat > 0 ==> shown(tokens).rows[y][x] == Some(
                            CellColor::Rgb(
                                palette[heat as int].0,
                                palette[heat as int].1,
                                palette[heat as int].2,
                            ),
                        )
                    }
            },
{
    let grid = burned(flames, cols, rows, settings, tick).grid;
    let tokens = frame_tokens(grid, palette, tick.cols as nat, tick.rows as nat);
    lemma_frame_shows_grid(grid, palette, tick.cols as nat, tick.rows as nat);
    assert(tokens_text(tokens) == turn_frame(flames, cols, rows, settings, palette, tick));
    assert forall|y: int, x: int|
        #![trigger shown(tokens).rows[y][x]]
        0 <= y < tick.rows && 0 <= x < tick.cols implies {
        let heat = grid[y * tick.cols + x];
        &&& shown(tokens).rows[y].len() == tick.cols
        &&& heat == 0 ==> shown(tokens).rows[y][x] == Some(CellColor::Default)
        &&& heat > 0 ==> shown(tokens).rows[y][x] == Some(
            CellColor::Rgb(
                palette[heat as int].0,
                palette[heat as int].1,
                palette[heat as int].2,
            ),
        )
    } by {
        lemma_cells_have_palette_colors(
            grid,
            palette,
            tick.cols as nat,
            tick.rows as nat,
            y,
            x,
        );
    }
}

} // verus!
