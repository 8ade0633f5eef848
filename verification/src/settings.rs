//! The animation settings and the screen that edits them.

use crate::ansi::{push_bg, push_bold_fg, push_clear_line, push_fg, push_move_to, push_reset};
#[allow(unused_imports)]
use crate::ansi::{bg, bold_fg, clear_line, fg, move_to, reset};
use crate::key::Key;
use crate::screen::{
    push_hint, push_hints_open, push_separator, push_title_bar, ENTRY_FG, SELECTED_BG, SELECTED_FG,
};
#[allow(unused_imports)]
use crate::screen::{hint, hints_open, minus, separator, title_bar};
use crate::text::{byte_len, push_padded, push_repeated};
#[allow(unused_imports)]
use crate::text::{
    fills, group_empty_text, is_line_of, lemma_padded_fills, lemma_utf8_len_ascii, padded,
    repeated, utf8_len,
};
use vstd::prelude::*;

verus! {

/// What the user can adjust about the animation.
#[derive(Clone, Copy, Debug, PartialEq, Eq, Structural)]
pub struct AnimSettings {
    /// Frames per second.
    pub fps: u32,
    /// Sideways drift, from -2 (strong left) to 2 (strong right).
    pub wind: i32,
    /// Flame height, from 0 (low) to 3 (extreme).
    pub height: u32,
    /// Whether the fire falls from the top instead of rising from the bottom.
    pub direction: bool,
}

/// The frame rate that the right arrow key gives; one off the menu is kept.
pub open spec fn faster(fps: u32) -> u32 {
    if fps == 15 {
        30
    } else if fps == 30 {
        45
    } else if fps == 45 {
        60
    } else if fps == 60 {
        75
    } else if fps == 75 {
        90
    } else if fps == 90 {
        120
    } else if fps == 120 {
        15
    } else {
        fps
    }
}

/// The frame rate that the left arrow key gives; one off the menu is kept.
pub open spec fn slower(fps: u32) -> u32 {
    if fps == 15 {
        120
    } else if fps == 30 {
        15
    } else if fps == 45 {
        30
    } else if fps == 60 {
        45
    } else if fps == 75 {
        60
    } else if fps == 90 {
        75
    } else if fps == 120 {
        90
    } else {
        fps
    }
}

/// Whether `fps` is one of the frame rates on the menu.
pub open spec fn on_menu(fps: u32) -> bool {
    fps == 15 || fps == 30 || fps == 45 || fps == 60 || fps == 75 || fps == 90 || fps == 120
}

impl AnimSettings {
    /// Whether every setting is one that the menu offers.
    pub open spec fn valid(self) -> bool {
        &&& on_menu(self.fps)
        &&& -2 <= self.wind <= 2
        &&& self.height <= 3
    }

    /// The settings after the left arrow key on row `row`.
    pub open spec fn turned_down(self, row: usize) -> AnimSettings {
        if row == 0 {
            AnimSettings { fps: slower(self.fps), ..self }
        } else if row == 1 {
            AnimSettings {
                wind: if self.wind > -2 {
                    (self.wind - 1) as i32
                } else {
                    2
                },
                ..self
            }
        } else if row == 2 {
            AnimSettings {
                height: if self.height > 0 {
                    (self.height - 1) as u32
                } else {
                    3
                },
                ..self
            }
        } else if row == 3 {
            AnimSettings { direction: !self.direction, ..self }
        } else {
            self
        }
    }

    /// The settings after the right arrow key on row `row`.
    pub open spec fn turned_up(self, row: usize) -> AnimSettings {
        if row == 0 {
            AnimSettings { fps: faster(self.fps), ..self }
        } else if row == 1 {
            AnimSettings {
                wind: if self.wind < 2 {
                    (self.wind + 1) as i32
                } else {
                    (-2) as i32
                },
                ..self
            }
        } else if row == 2 {
            AnimSettings {
                height: if self.height < 3 {
                    (self.height + 1) as u32
                } else {
                    0
                },
                ..self
            }
        } else if row == 3 {
            AnimSettings { direction: !self.direction, ..self }
        } else {
            self
        }
    }
}

/// The settings screen: the settings as edited so far, and the selected row.
#[derive(Clone, Copy, Debug, PartialEq, Eq, Structural)]
pub struct SettingsScreen {
    pub settings: AnimSettings,
    pub selected: usize,
}

/// What is to be done after a key press on the settings screen.
#[derive(Clone, Copy, Debug, PartialEq, Eq, Structural)]
pub enum SettingsAction {
    /// Draw the screen again and read the next key.
    Redraw,
    /// Close the screen with these settings.
    Save(AnimSettings),
    /// Close the screen and keep the settings as they were before.
    Cancel,
}

impl SettingsScreen {
    /// Whether the selected row is on the screen and all settings are on the menu.
    pub open spec fn valid(self) -> bool {
        self.selected <= 3 && self.settings.valid()
    }

    /// The screen after a key press.
    pub open spec fn after(self, key: Key) -> SettingsScreen {
        match key {
            Key::Up => SettingsScreen { selected: minus(self.selected as int, 1) as usize, ..self },
            Key::Down => SettingsScreen {
                selected: if self.selected < 3 {
                    (self.selected + 1) as usize
                } else {
                    self.selected
                },
                ..self
            },
            Key::Left => SettingsScreen {
                settings: self.settings.turned_down(self.selected),
                ..self
            },
            Key::Right => SettingsScreen {
                settings: self.settings.turned_up(self.selected),
                ..self
            },
            _ => self,
        }
    }

    /// What a key press asks for.
    pub open spec fn action(self, key: Key) -> SettingsAction {
        match key {
            Key::Enter => SettingsAction::Save(self.settings),
            Key::Char('s') => SettingsAction::Save(self.settings),
            Key::Esc => SettingsAction::Cancel,
            Key::Char('q') => SettingsAction::Cancel,
            _ => SettingsAction::Redraw,
        }
    }

    /// The screen as it opens on the settings `current`.
    pub fn new(current: &AnimSettings) -> (screen: Self)
        ensures
            screen == (SettingsScreen { settings: *current, selected: 0 }),
    {
        SettingsScreen { settings: *current, selected: 0 }
    }
}

/// The place of `fps` on the menu of frame rates.
fn fps_position(options: &[u32; 7], fps: u32) -> (position: Option<usize>)
    ensures
        match position {
            Some(i) => i < 7 && options@[i as int] == fps,
            None => forall|i: int| 0 <= i < 7 ==> options@[i] != fps,
        },
{
    for i in 0..7usize
        invariant
            forall|j: int| 0 <= j < i ==> options@[j] != fps,
    {
        if options[i] == fps {
            return Some(i);
        }
    }
    None
}

/// Handles a key press on the settings screen.
pub fn interactive_settings(screen: &mut SettingsScreen, key: Key) -> (action: SettingsAction)
    ensures
        *final(screen) == old(screen).after(key),
        action == old(screen).action(key),
{
    let fps_options: [u32; 7] = [15, 30, 45, 60, 75, 90, 120];
    match key {
        Key::Up => {
            screen.selected = screen.selected.saturating_sub(1);
        },
        Key::Down => {
            if screen.selected < 3 {
                screen.selected += 1;
            }
        },
        Key::Left => match screen.selected {
            0 => {
                if let Some(i) = fps_position(&fps_options, screen.settings.fps) {
                    screen.settings.fps = if i > 0 {
                        fps_options[i - 1]
                    } else {
                        fps_options[6]
                    };
                }
            },
            1 => {
                screen.settings.wind = if screen.settings.wind > -2 {
                    screen.settings.wind - 1
                } else {
                    2
                };
            },
            2 => {
                screen.settings.height = if screen.settings.height > 0 {
                    screen.settings.height - 1
                } else {
                    3
                };
            },
            3 => {
                screen.settings.direction = !screen.settings.direction;
            },
            _ => {},
        },
        Key::Right => match screen.selected {
            0 => {
                if let Some(i) = fps_position(&fps_options, screen.settings.fps) {
                    screen.settings.fps = if i + 1 < 7 {
                        fps_options[i + 1]
                    } else {
                        fps_options[0]
                    };
                }
            },
            1 => {
                screen.settings.wind = if screen.settings.wind < 2 {
                    screen.settings.wind + 1
                } else {
                    -2
                };
            },
            2 => {
                screen.settings.height = if screen.settings.height < 3 {
                    screen.settings.height + 1
                } else {
                    0
                };
            },
            3 => {
                screen.settings.direction = !screen.settings.direction;
            },
            _ => {},
        },
        Key::Enter | Key::Char('s') => return SettingsAction::Save(screen.settings),
        Key::Esc | Key::Char('q') => return SettingsAction::Cancel,
        _ => {},
    }
    SettingsAction::Redraw
}

/// The screen after several key presses.
pub open spec fn after_keys(screen: SettingsScreen, keys: Seq<Key>) -> SettingsScreen
    decreases keys.len(),
{
    if keys.len() == 0 {
        screen
    } else {
        after_keys(screen, keys.drop_last()).after(keys.last())
    }
}

/// Whatever keys are pressed, the selection stays on the screen and every setting
/// stays on the menu, so only settings from the menu are ever saved.
pub proof fn lemma_screen_stays_valid(screen: SettingsScreen, keys: Seq<Key>, key: Key)
    requires
        screen.valid(),
    ensures
        after_keys(screen, keys).valid(),
        after_keys(screen, keys).action(key) matches SettingsAction::Save(settings)
            ==> settings.valid(),
    decreases keys.len(),
{
    if keys.len() > 0 {
        lemma_screen_stays_valid(screen, keys.drop_last(), key);
    }
}

/// The left and right arrow keys undo each other on settings from the menu.
pub proof fn lemma_arrows_undo_each_other(screen: SettingsScreen)
    requires
        screen.settings.valid(),
    ensures
        screen.after(Key::Left).after(Key::Right) == screen,
        screen.after(Key::Right).after(Key::Left) == screen,
{
}

/// A key press changes at most the setting on the selected row.
pub proof fn lemma_other_rows_are_kept(screen: SettingsScreen, key: Key)
    ensures
        screen.selected != 0 ==> screen.after(key).settings.fps == screen.settings.fps,
        screen.selected != 1 ==> screen.after(key).settings.wind == screen.settings.wind,
        screen.selected != 2 ==> screen.after(key).settings.height == screen.settings.height,
        screen.selected != 3 ==> screen.after(key).settings.direction
            == screen.settings.direction,
{
}

/// The settings after the right arrow key has been pressed `n` times on row `row`.
pub open spec fn turned_up_times(settings: AnimSettings, row: usize, n: nat) -> AnimSettings
    decreases n,
{
    if n == 0 {
        settings
    } else {
        turned_up_times(settings, row, (n - 1) as nat).turned_up(row)
    }
}

/// How many values the menu offers on row `row`.
pub open spec fn choices(row: usize) -> nat {
    if row == 0 {
        7
    } else if row == 1 {
        5
    } else if row == 2 {
        4
    } else {
        2
    }
}

/// The arrow keys go round: after as many presses as a row has values, and not
/// before, a setting from the menu is back where it was.
pub proof fn lemma_arrows_go_round(settings: AnimSettings, row: usize, n: nat)
    requires
        settings.valid(),
        row <= 3,
        0 < n <= choices(row),
    ensures
        turned_up_times(settings, row, n) == settings <==> n == choices(row),
{
    reveal_with_fuel(turned_up_times, 8);
}

/// What the screen says of a frame rate.
pub open spec fn fps_label(fps: u32) -> Seq<char> {
    if fps == 15 {
        "15 fps  (extremely slow / cinematic)"@
    } else if fps == 30 {
        "30 fps  (standard retro feel)"@
    } else if fps == 45 {
        "45 fps  (smooth legacy animation)"@
    } else if fps == 60 {
        "60 fps  (default smooth 60fps)"@
    } else if fps == 75 {
        "75 fps  (high refresh rate)"@
    } else if fps == 90 {
        "90 fps  (ultra high refresh rate)"@
    } else if fps == 120 {
        "120 fps (blazing fast execution)"@
    } else {
        "custom fps"@
    }
}

/// What the screen says of a wind.
pub open spec fn wind_label(wind: i32) -> Seq<char> {
    if wind == -2 {
        "Strong Left   (blowing hard left)"@
    } else if wind == -1 {
        "Gentle Left   (gently drifting left)"@
    } else if wind == 0 {
        "None          (rising straight up)"@
    } else if wind == 1 {
        "Gentle Right  (gently drifting right)"@
    } else if wind == 2 {
        "Strong Right  (blowing hard right)"@
    } else {
        "unknown wind"@
    }
}

/// What the screen says of a flame height.
pub open spec fn height_label(height: u32) -> Seq<char> {
    if height == 0 {
        "Low           (fast decay, small fire)"@
    } else if height == 1 {
        "Medium        (default height decay)"@
    } else if height == 2 {
        "High          (slow decay, tall flames)"@
    } else if height == 3 {
        "Extreme       (minimum decay, full screen)"@
    } else {
        "unknown height"@
    }
}

/// What the screen says of a fire direction.
pub open spec fn direction_label(direction: bool) -> Seq<char> {
    if direction {
        "Top → Bottom  (falling fire effect)"@
    } else {
        "Bottom → Top  (classic rising flames)"@
    }
}

/// The names of the four rows.
pub open spec fn row_name(row: int) -> Seq<char> {
    if row == 0 {
        "FPS / Speed    "@
    } else if row == 1 {
        "Wind / Breeze  "@
    } else if row == 2 {
        "Flame Height   "@
    } else {
        "Fire Direction "@
    }
}

/// The values on the four rows.
pub open spec fn row_value(row: int, settings: AnimSettings) -> Seq<char> {
    if row == 0 {
        fps_label(settings.fps)
    } else if row == 1 {
        wind_label(settings.wind)
    } else if row == 2 {
        height_label(settings.height)
    } else {
        direction_label(settings.direction)
    }
}

/// A row that is not selected.
pub open spec fn plain_row(name: Seq<char>, value: Seq<char>) -> Seq<char> {
    "    "@ + name + "      "@ + fg(ENTRY_FG) + value + reset()
}

/// The selected row. It is filled up to the screen's width, with 74 columns taken.
pub open spec fn selected_row(name: Seq<char>, value: Seq<char>, cols: usize) -> Seq<char> {
    bg(SELECTED_BG) + "  ▸ "@ + bold_fg(SELECTED_FG) + name + reset() + bg(SELECTED_BG)
        + "   ◀  "@ + bold_fg((255, 255, 255)) + padded(value, 44) + reset() + "◀   "@ + repeated(
        ' ',
        minus(cols as int, 74),
    ) + reset()
}

/// One row of the settings screen; the rows stand two screen rows apart.
pub open spec fn settings_row(
    row: int,
    selected: usize,
    settings: AnimSettings,
    cols: usize,
) -> Seq<char> {
    move_to((3 + 2 * row) as u16) + clear_line() + (if row == selected {
        selected_row(row_name(row), row_value(row, settings), cols)
    } else {
        plain_row(row_name(row), row_value(row, settings))
    })
}

/// The settings screen.
pub open spec fn settings_text(
    selected: usize,
    settings: AnimSettings,
    cols: usize,
    rows: usize,
) -> Seq<char> {
    title_bar(" pyroclear  ◆  animation settings "@, cols) + settings_row(
        0,
        selected,
        settings,
        cols,
    ) + settings_row(1, selected, settings, cols) + settings_row(2, selected, settings, cols)
        + settings_row(3, selected, settings, cols) + separator(12, cols) + hints_open(rows as u16)
        + hint("↑↓"@, " navigate  "@) + hint("←→"@, " adjust  "@) + hint(
        "Enter/s"@,
        " save & run  "@,
    ) + hint("Esc/q"@, " cancel "@) + reset()
}

fn fps_name(fps: u32) -> (label: &'static str)
    ensures
        label@ == fps_label(fps),
{
    match fps {
        15 => "15 fps  (extremely slow / cinematic)",
        30 => "30 fps  (standard retro feel)",
        45 => "45 fps  (smooth legacy animation)",
        60 => "60 fps  (default smooth 60fps)",
        75 => "75 fps  (high refresh rate)",
        90 => "90 fps  (ultra high refresh rate)",
        120 => "120 fps (blazing fast execution)",
        _ => "custom fps",
    }
}

fn wind_name(wind: i32) -> (label: &'static str)
    ensures
        label@ == wind_label(wind),
{
    match wind {
        -2 => "Strong Left   (blowing hard left)",
        -1 => "Gentle Left   (gently drifting left)",
        0 => "None          (rising straight up)",
        1 => "Gentle Right  (gently drifting right)",
        2 => "Strong Right  (blowing hard right)",
        _ => "unknown wind",
    }
}

fn height_name(height: u32) -> (label: &'static str)
    ensures
        label@ == height_label(height),
{
    match height {
        0 => "Low           (fast decay, small fire)",
        1 => "Medium        (default height decay)",
        2 => "High          (slow decay, tall flames)",
        3 => "Extreme       (minimum decay, full screen)",
        _ => "unknown height",
    }
}

fn direction_name(direction: bool) -> (label: &'static str)
    ensures
        label@ == direction_label(direction),
{
    if direction {
        "Top → Bottom  (falling fire effect)"
    } else {
        "Bottom → Top  (classic rising flames)"
    }
}

/// A row that is not selected, see [`plain_row`].
fn draw_plain_row(name: &str, value: &str) -> (text: String)
    ensures
        text@ == plain_row(name@, value@),
{
    broadcast use group_empty_text;

    let mut text = String::new();
    text.append("    ");
    text.append(name);
    text.append("      ");
    push_fg(&mut text, ENTRY_FG);
    text.append(value);
    push_reset(&mut text);
    text
}

/// The selected row, see [`selected_row`].
fn draw_selected_row(name: &str, value: &str, cols: usize) -> (text: String)
    requires
        utf8_len(name@) == 15,
    ensures
        text@ == selected_row(name@, value@, cols),
{
    broadcast use group_empty_text;

    let mut text = String::new();
    push_bg(&mut text, SELECTED_BG);
    text.append("  ▸ ");
    push_bold_fg(&mut text, SELECTED_FG);
    text.append(name);
    push_reset(&mut text);
    push_bg(&mut text, SELECTED_BG);
    text.append("   ◀  ");
    push_bold_fg(&mut text, (255, 255, 255));
    push_padded(&mut text, value, 44);
    push_reset(&mut text);
    text.append("◀   ");
    let taken: usize = 4 + 1 + byte_len(name) + 6 + 44 + 4;
    push_repeated(&mut text, ' ', cols.saturating_sub(taken));
    push_reset(&mut text);
    text
}

/// One row of the settings screen, see [`settings_row`].
fn draw_row(
    row: u16,
    selected: bool,
    name: &str,
    value: &str,
    cols: usize,
) -> (text: String)
    requires
        row <= 3,
        utf8_len(name@) == 15,
    ensures
        text@ == move_to((3 + 2 * row) as u16) + clear_line() + (if selected {
            selected_row(name@, value@, cols)
        } else {
            plain_row(name@, value@)
        }),
{
    broadcast use group_empty_text;

    let mut text = String::new();
    push_move_to(&mut text, 3 + 2 * row);
    push_clear_line(&mut text);
    let rest = if selected {
        draw_selected_row(name, value, cols)
    } else {
        draw_plain_row(name, value)
    };
    text.append(rest.as_str());
    text
}

/// The title of the settings screen takes 36 bytes.
pub proof fn lemma_settings_title_len()
    ensures
        utf8_len(" pyroclear  ◆  animation settings "@) == 36,
{
    reveal_strlit(" pyroclear  ◆  animation settings ");
    crate::screen::lemma_title_len(" pyroclear  ◆  animation settings "@, 12);
}

/// The names of the rows are as long in bytes as in characters.
proof fn lemma_row_name_len(row: int)
    ensures
        utf8_len(row_name(row)) == 15,
{
    reveal_strlit("FPS / Speed    ");
    reveal_strlit("Wind / Breeze  ");
    reveal_strlit("Flame Height   ");
    reveal_strlit("Fire Direction ");
    lemma_utf8_len_ascii(row_name(row));
}

/// Draws the settings screen.
pub fn draw_settings(selected: usize, settings: &AnimSettings, cols: usize, rows: usize) -> (text:
    String)
    ensures
        text@ == settings_text(selected, *settings, cols, rows),
{
    broadcast use group_empty_text;

    proof {
        lemma_settings_title_len();
        lemma_row_name_len(0);
        lemma_row_name_len(1);
        lemma_row_name_len(2);
        lemma_row_name_len(3);
    }
    let mut text = String::new();
    push_title_bar(&mut text, " pyroclear  ◆  animation settings ", cols);
    let fps = draw_row(0, selected == 0, "FPS / Speed    ", fps_name(settings.fps), cols);
    text.append(fps.as_str());
    let wind = draw_row(1, selected == 1, "Wind / Breeze  ", wind_name(settings.wind), cols);
    text.append(wind.as_str());
    let height = draw_row(2, selected == 2, "Flame Height   ", height_name(settings.height), cols);
    text.append(height.as_str());
    let direction = draw_row(
        3,
        selected == 3,
        "Fire Direction ",
        direction_name(settings.direction),
        cols,
    );
    text.append(direction.as_str());
    push_separator(&mut text, 12, cols);
    push_hints_open(&mut text, rows as u16);
    push_hint(&mut text, "↑↓", " navigate  ");
    push_hint(&mut text, "←→", " adjust  ");
    push_hint(&mut text, "Enter/s", " save & run  ");
    push_hint(&mut text, "Esc/q", " cancel ");
    push_reset(&mut text);
    text
}

/// The up and down keys move by one row and change no setting; they stop at the first and
/// at the fourth row, and each undoes the other where that one has moved.
pub proof fn lemma_moves_between_rows(screen: SettingsScreen)
    ensures
        screen.after(Key::Up).settings == screen.settings,
        screen.after(Key::Down).settings == screen.settings,
        screen.selected > 0 ==> screen.after(Key::Up).selected + 1 == screen.selected,
        screen.selected == 0 ==> screen.after(Key::Up) == screen,
        screen.selected < 3 ==> screen.after(Key::Down).selected == screen.selected + 1,
        screen.selected >= 3 ==> screen.after(Key::Down) == screen,
        screen.selected < 3 ==> screen.after(Key::Down).after(Key::Up) == screen,
        0 < screen.selected <= 3 ==> screen.after(Key::Up).after(Key::Down) == screen,
{
}

/// The right arrow key on the first row gives the next higher frame rate on the menu, and
/// after the highest the lowest; the left one the next lower, and after the lowest the
/// highest. A frame rate that is not on the menu is kept.
pub proof fn lemma_frame_rates_in_order(screen: SettingsScreen, other: u32)
    requires
        screen.selected == 0,
        other == 15 || other == 30 || other == 45 || other == 60 || other == 75 || other == 90
            || other == 120,
    ensures
        ({
            let fps = screen.settings.fps;
            let up = screen.after(Key::Right).settings.fps;
            let down = screen.after(Key::Left).settings.fps;
            if fps == 15 || fps == 30 || fps == 45 || fps == 60 || fps == 75 || fps == 90 || fps
                == 120 {
                &&& fps < 120 ==> up > fps
                &&& fps > 15 ==> down < fps
                &&& fps == 120 ==> up == 15
                &&& fps == 15 ==> down == 120
                &&& !(fps < other < up)
                &&& !(down < other < fps)
                &&& up == 15 || up == 30 || up == 45 || up == 60 || up == 75 || up == 90 || up
                    == 120
                &&& down == 15 || down == 30 || down == 45 || down == 60 || down == 75 || down
                    == 90 || down == 120
            } else {
                up == fps && down == fps
            }
        }),
{
}

/// The arrow keys on the second row turn the wind by one to the right or to the left, and
/// from one end to the other: 2 is followed by -2. A wind beyond an end goes to the other
/// end or one step back.
pub proof fn lemma_wind_turns_by_one(screen: SettingsScreen)
    requires
        screen.selected == 1,
    ensures
        ({
            let wind = screen.settings.wind;
            let right = screen.after(Key::Right).settings.wind;
            let left = screen.after(Key::Left).settings.wind;
            &&& wind < 2 ==> right == wind + 1
            &&& wind >= 2 ==> right == -2
            &&& wind > -2 ==> left == wind - 1
            &&& wind <= -2 ==> left == 2
        }),
{
}

/// The arrow keys on the third row turn the flame height by one, and from one end to the
/// other; those on the fourth row reverse the fire. Below that row they do nothing.
pub proof fn lemma_height_and_direction(screen: SettingsScreen)
    ensures
        screen.selected == 2 ==> {
            let height = screen.settings.height;
            let right = screen.after(Key::Right).settings.height;
            let left = screen.after(Key::Left).settings.height;
            &&& height < 3 ==> right == height + 1
            &&& height >= 3 ==> right == 0
            &&& height > 0 ==> left + 1 == height
            &&& height == 0 ==> left == 3
        },
        screen.selected == 3 ==> {
            &&& screen.after(Key::Right).settings.direction != screen.settings.direction
            &&& screen.after(Key::Left).settings.direction != screen.settings.direction
        },
        screen.selected > 3 ==> screen.after(Key::Right) == screen && screen.after(Key::Left)
            == screen,
        screen.after(Key::Right).selected == screen.selected,
        screen.after(Key::Left).selected == screen.selected,
{
}

/// The enter key and `s` save the settings as they are, escape and `q` close the screen
/// without, and these are all keys that close it; none of them, and no key but the arrows,
/// changes anything on the screen.
pub proof fn lemma_keys_that_close(screen: SettingsScreen, key: Key)
    ensures
        key == Key::Enter || key == Key::Char('s') ==> screen.action(key) == SettingsAction::Save(
            screen.settings,
        ),
        key == Key::Esc || key == Key::Char('q') ==> screen.action(key)
            == SettingsAction::Cancel,
        screen.action(key) == SettingsAction::Redraw <==> !(key == Key::Enter || key
            == Key::Char('s') || key == Key::Esc || key == Key::Char('q')),
        key != Key::Up && key != Key::Down && key != Key::Left && key != Key::Right
            ==> screen.after(key) == screen,
{
}

/// Whether `line` shows one of the four settings, on its own row: its name and its value. The
/// selected one is marked, its value stands in a column of 44 characters, and the row is
/// filled up to the width of the screen.
pub open spec fn is_settings_line(
    line: Seq<char>,
    row: int,
    selected: usize,
    name: Seq<char>,
    value: Seq<char>,
    cols: usize,
) -> bool {
    &&& selected != row ==> line == move_to((3 + row + row) as u16) + clear_line() + ("    "@ + name
        + "      "@ + fg((178, 178, 205)) + value + reset())
    &&& selected == row ==> exists|cell: Seq<char>, gap: Seq<char>|
        {
            &&& #[trigger] fills(cell, value, 44)
            &&& #[trigger] is_line_of(gap, ' ', cols - 74)
            &&& line == move_to((3 + row + row) as u16) + clear_line() + (bg((20, 26, 46))
                + "  ▸ "@ + bold_fg((255, 230, 100)) + name + reset() + bg((20, 26, 46))
                + "   ◀  "@ + bold_fg((255, 255, 255)) + cell + reset() + "◀   "@ + gap + reset())
        }
}

proof fn lemma_settings_row(row: int, selected: usize, settings: AnimSettings, cols: usize)
    requires
        0 <= row <= 3,
    ensures
        is_settings_line(
            settings_row(row, selected, settings, cols),
            row,
            selected,
            row_name(row),
            row_value(row, settings),
            cols,
        ),
{
    let value = row_value(row, settings);
    let gap = repeated(' ', minus(cols as int, 74));
    lemma_padded_fills(value, 44);
    assert(fills(padded(value, 44), value, 44));
    assert(is_line_of(gap, ' ', cols - 74));
}

/// The settings screen shows the four settings one below the other, two rows apart, each with
/// its own name and value, and marks the selected one.
pub proof fn lemma_settings_screen(
    selected: usize,
    settings: AnimSettings,
    cols: usize,
    rows: usize,
)
    ensures
        exists|fps: Seq<char>, wind: Seq<char>, height: Seq<char>, direction: Seq<char>|
            {
                &&& #[trigger] is_settings_line(
                    fps,
                    0,
                    selected,
                    "FPS / Speed    "@,
                    fps_label(settings.fps),
                    cols,
                )
                &&& #[trigger] is_settings_line(
                    wind,
                    1,
                    selected,
                    "Wind / Breeze  "@,
                    wind_label(settings.wind),
                    cols,
                )
                &&& #[trigger] is_settings_line(
                    height,
                    2,
                    selected,
                    "Flame Height   "@,
                    height_label(settings.height),
                    cols,
                )
                &&& #[trigger] is_settings_line(
                    direction,
                    3,
                    selected,
                    "Fire Direction "@,
                    direction_label(settings.direction),
                    cols,
                )
                &&& settings_text(selected, settings, cols, rows) == title_bar(
                    " pyroclear  ◆  animation settings "@,
                    cols,
                ) + fps + wind + height + direction + separator(12, cols) + hints_open(
                    rows as u16,
                ) + hint("↑↓"@, " navigate  "@) + hint("←→"@, " adjust  "@) + hint(
                    "Enter/s"@,
                    " save & run  "@,
                ) + hint("Esc/q"@, " cancel "@) + reset()
            },
{
    lemma_settings_row(0, selected, settings, cols);
    lemma_settings_row(1, selected, settings, cols);
    lemma_settings_row(2, selected, settings, cols);
    lemma_settings_row(3, selected, settings, cols);
}

/// A value that the menu does not offer is shown as such, whatever it is.
pub proof fn lemma_unknown_labels(settings: AnimSettings)
    ensures
        settings.fps % 15 != 0 || settings.fps == 0 || settings.fps == 105 || settings.fps > 120
            ==> fps_label(settings.fps) == "custom fps"@,
        settings.wind < -2 || settings.wind > 2 ==> wind_label(settings.wind) == "unknown wind"@,
        settings.height > 3 ==> height_label(settings.height) == "unknown height"@,
{
}

} // verus!
