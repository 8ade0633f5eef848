use pyroclear::fire::{
    burn, frame_delay, peak, turn_output, BurnAction, Fire, Tick, BURN_BEGIN, BURN_END,
    DIE_OUT_THRESHOLD, MAX_DURATION,
};
use pyroclear::heat::{heat_source, propagate, resize_grid, MAX_HEAT, STEPS_PER_FRAME};
use pyroclear::rng::Rng;
use pyroclear::settings::AnimSettings;

const COOL_AT: u128 = 836_000_000;

fn settings(wind: i32, height: u32, direction: bool) -> AnimSettings {
    AnimSettings { fps: 60, wind, height, direction }
}

fn palette() -> Vec<(u8, u8, u8)> {
    (0..37).map(|i| (i as u8, 2 * i as u8, 3 * i as u8)).collect()
}

fn tick(fire: &Fire, elapsed: u128) -> Tick {
    Tick { interrupted: false, elapsed, cool_at: COOL_AT, cols: fire.cols, rows: fire.rows }
}

fn lit(cols: usize, rows: usize, settings: AnimSettings) -> Fire {
    Fire::new(cols, rows, settings, Rng::from_clock(0, 0))
}

/// The grids after one fed and one cooling frame.
fn two_frames(cols: usize, rows: usize, settings: AnimSettings) -> (Vec<u8>, Vec<u8>) {
    let mut fire = lit(cols, rows, settings);
    let mut frame = String::new();
    let now = tick(&fire, COOL_AT);
    assert_eq!(burn(&mut fire, &palette(), now, &mut frame), BurnAction::ShowAndWait);
    let fed = fire.grid.clone();
    let now = tick(&fire, COOL_AT + 1);
    assert_eq!(burn(&mut fire, &palette(), now, &mut frame), BurnAction::ShowAndWait);
    (fed, fire.grid)
}

#[test]
fn constants() {
    assert_eq!(MAX_HEAT, 36);
    assert_eq!(STEPS_PER_FRAME, 2);
    assert_eq!(MAX_DURATION, 2_200_000_000);
    assert_eq!(DIE_OUT_THRESHOLD, 2);
    assert_eq!(BURN_BEGIN, "\x1b[?25l\x1b[0m\x1b[H\x1b[2J\x1b[3J");
    assert_eq!(BURN_END, "\x1b[?25h");
}

#[test]
fn fresh_grids() {
    assert_eq!(resize_grid(3, 2, false), vec![0, 0, 0, 36, 36, 36]);
    assert_eq!(resize_grid(3, 2, true), vec![36, 36, 36, 0, 0, 0]);
    assert_eq!(resize_grid(2, 1, false), vec![36, 36]);
    assert_eq!(resize_grid(0, 3, false), Vec::<u8>::new());
    assert_eq!(resize_grid(0, 0, true), Vec::<u8>::new());
}

#[test]
fn feeding_touches_the_source_row_only() {
    let mut grid = vec![1, 2, 3, 4, 5, 6];
    heat_source(&mut grid, 2, 3, false);
    assert_eq!(grid, vec![1, 2, 3, 4, 36, 36]);
    let mut grid = vec![1, 2, 3, 4, 5, 6];
    heat_source(&mut grid, 2, 3, true);
    assert_eq!(grid, vec![36, 36, 3, 4, 5, 6]);
}

#[test]
fn rising_fire_without_wind() {
    let (fed, cooled) = two_frames(6, 4, settings(0, 1, false));
    assert_eq!(
        fed,
        vec![
            0, 0, 0, 31, 0, 0, 34, 32, 33, 31, 0, 0, 33, 35, 34, 33, 36, 36, 36, 36, 36, 36, 36, 36
        ]
    );
    assert_eq!(
        cooled,
        vec![
            33, 29, 33, 28, 30, 27, 33, 32, 35, 33, 30, 36, 31, 31, 34, 31, 30, 34, 31, 28, 31, 26,
            27, 29
        ]
    );
}

#[test]
fn falling_fire_in_strong_wind() {
    let (fed, cooled) = two_frames(6, 4, settings(2, 0, true));
    assert_eq!(
        fed,
        vec![
            36, 36, 36, 36, 36, 36, 33, 34, 32, 32, 35, 32, 0, 32, 29, 30, 28, 29, 0, 0, 27, 29,
            26, 28
        ]
    );
    assert_eq!(
        cooled,
        vec![
            31, 28, 31, 26, 27, 29, 32, 33, 27, 31, 32, 32, 29, 32, 24, 32, 28, 31, 25, 0, 31, 29,
            27, 30
        ]
    );
}

#[test]
fn rising_fire_in_gentle_wind() {
    let (fed, cooled) = two_frames(5, 3, settings(-1, 3, false));
    assert_eq!(fed, vec![35, 36, 35, 0, 0, 36, 36, 36, 36, 35, 36, 36, 36, 36, 36]);
    assert_eq!(cooled, vec![34, 35, 34, 35, 34, 33, 35, 31, 31, 31, 26, 27, 27, 28, 30]);
}

#[test]
fn falling_fire_in_strong_wind_from_the_right() {
    let (fed, cooled) = two_frames(5, 3, settings(-2, 2, true));
    assert_eq!(fed, vec![36, 36, 36, 36, 36, 34, 35, 36, 0, 0, 0, 0, 0, 0, 0]);
    assert_eq!(cooled, vec![26, 27, 27, 28, 30, 33, 35, 32, 0, 30, 34, 28, 28, 0, 0]);
}

#[test]
fn unknown_settings_burn_like_the_middle_ones() {
    let (fed, cooled) = two_frames(4, 3, settings(1, 7, false));
    assert_eq!(fed, vec![0, 0, 32, 33, 33, 35, 34, 36, 36, 36, 36, 36]);
    assert_eq!(cooled, vec![33, 32, 33, 34, 33, 28, 32, 30, 28, 27, 29, 29]);
    let (fed, cooled) = two_frames(4, 3, settings(9, 1, true));
    assert_eq!(fed, vec![36, 36, 36, 36, 35, 34, 34, 34, 32, 35, 34, 34]);
    assert_eq!(cooled, vec![28, 27, 29, 29, 30, 34, 35, 33, 31, 31, 35, 30]);
    assert_eq!(
        two_frames(4, 3, settings(9, 9, false)),
        two_frames(4, 3, settings(0, 1, false))
    );
}

#[test]
fn steps_never_heat_and_keep_a_fed_source() {
    let mut rng = Rng::from_clock(3, 4);
    let mut grid: Vec<u8> = vec![0, 9, 20, 3, 1, 0, 30, 12];
    for _ in 0..20 {
        propagate(&mut grid, &mut rng, 4, 2, &settings(0, 1, false), false);
        assert!(peak(&grid) <= 30);
        assert_eq!(grid[4..].to_vec(), vec![1, 0, 30, 12]);
    }
    for step in 1..=15u8 {
        propagate(&mut grid, &mut rng, 4, 2, &settings(0, 1, false), true);
        assert!(grid[6] <= 30 - 2 * step);
    }
    assert_eq!(grid[4..].to_vec(), vec![0, 0, 0, 0]);
}

#[test]
fn a_cooling_fire_dies_and_stays_dead() {
    let mut fire = lit(4, 3, settings(0, 0, false));
    let mut frame = String::new();
    let now = tick(&fire, 0);
    assert_eq!(burn(&mut fire, &palette(), now, &mut frame), BurnAction::ShowAndWait);
    for _ in 0..6 {
        let now = tick(&fire, COOL_AT + 1);
        assert_eq!(burn(&mut fire, &palette(), now, &mut frame), BurnAction::ShowAndWait);
    }
    let now = tick(&fire, COOL_AT + 1);
    assert_eq!(burn(&mut fire, &palette(), now, &mut frame), BurnAction::ShowAndStop);
    assert_eq!(fire.grid, vec![0; 12]);
    assert_eq!(
        frame,
        "\x1b[H\x1b[49m    \n    \n    \n"
    );
    let now = tick(&fire, COOL_AT + 1);
    assert_eq!(burn(&mut fire, &palette(), now, &mut frame), BurnAction::ShowAndStop);
    assert_eq!(fire.grid, vec![0; 12]);
}

#[test]
fn a_cold_fire_that_is_fed_burns_again() {
    let mut fire = lit(2, 2, settings(0, 1, false));
    fire.grid = vec![0; 4];
    let mut frame = String::new();
    let now = tick(&fire, COOL_AT);
    assert_eq!(burn(&mut fire, &palette(), now, &mut frame), BurnAction::ShowAndWait);
    assert_eq!(fire.grid[2..].to_vec(), vec![36, 36]);
}

#[test]
fn the_source_is_cold_after_nine_cooling_frames() {
    let mut fire = lit(6, 5, settings(1, 3, true));
    let mut frame = String::new();
    for _ in 0..9 {
        let now = tick(&fire, COOL_AT + 1);
        burn(&mut fire, &palette(), now, &mut frame);
    }
    assert_eq!(fire.grid[..6].to_vec(), vec![0; 6]);
}

#[test]
fn the_animation_ends_when_interrupted_or_over_time() {
    let mut fire = lit(3, 3, settings(0, 1, false));
    let before = fire.grid.clone();
    let mut frame = String::from("kept");
    let mut now = tick(&fire, 0);
    now.interrupted = true;
    assert_eq!(burn(&mut fire, &palette(), now, &mut frame), BurnAction::Stop);
    let now = tick(&fire, MAX_DURATION + 1);
    assert_eq!(burn(&mut fire, &palette(), now, &mut frame), BurnAction::Stop);
    assert_eq!(fire.grid, before);
    assert_eq!(frame, "kept");
    let now = tick(&fire, MAX_DURATION);
    assert_ne!(burn(&mut fire, &palette(), now, &mut frame), BurnAction::Stop);
}

#[test]
fn another_screen_size_starts_anew() {
    let mut resized = lit(2, 2, settings(0, 1, false));
    resized.grid = vec![5; 4];
    let mut fresh = lit(3, 4, settings(0, 1, false));
    let mut frame = String::new();
    let now = tick(&fresh, COOL_AT + 1);
    burn(&mut resized, &palette(), now, &mut frame);
    burn(&mut fresh, &palette(), now, &mut frame);
    assert_eq!((resized.cols, resized.rows), (3, 4));
    assert_eq!(resized.grid, fresh.grid);
}

#[test]
fn hottest_cell() {
    assert_eq!(peak(&[]), 0);
    assert_eq!(peak(&[3, 9, 1]), 9);
    assert_eq!(peak(&[0, 0]), 0);
}

#[test]
fn pauses() {
    assert_eq!(frame_delay(0), 1000);
    assert_eq!(frame_delay(1), 1000);
    assert_eq!(frame_delay(15), 66);
    assert_eq!(frame_delay(60), 16);
    assert_eq!(frame_delay(120), 8);
    assert_eq!(frame_delay(1001), 0);
}

#[test]
fn turn_outputs() {
    assert_eq!(turn_output(BurnAction::Stop, "frame"), "\x1b[?25h");
    assert_eq!(turn_output(BurnAction::ShowAndStop, "frame"), "frame\x1b[?25h");
    assert_eq!(turn_output(BurnAction::ShowAndWait, "frame"), "frame");
}

/// What a run writes whose frames are due at the given times, its frames, and the action
/// of its last turn.
fn run(times: &[u128]) -> (String, Vec<String>, BurnAction) {
    let mut fire = lit(3, 2, settings(0, 1, false));
    let mut text = BURN_BEGIN.to_string();
    let mut shown = Vec::new();
    let mut frame = String::new();
    let mut action = BurnAction::ShowAndWait;
    for &elapsed in times {
        let now = tick(&fire, elapsed);
        action = burn(&mut fire, &palette(), now, &mut frame);
        text.push_str(&turn_output(action, &frame));
        if action != BurnAction::Stop {
            shown.push(frame.clone());
        }
        if action != BurnAction::ShowAndWait {
            break;
        }
    }
    (text, shown, action)
}

#[test]
fn a_run_that_is_over_writes_its_frames() {
    let (text, shown, action) = run(&[0, 1_000_000, MAX_DURATION, MAX_DURATION + 1, 5]);
    assert_eq!(action, BurnAction::Stop);
    assert_eq!(shown.len(), 3);
    assert_eq!(text, format!("{BURN_BEGIN}{}{BURN_END}", shown.concat()));
}

#[test]
fn a_run_that_dies_out_writes_its_frames() {
    let times: Vec<u128> = (1..200).map(|i| COOL_AT + i).collect();
    let (text, shown, action) = run(&times);
    assert_eq!(action, BurnAction::ShowAndStop);
    assert!(shown.len() > 1 && shown.len() < times.len());
    assert_eq!(text, format!("{BURN_BEGIN}{}{BURN_END}", shown.concat()));
}

#[test]
fn a_run_that_goes_on_lacks_the_end() {
    let (text, shown, action) = run(&[0, 1, 2]);
    assert_eq!(action, BurnAction::ShowAndWait);
    assert_eq!(text, format!("{BURN_BEGIN}{}", shown.concat()));
}
