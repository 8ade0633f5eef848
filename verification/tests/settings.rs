use pyroclear::key::Key;
use pyroclear::settings::{
    draw_settings, interactive_settings, AnimSettings, SettingsAction, SettingsScreen,
};

const ESC: &str = "\x1b";

fn defaults() -> AnimSettings {
    AnimSettings { fps: 60, wind: 0, height: 1, direction: false }
}

fn press(screen: &mut SettingsScreen, keys: &[Key]) {
    for &key in keys {
        assert_eq!(interactive_settings(screen, key), SettingsAction::Redraw);
    }
}

#[test]
fn the_selection_stays_on_the_four_rows() {
    let mut screen = SettingsScreen::new(&defaults());
    assert_eq!(screen.selected, 0);
    press(&mut screen, &[Key::Up]);
    assert_eq!(screen.selected, 0);
    press(&mut screen, &[Key::Down, Key::Down]);
    assert_eq!(screen.selected, 2);
    press(&mut screen, &[Key::Down, Key::Down, Key::Down]);
    assert_eq!(screen.selected, 3);
    press(&mut screen, &[Key::Up]);
    assert_eq!(screen.selected, 2);
}

#[test]
fn frame_rates_go_round() {
    let mut screen = SettingsScreen::new(&defaults());
    let mut seen = Vec::new();
    for _ in 0..7 {
        press(&mut screen, &[Key::Right]);
        seen.push(screen.settings.fps);
    }
    assert_eq!(seen, vec![75, 90, 120, 15, 30, 45, 60]);
    seen.clear();
    for _ in 0..7 {
        press(&mut screen, &[Key::Left]);
        seen.push(screen.settings.fps);
    }
    assert_eq!(seen, vec![45, 30, 15, 120, 90, 75, 60]);
}

#[test]
fn a_frame_rate_off_the_menu_is_kept() {
    let mut screen = SettingsScreen::new(&AnimSettings { fps: 24, ..defaults() });
    press(&mut screen, &[Key::Right, Key::Left, Key::Left]);
    assert_eq!(screen.settings.fps, 24);
}

#[test]
fn winds_go_round() {
    let mut screen = SettingsScreen { settings: defaults(), selected: 1 };
    let mut seen = Vec::new();
    for _ in 0..5 {
        press(&mut screen, &[Key::Right]);
        seen.push(screen.settings.wind);
    }
    assert_eq!(seen, vec![1, 2, -2, -1, 0]);
    seen.clear();
    for _ in 0..5 {
        press(&mut screen, &[Key::Left]);
        seen.push(screen.settings.wind);
    }
    assert_eq!(seen, vec![-1, -2, 2, 1, 0]);
}

#[test]
fn heights_go_round() {
    let mut screen = SettingsScreen { settings: defaults(), selected: 2 };
    let mut seen = Vec::new();
    for _ in 0..4 {
        press(&mut screen, &[Key::Right]);
        seen.push(screen.settings.height);
    }
    assert_eq!(seen, vec![2, 3, 0, 1]);
    seen.clear();
    for _ in 0..4 {
        press(&mut screen, &[Key::Left]);
        seen.push(screen.settings.height);
    }
    assert_eq!(seen, vec![0, 3, 2, 1]);
}

#[test]
fn settings_off_the_menu_come_back_to_it() {
    let wild = AnimSettings { wind: 10, height: 9, ..defaults() };
    let mut screen = SettingsScreen { settings: wild, selected: 1 };
    press(&mut screen, &[Key::Left]);
    assert_eq!(screen.settings.wind, 9);
    press(&mut screen, &[Key::Right]);
    assert_eq!(screen.settings.wind, -2);
    screen.selected = 2;
    press(&mut screen, &[Key::Left]);
    assert_eq!(screen.settings.height, 8);
    press(&mut screen, &[Key::Right]);
    assert_eq!(screen.settings.height, 0);
}

#[test]
fn both_arrows_turn_the_direction() {
    let mut screen = SettingsScreen { settings: defaults(), selected: 3 };
    press(&mut screen, &[Key::Left]);
    assert!(screen.settings.direction);
    press(&mut screen, &[Key::Right]);
    assert!(!screen.settings.direction);
}

#[test]
fn the_arrows_undo_each_other() {
    for selected in 0..4 {
        let before = SettingsScreen { settings: defaults(), selected };
        let mut screen = before;
        press(&mut screen, &[Key::Left, Key::Right]);
        assert_eq!(screen, before);
        press(&mut screen, &[Key::Right, Key::Left]);
        assert_eq!(screen, before);
    }
}

#[test]
fn saving_and_cancelling() {
    for key in [Key::Enter, Key::Char('s')] {
        let mut screen = SettingsScreen::new(&defaults());
        press(&mut screen, &[Key::Right]);
        assert_eq!(
            interactive_settings(&mut screen, key),
            SettingsAction::Save(AnimSettings { fps: 75, ..defaults() })
        );
    }
    for key in [Key::Esc, Key::Char('q')] {
        let mut screen = SettingsScreen::new(&defaults());
        assert_eq!(interactive_settings(&mut screen, key), SettingsAction::Cancel);
    }
    let mut screen = SettingsScreen::new(&defaults());
    let before = screen;
    press(
        &mut screen,
        &[Key::Other, Key::Char('S'), Key::Char('x'), Key::PageUp, Key::Backspace],
    );
    assert_eq!(screen, before);
}

fn plain(row: u16, label: &str, value: &str) -> String {
    format!("{ESC}[{row};1H{ESC}[2K    {label}      {ESC}[38;2;178;178;205m{value}{ESC}[0m")
}

fn selected(row: u16, label: &str, value: &str, cols: usize) -> String {
    let mut text = format!("{ESC}[{row};1H{ESC}[2K{ESC}[48;2;20;26;46m");
    text += &format!("  ▸ {ESC}[1;38;2;255;230;100m{label}{ESC}[0m");
    text += &format!("{ESC}[48;2;20;26;46m   ◀  {ESC}[1;38;2;255;255;255m{value:<44}{ESC}[0m◀   ");
    text += &" ".repeat(cols.saturating_sub(74));
    text + &format!("{ESC}[0m")
}

fn around(body: &str, cols: usize, rows: usize) -> String {
    let title = " pyroclear  ◆  animation settings ";
    let gap = " ".repeat(cols.saturating_sub(title.len()));
    let mut text = format!(
        "{ESC}[1;1H{ESC}[48;2;20;20;36m{ESC}[38;2;255;200;80m{title}{ESC}[38;2;50;50;72m{gap}{ESC}[0m"
    );
    text += body;
    text += &format!("{ESC}[12;1H{ESC}[2K{ESC}[38;2;35;35;55m{}{ESC}[0m", "─".repeat(cols));
    text += &format!("{ESC}[{rows};1H{ESC}[2K{ESC}[48;2;15;15;28m ");
    for (key, effect) in [
        ("↑↓", " navigate  "),
        ("←→", " adjust  "),
        ("Enter/s", " save & run  "),
        ("Esc/q", " cancel "),
    ] {
        text += &format!("{ESC}[38;2;255;200;80m{key}{ESC}[38;2;98;98;128m{effect}");
    }
    text + &format!("{ESC}[0m")
}

#[test]
fn the_screen_with_its_defaults() {
    let body = selected(3, "FPS / Speed    ", "60 fps  (default smooth 60fps)", 100)
        + &plain(5, "Wind / Breeze  ", "None          (rising straight up)")
        + &plain(7, "Flame Height   ", "Medium        (default height decay)")
        + &plain(9, "Fire Direction ", "Bottom → Top  (classic rising flames)");
    assert_eq!(draw_settings(0, &defaults(), 100, 30), around(&body, 100, 30));
}

#[test]
fn a_narrow_screen_with_the_last_row_selected() {
    let settings = AnimSettings { fps: 120, wind: -2, height: 3, direction: true };
    let body = plain(3, "FPS / Speed    ", "120 fps (blazing fast execution)")
        + &plain(5, "Wind / Breeze  ", "Strong Left   (blowing hard left)")
        + &plain(7, "Flame Height   ", "Extreme       (minimum decay, full screen)")
        + &selected(9, "Fire Direction ", "Top → Bottom  (falling fire effect)", 20);
    assert_eq!(draw_settings(3, &settings, 20, 10), around(&body, 20, 10));
}

#[test]
fn every_label() {
    let fps = [
        (15, "15 fps  (extremely slow / cinematic)"),
        (30, "30 fps  (standard retro feel)"),
        (45, "45 fps  (smooth legacy animation)"),
        (60, "60 fps  (default smooth 60fps)"),
        (75, "75 fps  (high refresh rate)"),
        (90, "90 fps  (ultra high refresh rate)"),
        (120, "120 fps (blazing fast execution)"),
        (24, "custom fps"),
    ];
    for (fps, label) in fps {
        let text = draw_settings(3, &AnimSettings { fps, ..defaults() }, 80, 24);
        assert!(text.contains(&plain(3, "FPS / Speed    ", label)));
    }
    let winds = [
        (-2, "Strong Left   (blowing hard left)"),
        (-1, "Gentle Left   (gently drifting left)"),
        (0, "None          (rising straight up)"),
        (1, "Gentle Right  (gently drifting right)"),
        (2, "Strong Right  (blowing hard right)"),
        (3, "unknown wind"),
    ];
    for (wind, label) in winds {
        let text = draw_settings(0, &AnimSettings { wind, ..defaults() }, 80, 24);
        assert!(text.contains(&plain(5, "Wind / Breeze  ", label)));
    }
    let heights = [
        (0, "Low           (fast decay, small fire)"),
        (1, "Medium        (default height decay)"),
        (2, "High          (slow decay, tall flames)"),
        (3, "Extreme       (minimum decay, full screen)"),
        (4, "unknown height"),
    ];
    for (height, label) in heights {
        let text = draw_settings(0, &AnimSettings { height, ..defaults() }, 80, 24);
        assert!(text.contains(&plain(7, "Flame Height   ", label)));
    }
}
