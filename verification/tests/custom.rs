use pyroclear::custom::{interactive_custom, CustomAction, CustomScreen};
use pyroclear::custom_view::{
    custom_swatch_width, draw_create_dialogue, draw_custom, palette_question, saved_preview,
    saved_swatches,
};
use pyroclear::key::Key;
use pyroclear::palette::{saved_colors, CustomPaletteEntry, PaletteChoice, SwatchSource};

const ESC: &str = "\x1b";

fn saved(name: &str) -> CustomPaletteEntry {
    CustomPaletteEntry {
        name: name.to_string(),
        display: name.to_uppercase(),
        from: "#000000".to_string(),
        to: "#ffffff".to_string(),
    }
}

fn manager(names: &[&str], selected: usize) -> CustomScreen {
    CustomScreen { selected, entries: names.iter().map(|n| saved(n)).collect() }
}

fn names(screen: &CustomScreen) -> Vec<&str> {
    screen.entries.iter().map(|e| e.name.as_str()).collect()
}

fn press(screen: &mut CustomScreen, key: Key) -> CustomAction {
    interactive_custom(screen, key, None)
}

#[test]
fn moving_among_saved_palettes() {
    let mut screen = CustomScreen::new(vec![saved("a"), saved("b"), saved("c")]);
    assert_eq!(screen.selected, 0);
    assert_eq!(press(&mut screen, Key::Up), CustomAction::Redraw);
    assert_eq!(screen.selected, 0);
    for expected in [1, 2, 2] {
        assert_eq!(press(&mut screen, Key::Down), CustomAction::Redraw);
        assert_eq!(screen.selected, expected);
    }
    press(&mut screen, Key::Up);
    assert_eq!(screen.selected, 1);
    let mut empty = CustomScreen::new(vec![]);
    assert_eq!(press(&mut empty, Key::Down), CustomAction::Redraw);
    assert_eq!(empty.selected, 0);
}

#[test]
fn deleting() {
    let mut screen = manager(&["a", "b", "c"], 1);
    assert_eq!(press(&mut screen, Key::Char('d')), CustomAction::Save);
    assert_eq!(names(&screen), vec!["a", "c"]);
    assert_eq!(screen.selected, 1);
    assert_eq!(press(&mut screen, Key::Char('D')), CustomAction::Save);
    assert_eq!(names(&screen), vec!["a"]);
    assert_eq!(screen.selected, 0);
    assert_eq!(press(&mut screen, Key::Char('d')), CustomAction::Save);
    assert_eq!(names(&screen), Vec::<&str>::new());
    assert_eq!(screen.selected, 0);
    assert_eq!(press(&mut screen, Key::Char('d')), CustomAction::Redraw);
    let mut lost = manager(&["a"], 5);
    assert_eq!(press(&mut lost, Key::Char('d')), CustomAction::Redraw);
    assert_eq!(names(&lost), vec!["a"]);
}

#[test]
fn settling_a_lost_selection() {
    let mut screen = manager(&["a", "b"], 7);
    screen.settle();
    assert_eq!(screen.selected, 1);
    screen.settle();
    assert_eq!(screen.selected, 1);
    let mut empty = manager(&[], 7);
    empty.settle();
    assert_eq!(empty.selected, 7);
}

#[test]
fn adding_and_taking_back() {
    let mut screen = manager(&["a"], 0);
    screen.add_entry(
        "My OWN Fire",
        "My Fire".to_string(),
        "#010203".to_string(),
        "#040506".to_string(),
    );
    assert_eq!(screen.selected, 1);
    assert_eq!(
        screen.entries[1],
        CustomPaletteEntry {
            name: "my-own-fire".to_string(),
            display: "My Fire".to_string(),
            from: "#010203".to_string(),
            to: "#040506".to_string(),
        }
    );
    assert_eq!(press(&mut screen, Key::Char('d')), CustomAction::Save);
    assert_eq!(screen.entries, vec![saved("a")]);
    screen.add_lowered("x y", "D".to_string(), "f".to_string(), "t".to_string());
    assert_eq!(names(&screen), vec!["a", "x-y"]);
}

#[test]
fn running() {
    let mut screen = manager(&["a"], 0);
    let choice = PaletteChoice::Custom { from: (1, 2, 3), to: (4, 5, 6) };
    assert_eq!(
        interactive_custom(&mut screen, Key::Enter, Some(choice)),
        CustomAction::Run(PaletteChoice::Custom { from: (1, 2, 3), to: (4, 5, 6) })
    );
    assert_eq!(interactive_custom(&mut screen, Key::Enter, None), CustomAction::Redraw);
    let mut empty = manager(&[], 0);
    let choice = PaletteChoice::Named("x".to_string());
    assert_eq!(interactive_custom(&mut empty, Key::Enter, Some(choice)), CustomAction::Redraw);
}

#[test]
fn other_keys() {
    let mut screen = manager(&["a"], 0);
    assert_eq!(press(&mut screen, Key::Char('n')), CustomAction::Create);
    assert_eq!(press(&mut screen, Key::Char('N')), CustomAction::Create);
    assert_eq!(press(&mut screen, Key::Esc), CustomAction::Cancel);
    assert_eq!(press(&mut screen, Key::Char('q')), CustomAction::Cancel);
    assert_eq!(press(&mut screen, Key::Char('x')), CustomAction::Redraw);
    assert_eq!(press(&mut screen, Key::Left), CustomAction::Redraw);
    assert_eq!(names(&screen), vec!["a"]);
}

#[test]
fn questions_for_a_new_palette() {
    assert_eq!(
        draw_create_dialogue(20),
        format!(
            "{ESC}[20;1H{ESC}[J{ESC}[20;1H{ESC}[38;2;175;175;200m  Create new custom palette{ESC}[0m\n"
        )
    );
    let asked: Vec<(&str, u16, bool)> = (0..4)
        .map(|answered| {
            let question = palette_question(answered, 20).unwrap();
            (question.label, question.row, question.hex)
        })
        .collect();
    assert_eq!(
        asked,
        vec![
            ("  Slug (id):", 21, false),
            ("  Name:     ", 22, false),
            ("  From hex: ", 23, true),
            ("  To hex:   ", 24, true),
        ]
    );
    assert_eq!(palette_question(4, 20), None);
}

#[test]
fn selected_palette() {
    let screen = manager(&["a", "b"], 1);
    assert_eq!(screen.selected_entry(), Some(&saved("b")));
    assert_eq!(manager(&["a"], 1).selected_entry(), None);
    assert_eq!(manager(&[], 0).selected_entry(), None);
}

#[test]
fn saved_palette_swatches() {
    let entries = vec![saved("fire"), saved("b")];
    let colors = saved_colors(&entries, |text: &str| {
        if text == "#ffffff" {
            Some((7, 8, 9))
        } else {
            None
        }
    });
    assert_eq!(colors, vec![(None, Some((7, 8, 9))); 2]);
    let colors = vec![(Some((1, 2, 3)), None), (None, Some((4, 5, 6)))];
    let first = SwatchSource::Gradient { from: (1, 2, 3), to: (255, 255, 255) };
    let second = SwatchSource::Gradient { from: (0, 0, 0), to: (4, 5, 6) };
    assert_eq!(saved_swatches(&entries, &colors, 75), vec![(first, 20), (second, 20)]);
    assert_eq!(saved_preview(0, &entries, &colors, 75), Some((first, 53)));
    assert_eq!(saved_preview(1, &entries, &colors, 200), Some((second, 72)));
    assert_eq!(saved_preview(2, &entries, &colors, 75), None);
    assert_eq!(saved_swatches(&[], &[], 75), vec![]);
    assert_eq!(saved_preview(0, &[], &[], 75), None);
}

#[test]
fn manager_widths() {
    let widths: Vec<usize> =
        [0, 65, 66, 84, 85, 300].iter().map(|&c| custom_swatch_width(c)).collect();
    assert_eq!(widths, vec![10, 10, 11, 29, 30, 30]);
}

fn head(cols: usize) -> String {
    let title = " pyroclear  ◆  custom palettes ";
    let gap = " ".repeat(cols.saturating_sub(title.len()));
    format!(
        "{ESC}[1;1H{ESC}[48;2;20;20;36m{ESC}[38;2;255;200;80m{title}{ESC}[38;2;50;50;72m{gap}{ESC}[0m"
    )
}

fn hints(rows: usize) -> String {
    format!(
        "{ESC}[{rows};1H{ESC}[2K{ESC}[48;2;15;15;28m \
         {ESC}[38;2;255;200;80m↑↓{ESC}[38;2;98;98;128m move  \
         {ESC}[38;2;255;200;80mn{ESC}[38;2;98;98;128m new  \
         {ESC}[38;2;255;200;80md{ESC}[38;2;98;98;128m delete  \
         {ESC}[38;2;255;200;80mEnter{ESC}[38;2;98;98;128m run  \
         {ESC}[38;2;255;200;80mEsc/q{ESC}[38;2;98;98;128m back \
         {ESC}[0m"
    )
}

#[test]
fn the_whole_manager() {
    let screen = manager(&["one", "two"], 1);
    let swatches = vec!["<0>".to_string(), "<1>".to_string()];
    let text = draw_custom(1, &screen.entries, 70, 9, &swatches, "~~~");
    let hex = format!(
        "  {ESC}[38;2;82;82;108m#000000{ESC}[38;2;48;48;68m→{ESC}[38;2;82;82;108m#ffffff{ESC}[0m{ESC}[0m"
    );
    let mut expected = head(70);
    expected += &format!(
        "{ESC}[3;1H{ESC}[2K{ESC}[38;2;178;178;205m    {:<15} ({:<10})  <0>{hex}",
        "ONE", "one"
    );
    expected += &format!(
        "{ESC}[4;1H{ESC}[2K{ESC}[48;2;20;26;46m{ESC}[1;38;2;255;230;100m  ▸ {:<15} ({:<10})  <1>{hex}",
        "TWO", "two"
    );
    expected += &format!("{ESC}[5;1H{ESC}[2K");
    expected += &format!("{ESC}[6;1H{ESC}[2K{ESC}[38;2;35;35;55m{}{ESC}[0m", "─".repeat(70));
    expected += &format!(
        "{ESC}[7;1H{ESC}[2K  {ESC}[38;2;92;92;115m▸ {ESC}[38;2;172;172;198m{:<16}{ESC}[0m  ~~~",
        "TWO"
    );
    expected += &hints(9);
    assert_eq!(text, expected);
}

#[test]
fn an_empty_manager() {
    let text = draw_custom(0, &[], 40, 7, &[], "");
    let mut expected = head(40);
    expected += &format!("{ESC}[3;1H{ESC}[2K");
    expected += &format!(
        "{ESC}[4;1H{ESC}[2K  No custom palettes saved yet. Press 'n' to create one!"
    );
    expected += &format!("{ESC}[4;1H{ESC}[2K{ESC}[38;2;35;35;55m{}{ESC}[0m", "─".repeat(40));
    expected += &format!("{ESC}[5;1H{ESC}[2K");
    expected += &hints(7);
    assert_eq!(text, expected);
}
