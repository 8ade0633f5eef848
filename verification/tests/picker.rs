use pyroclear::key::Key;
use pyroclear::palette::{
    catalog_colors, custom_swatch, gradient_swatch, named_swatch, PaletteChoice, PaletteEntry,
    SwatchSource,
};
use pyroclear::picker::{
    apply_filter, filter_lowered, interactive_pick, LoweredEntry, PickAction, Picker,
};
use pyroclear::picker_view::{
    draw_custom_dialogue, draw_picker, gradient_question, picker_preview, picker_swatches,
    swatch_width,
};
use pyroclear::rng::Rng;
use pyroclear::screen::{dialogue_row, first_visible, preview_width, visible_rows};

const ESC: &str = "\x1b";

fn entry(id: &str, display: &str, description: &str) -> PaletteEntry {
    PaletteEntry {
        id: id.to_string(),
        display: display.to_string(),
        description: description.to_string(),
        from_hex: "#112233".to_string(),
        to_hex: "#aabbcc".to_string(),
    }
}

fn catalog() -> Vec<PaletteEntry> {
    vec![
        entry("fire", "Classic Fire", "The original DOOM flames"),
        entry("ice", "Frozen", "Cold as a custom glacier"),
        entry("toxic", "Toxic Waste", "Radioactive GREEN"),
    ]
}

fn press(picker: &mut Picker, catalog: &[PaletteEntry], keys: &[Key]) {
    for &key in keys {
        assert_eq!(interactive_pick(picker, key, catalog), PickAction::Redraw);
    }
}

#[test]
fn searching_the_catalogue() {
    let catalog = catalog();
    assert_eq!(apply_filter("", &catalog), vec![0, 1, 2, 3]);
    assert_eq!(apply_filter("fire", &catalog), vec![0]);
    assert_eq!(apply_filter("FROZ", &catalog), vec![1]);
    assert_eq!(apply_filter("green", &catalog), vec![2]);
    assert_eq!(apply_filter("doom", &catalog), vec![0]);
    assert_eq!(apply_filter("custom", &catalog), vec![1, 3]);
    assert_eq!(apply_filter("CuSt", &catalog), vec![1, 3]);
    assert_eq!(apply_filter("tom", &catalog), vec![1, 3]);
    assert_eq!(apply_filter("i", &catalog), vec![0, 1, 2]);
    assert_eq!(apply_filter("nowhere", &catalog), Vec::<usize>::new());
    assert_eq!(apply_filter("", &[]), vec![0]);
}

#[test]
fn the_case_of_other_letters_is_ignored_too() {
    let catalog = vec![entry("lava", "ÉRUPTION", "ΛΑΒΑ")];
    assert_eq!(apply_filter("éruption", &catalog), vec![0]);
    assert_eq!(apply_filter("λαβα", &catalog), vec![0]);
}

#[test]
fn ascii_letters_fold() {
    for byte in 0u8..128 {
        let c = byte as char;
        let catalog = vec![entry(&c.to_ascii_uppercase().to_string(), "", "")];
        let search = c.to_ascii_lowercase().to_string();
        assert!(apply_filter(&search, &catalog).contains(&0));
        assert!(apply_filter(&search.to_ascii_uppercase(), &catalog).contains(&0));
    }
}

#[test]
fn searching_texts_in_lowercase() {
    let entries = vec![
        LoweredEntry {
            id: "a".to_string(),
            display: "bc".to_string(),
            description: "xyz".to_string(),
        },
        LoweredEntry {
            id: "u".to_string(),
            display: "v".to_string(),
            description: "w".to_string(),
        },
    ];
    assert_eq!(filter_lowered("", &entries), vec![0, 1, 2]);
    assert_eq!(filter_lowered("u", &entries), vec![1, 2]);
    assert_eq!(filter_lowered("yz", &entries), vec![0]);
    assert_eq!(filter_lowered("ab", &entries), Vec::<usize>::new());
}

#[test]
fn a_longer_search_finds_less() {
    let catalog = catalog();
    let mut search = String::new();
    let mut before = apply_filter(&search, &catalog);
    for c in "custom g".chars() {
        search.push(c);
        let now = apply_filter(&search, &catalog);
        assert!(now.iter().all(|i| before.contains(i)));
        before = now;
    }
    assert_eq!(before, vec![1]);
}

#[test]
fn moving_the_selection() {
    let catalog: Vec<PaletteEntry> = (0..25).map(|i| entry(&format!("p{i}"), "P", "d")).collect();
    let mut picker = Picker::new(&catalog);
    assert_eq!(picker.filter.len(), 26);
    assert_eq!(picker.selected, 0);
    press(&mut picker, &catalog, &[Key::Up]);
    assert_eq!(picker.selected, 0);
    press(&mut picker, &catalog, &[Key::Down, Key::Down]);
    assert_eq!(picker.selected, 2);
    press(&mut picker, &catalog, &[Key::PageDown]);
    assert_eq!(picker.selected, 12);
    press(&mut picker, &catalog, &[Key::PageUp, Key::Up]);
    assert_eq!(picker.selected, 1);
    press(&mut picker, &catalog, &[Key::PageUp]);
    assert_eq!(picker.selected, 0);
    press(&mut picker, &catalog, &[Key::PageDown, Key::PageDown]);
    assert_eq!(picker.selected, 20);
    press(&mut picker, &catalog, &[Key::PageDown]);
    assert_eq!(picker.selected, 25);
    press(&mut picker, &catalog, &[Key::Down]);
    assert_eq!(picker.selected, 25);
    press(&mut picker, &catalog, &[Key::Up, Key::Down, Key::Left, Key::Backspace, Key::Other]);
    assert_eq!(picker.selected, 25);
}

#[test]
fn choosing_an_entry() {
    let catalog = catalog();
    let mut picker = Picker::new(&catalog);
    press(&mut picker, &catalog, &[Key::Down]);
    assert_eq!(
        interactive_pick(&mut picker, Key::Enter, &catalog),
        PickAction::Choose(PaletteChoice::Named("ice".to_string()))
    );
    press(&mut picker, &catalog, &[Key::Down, Key::Down]);
    assert_eq!(interactive_pick(&mut picker, Key::Enter, &catalog), PickAction::AskCustom);
}

#[test]
fn typing_a_search() {
    let catalog = catalog();
    let mut picker = Picker::new(&catalog);
    press(&mut picker, &catalog, &[Key::Down, Key::Char('/')]);
    assert!(picker.search_active);
    assert_eq!(picker.selected, 1);
    press(&mut picker, &catalog, &[Key::Char('q'), Key::Backspace, Key::Char('r'), Key::Char('o')]);
    assert_eq!(picker.search, "ro");
    assert_eq!(picker.filter, vec![1]);
    assert_eq!(picker.selected, 0);
    press(&mut picker, &catalog, &[Key::Down, Key::Enter]);
    assert!(!picker.search_active);
    assert_eq!(
        interactive_pick(&mut picker, Key::Enter, &catalog),
        PickAction::Choose(PaletteChoice::Named("ice".to_string()))
    );
}

#[test]
fn a_search_without_results() {
    let catalog = catalog();
    let mut picker = Picker::new(&catalog);
    press(&mut picker, &catalog, &[Key::Char('/'), Key::Char('#'), Key::Esc]);
    assert_eq!(picker.filter, Vec::<usize>::new());
    press(
        &mut picker,
        &catalog,
        &[Key::Down, Key::PageDown, Key::Up, Key::PageUp, Key::Char('r'), Key::Enter],
    );
    assert_eq!(picker.selected, 0);
}

#[test]
fn escape_leads_out() {
    let catalog = catalog();
    let mut picker = Picker::new(&catalog);
    press(&mut picker, &catalog, &[Key::Char('/'), Key::Char('x'), Key::Esc]);
    assert_eq!(picker.search, "x");
    assert_eq!(picker.filter, vec![2]);
    press(&mut picker, &catalog, &[Key::Esc]);
    assert_eq!(picker.search, "");
    assert_eq!(picker.filter, vec![0, 1, 2, 3]);
    assert_eq!(interactive_pick(&mut picker, Key::Esc, &catalog), PickAction::Cancel);
    assert_eq!(interactive_pick(&mut picker, Key::Char('q'), &catalog), PickAction::Cancel);
}

#[test]
fn jumping_by_chance() {
    let catalog = catalog();
    let mut picker = Picker::new(&catalog);
    let mut rng = Rng::from_clock(0, 0);
    picker.jump(&mut rng);
    assert_eq!(picker.selected, 1);
    picker.jump(&mut rng);
    assert_eq!(picker.selected, (1152992998833853505u64 % 4) as usize);
    for key in [Key::Char('r'), Key::Char('R')] {
        for _ in 0..50 {
            press(&mut picker, &catalog, &[key]);
            assert!(picker.selected < 4);
        }
    }
}

#[test]
fn swatches() {
    let red = Some((255, 0, 0));
    assert_eq!(named_swatch(&"fire".to_string(), red, None), SwatchSource::Fire);
    assert_eq!(
        named_swatch(&"firefly".to_string(), red, None),
        SwatchSource::Gradient { from: (255, 0, 0), to: (255, 255, 255) }
    );
    assert_eq!(
        gradient_swatch(None, red),
        SwatchSource::Gradient { from: (0, 0, 0), to: (255, 0, 0) }
    );
    assert_eq!(
        custom_swatch(),
        SwatchSource::Plain { from: (50, 0, 60), to: (255, 180, 80) }
    );
}

/// Reads one colour only.
fn read_color(text: &str) -> Option<(u8, u8, u8)> {
    if text == "#112233" {
        Some((17, 34, 51))
    } else {
        None
    }
}

#[test]
fn swatches_of_the_list() {
    let catalog = catalog();
    let colors = catalog_colors(&catalog, read_color);
    assert_eq!(colors, vec![(Some((17, 34, 51)), None); 3]);
    let colors = vec![
        (Some((1, 1, 1)), Some((2, 2, 2))),
        (Some((3, 3, 3)), Some((4, 4, 4))),
        (None, Some((5, 5, 5))),
    ];
    assert_eq!(
        picker_swatches(&catalog, &colors, 70),
        vec![
            (SwatchSource::Fire, 20),
            (SwatchSource::Gradient { from: (3, 3, 3), to: (4, 4, 4) }, 20),
            (SwatchSource::Gradient { from: (0, 0, 0), to: (5, 5, 5) }, 20),
            (SwatchSource::Plain { from: (50, 0, 60), to: (255, 180, 80) }, 20),
        ]
    );
    assert_eq!(
        picker_swatches(&[], &[], 200),
        vec![(SwatchSource::Plain { from: (50, 0, 60), to: (255, 180, 80) }, 30)]
    );
}

#[test]
fn swatch_of_the_preview() {
    let catalog = catalog();
    let colors = vec![(Some((1, 1, 1)), None), (Some((3, 3, 3)), None), (None, None)];
    let preview = |selected: usize, filter: &[usize]| {
        picker_preview(selected, filter, &catalog, &colors, 70)
    };
    assert_eq!(preview(0, &[0, 1]), Some((SwatchSource::Fire, 48)));
    assert_eq!(
        preview(1, &[0, 1]),
        Some((SwatchSource::Gradient { from: (3, 3, 3), to: (255, 255, 255) }, 48))
    );
    assert_eq!(preview(0, &[3]), None);
    assert_eq!(preview(0, &[]), None);
    assert_eq!(preview(2, &[0, 1]), None);
}

#[test]
fn gradients_of_the_users_own() {
    assert_eq!(dialogue_row(24), 20);
    assert_eq!(
        draw_custom_dialogue(20),
        format!(
            "{ESC}[20;1H{ESC}[J{ESC}[20;1H{ESC}[38;2;175;175;200m  Enter hex colors (e.g. #ff0000){ESC}[0m\n"
        )
    );
    let first = gradient_question(0, 20).unwrap();
    assert_eq!((first.label, first.row, first.hex), ("  From:", 22, true));
    let second = gradient_question(1, 20).unwrap();
    assert_eq!((second.label, second.row, second.hex), ("  To:  ", 23, true));
    assert_eq!(gradient_question(2, 20), None);
}

#[test]
fn widths() {
    let widths: Vec<usize> = [0, 60, 61, 79, 80, 200].iter().map(|&c| swatch_width(c)).collect();
    assert_eq!(widths, vec![10, 10, 11, 29, 30, 30]);
    let widths: Vec<usize> = [0, 22, 23, 94, 95].iter().map(|&c| preview_width(c)).collect();
    assert_eq!(widths, vec![0, 0, 1, 72, 72]);
}

#[test]
fn scrolling() {
    assert_eq!(visible_rows(24), 18);
    assert_eq!(visible_rows(6), 0);
    assert_eq!(visible_rows(3), 0);
    assert_eq!(first_visible(17, 24), 0);
    assert_eq!(first_visible(18, 24), 1);
    assert_eq!(first_visible(40, 24), 23);
    assert_eq!(first_visible(4, 5), 5);
}

fn head(cols: usize) -> String {
    let title = " pyroclear  ◆  color picker ";
    let gap = " ".repeat(cols.saturating_sub(title.len()));
    format!(
        "{ESC}[1;1H{ESC}[48;2;20;20;36m{ESC}[38;2;255;200;80m{title}{ESC}[38;2;50;50;72m{gap}{ESC}[0m{ESC}[2;1H{ESC}[2K"
    )
}

fn hints(rows: usize) -> String {
    format!(
        "{ESC}[{rows};1H{ESC}[2K{ESC}[48;2;15;15;28m \
         {ESC}[38;2;255;200;80m↑↓{ESC}[38;2;98;98;128m move  \
         {ESC}[38;2;255;200;80mPgUp/Dn{ESC}[38;2;98;98;128m page  \
         {ESC}[38;2;255;200;80m/{ESC}[38;2;98;98;128m search  \
         {ESC}[38;2;255;200;80mr{ESC}[38;2;98;98;128m random  \
         {ESC}[38;2;255;200;80mEnter{ESC}[38;2;98;98;128m select  \
         {ESC}[38;2;255;200;80mEsc{ESC}[38;2;98;98;128m·{ESC}[38;2;255;200;80mq{ESC}[38;2;98;98;128m quit \
         {ESC}[0m"
    )
}

fn swatches_for(catalog: &[PaletteEntry]) -> Vec<String> {
    (0..=catalog.len()).map(|i| format!("<{i}>")).collect()
}

#[test]
fn the_whole_picker() {
    let catalog = catalog();
    let text = draw_picker(
        1,
        &[0, 1, 3],
        "",
        false,
        90,
        10,
        &catalog,
        &swatches_for(&catalog),
        "~~~",
    );
    let mut expected = head(90);
    expected += &format!(
        "  {ESC}[38;2;55;55;78m/{ESC}[0m {ESC}[38;2;52;52;72msearch palettes...{ESC}[0m  {ESC}[38;2;52;52;72m2 palettes{ESC}[0m"
    );
    let hex = format!(
        "  {ESC}[38;2;82;82;108m#112233{ESC}[38;2;48;48;68m→{ESC}[38;2;82;82;108m#aabbcc{ESC}[0m"
    );
    expected += &format!("{ESC}[3;1H{ESC}[2K{ESC}[38;2;178;178;205m    {:<18}  <0>{hex}", "Classic Fire");
    expected += &format!("  {ESC}[38;2;62;62;82mThe original {ESC}[0m{ESC}[0m");
    expected += &format!(
        "{ESC}[4;1H{ESC}[2K{ESC}[48;2;20;26;46m{ESC}[1;38;2;255;230;100m  ▸ {:<18}  <1>{hex}",
        "Frozen"
    );
    expected += &format!("  {ESC}[38;2;140;140;172mCold as a cus{ESC}[0m{ESC}[0m");
    expected += &format!("{ESC}[5;1H{ESC}[2K{ESC}[38;2;178;178;205m    {:<18}  <3>", "Custom");
    expected += &format!("  {ESC}[38;2;62;62;82menter your ow{ESC}[0m{ESC}[0m");
    expected += &format!("{ESC}[6;1H{ESC}[2K");
    expected += &format!("{ESC}[7;1H{ESC}[2K{ESC}[38;2;35;35;55m{}{ESC}[0m", "─".repeat(90));
    expected += &format!("{ESC}[8;1H{ESC}[2K");
    expected += &format!(
        "  {ESC}[38;2;92;92;115m▸ {ESC}[38;2;172;172;198m{:<16}{ESC}[0m  ~~~",
        "Frozen"
    );
    expected += &hints(10);
    assert_eq!(text, expected);
}

#[test]
fn a_scrolled_picker_on_a_narrow_screen() {
    let catalog = catalog();
    let text = draw_picker(
        3,
        &[0, 1, 2, 3],
        "x",
        true,
        40,
        8,
        &catalog,
        &swatches_for(&catalog),
        "unused",
    );
    let mut expected = head(40);
    expected += &format!(
        "  {ESC}[38;2;255;220;80m/x_{ESC}[0m  {ESC}[38;2;95;95;115m3 matches{ESC}[0m"
    );
    let hex = format!(
        "  {ESC}[38;2;82;82;108m#112233{ESC}[38;2;48;48;68m→{ESC}[38;2;82;82;108m#aabbcc{ESC}[0m"
    );
    expected += &format!("{ESC}[3;1H{ESC}[2K{ESC}[38;2;178;178;205m    {:<18}  <2>{hex}{ESC}[0m", "Toxic Waste");
    expected += &format!(
        "{ESC}[4;1H{ESC}[2K{ESC}[48;2;20;26;46m{ESC}[1;38;2;255;230;100m  ▸ {:<18}  <3>{ESC}[0m",
        "Custom"
    );
    expected += &format!("{ESC}[5;1H{ESC}[2K{ESC}[38;2;35;35;55m{}{ESC}[0m", "─".repeat(40));
    expected += &format!("{ESC}[6;1H{ESC}[2K");
    expected += &format!(
        "  {ESC}[38;2;92;92;115m▸ Custom gradient — press Enter to configure{ESC}[0m"
    );
    expected += &hints(8);
    assert_eq!(text, expected);
}

#[test]
fn the_search_row_after_a_search() {
    let catalog = catalog();
    let swatches = swatches_for(&catalog);
    let text = draw_picker(0, &[1], "fro", false, 50, 6, &catalog, &swatches, "");
    assert!(text.contains(&format!(
        "  {ESC}[38;2;150;150;180m/fro{ESC}[0m  {ESC}[38;2;95;95;115m1 match{ESC}[0m"
    )));
    let text = draw_picker(0, &[], "", true, 50, 6, &catalog, &swatches, "");
    assert!(text.contains(&format!(
        "  {ESC}[38;2;255;220;80m/_{ESC}[0m  {ESC}[38;2;95;95;115m0 matches{ESC}[0m"
    )));
}

#[test]
fn the_lowest_screen() {
    let catalog = catalog();
    let swatches = swatches_for(&catalog);
    let text = draw_picker(0, &[], "", false, 2, 2, &catalog, &swatches, "");
    assert!(text.contains(&format!("{ESC}[1;1H{ESC}[2K{ESC}[38;2;35;35;55m──{ESC}[0m{ESC}[0;1H{ESC}[2K")));
}
