use pyroclear::ansi::Rgb;
use pyroclear::key::Key;
use pyroclear::palette::{PaletteChoice, PaletteEntry};
use pyroclear::picker::PickAction;
use pyroclear::picking::{gradient_dialogue, Picking, PickingAction};

const BLUE: Rgb = (0, 0, 255);
const RED: Rgb = (255, 0, 0);

fn small_catalog() -> Vec<PaletteEntry> {
    vec![PaletteEntry {
        id: "ocean".to_string(),
        display: "Ocean".to_string(),
        description: "cold".to_string(),
        from_hex: "#000000".to_string(),
        to_hex: "#0000ff".to_string(),
    }]
}

/// A picker whose dialogue has just been opened.
fn asking() -> Picking {
    let catalog = small_catalog();
    let mut picking = Picking::new(&catalog);
    assert_eq!(picking.press(Key::Down, None, &catalog), PickingAction::List);
    assert_eq!(picking.press(Key::Enter, None, &catalog), PickingAction::Open);
    assert!(picking.asking);
    picking
}

fn enter_line(picking: &mut Picking, line: &str, color: Option<Rgb>) -> PickingAction {
    for c in line.chars() {
        assert_eq!(picking.press(Key::Char(c), None, &small_catalog()), PickingAction::Prompt);
    }
    picking.press(Key::Enter, color, &small_catalog())
}

#[test]
fn gradient_steps() {
    let mut from = None;
    assert_eq!(gradient_dialogue(&mut from, None), PickAction::Cancel);
    assert_eq!(from, None);
    assert_eq!(gradient_dialogue(&mut from, Some(BLUE)), PickAction::AskCustom);
    assert_eq!(from, Some(BLUE));
    assert_eq!(gradient_dialogue(&mut from, None), PickAction::Cancel);
    assert_eq!(
        gradient_dialogue(&mut from, Some(RED)),
        PickAction::Choose(PaletteChoice::Custom { from: BLUE, to: RED })
    );
}

#[test]
fn choosing_a_catalogue_entry() {
    let catalog = small_catalog();
    let mut picking = Picking::new(&catalog);
    assert_eq!(
        picking.press(Key::Enter, None, &catalog),
        PickingAction::Choose(PaletteChoice::Named("ocean".to_string()))
    );
}

#[test]
fn choosing_a_gradient() {
    let mut picking = asking();
    assert_eq!(enter_line(&mut picking, "red", None), PickingAction::Reject);
    assert_eq!(picking.prompt.input, "");
    assert_eq!(enter_line(&mut picking, "#0000ff", Some(BLUE)), PickingAction::Prompt);
    assert_eq!(picking.from, Some(BLUE));
    assert_eq!(picking.prompt.input, "");
    assert_eq!(
        enter_line(&mut picking, "#ff0000", Some(RED)),
        PickingAction::Choose(PaletteChoice::Custom { from: BLUE, to: RED })
    );
}

#[test]
fn leaving_the_dialogue_closes_the_picker() {
    for answered in [false, true] {
        for leave in [Key::Esc, Key::Enter] {
            let mut picking = asking();
            if answered {
                enter_line(&mut picking, "#0000ff", Some(BLUE));
            }
            assert_eq!(picking.press(leave, None, &small_catalog()), PickingAction::Cancel);
        }
    }
    let mut picking = asking();
    assert_eq!(enter_line(&mut picking, "   ", None), PickingAction::Cancel);
}

#[test]
fn the_dialogue_keeps_the_list() {
    let mut picking = asking();
    for key in [Key::Up, Key::Char('q'), Key::Char('r'), Key::Char('/'), Key::Backspace] {
        assert_eq!(picking.press(key, None, &small_catalog()), PickingAction::Prompt);
    }
    assert!(picking.asking);
    assert_eq!(picking.picker.selected, 1);
    assert!(!picking.picker.search_active);
    assert_eq!(picking.prompt.input, "qr");
}

#[test]
fn ways_out_of_the_list() {
    let catalog = small_catalog();
    let mut picking = Picking::new(&catalog);
    assert_eq!(picking.press(Key::Char('q'), None, &catalog), PickingAction::Cancel);
    assert_eq!(picking.press(Key::Esc, None, &catalog), PickingAction::Cancel);
    picking.press(Key::Char('/'), None, &catalog);
    assert_eq!(picking.press(Key::Char('q'), None, &catalog), PickingAction::List);
    assert_eq!(picking.press(Key::Esc, None, &catalog), PickingAction::List);
    assert_eq!(picking.press(Key::Esc, None, &catalog), PickingAction::List);
    assert_eq!(picking.press(Key::Esc, None, &catalog), PickingAction::Cancel);
}

#[test]
fn jumping_in_the_list() {
    let catalog = small_catalog();
    let mut picking = Picking::new(&catalog);
    assert_eq!(picking.press(Key::Char('R'), None, &catalog), PickingAction::List);
    assert!(picking.picker.selected < 2);
}
