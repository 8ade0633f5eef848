use pyroclear::custom::CustomScreen;
use pyroclear::key::Key;
use pyroclear::manager::{palette_dialogue, DialogueAction, Manager, ManagerAction};
use pyroclear::palette::{CustomPaletteEntry, PaletteChoice};

fn palette(name: &str) -> CustomPaletteEntry {
    CustomPaletteEntry {
        name: name.to_string(),
        display: "Display".to_string(),
        from: "#000000".to_string(),
        to: "#ffffff".to_string(),
    }
}

fn opened(names: &[&str]) -> Manager {
    Manager::new(names.iter().map(|name| palette(name)).collect())
}

/// Presses a key; an answer names a colour where it begins with `#`.
fn press_key(manager: &mut Manager, key: Key) -> ManagerAction {
    let valid = manager.prompt.answer().starts_with('#');
    manager.press(key, valid, None)
}

fn type_line(manager: &mut Manager, line: &str) -> ManagerAction {
    for c in line.chars() {
        assert_eq!(press_key(manager, Key::Char(c)), ManagerAction::Prompt);
    }
    press_key(manager, Key::Enter)
}

fn ids(manager: &Manager) -> Vec<&str> {
    manager.screen.entries.iter().map(|entry| entry.name.as_str()).collect()
}

#[test]
fn dialogue_steps() {
    let mut screen = CustomScreen::new(vec![palette("a")]);
    let mut answers = Vec::new();
    for answer in ["Two Words", "Name", "#111111"] {
        assert_eq!(
            palette_dialogue(&mut screen, &mut answers, Some(answer.to_string())),
            DialogueAction::Ask
        );
        assert_eq!(screen.entries, vec![palette("a")]);
    }
    assert_eq!(answers, vec!["Two Words", "Name", "#111111"]);
    assert_eq!(palette_dialogue(&mut screen, &mut answers, None), DialogueAction::Abandon);
    assert_eq!(answers.len(), 3);
    assert_eq!(screen.entries, vec![palette("a")]);
    assert_eq!(
        palette_dialogue(&mut screen, &mut answers, Some("#222222".to_string())),
        DialogueAction::Save
    );
    assert_eq!(
        screen.entries[1],
        CustomPaletteEntry {
            name: "two-words".to_string(),
            display: "Name".to_string(),
            from: "#111111".to_string(),
            to: "#222222".to_string(),
        }
    );
    assert_eq!(screen.selected, 1);
}

#[test]
fn creating_a_palette() {
    let mut manager = opened(&["a"]);
    assert_eq!(press_key(&mut manager, Key::Char('n')), ManagerAction::Open);
    assert!(manager.asking);
    assert_eq!(type_line(&mut manager, "  "), ManagerAction::Prompt);
    assert_eq!(manager.answers.len(), 0);
    assert_eq!(type_line(&mut manager, "My ID "), ManagerAction::Prompt);
    assert_eq!(type_line(&mut manager, "My Name"), ManagerAction::Prompt);
    assert_eq!(type_line(&mut manager, "blue"), ManagerAction::Reject);
    assert_eq!(manager.prompt.input, "");
    assert_eq!(type_line(&mut manager, "#0000ff"), ManagerAction::Prompt);
    assert_eq!(manager.answers, vec!["My ID", "My Name", "#0000ff"]);
    assert_eq!(type_line(&mut manager, "#ff0000 "), ManagerAction::Save);
    assert!(!manager.asking);
    assert_eq!(
        manager.screen.entries[1],
        CustomPaletteEntry {
            name: "my-id".to_string(),
            display: "My Name".to_string(),
            from: "#0000ff".to_string(),
            to: "#ff0000".to_string(),
        }
    );
    assert_eq!(manager.screen.selected, 1);
    assert_eq!(press_key(&mut manager, Key::Char('d')), ManagerAction::Save);
    assert_eq!(manager.screen.entries, vec![palette("a")]);
}

#[test]
fn abandoning_a_new_palette() {
    let lines = ["id", "name", "#111111", "#222222"];
    for answered in 0..4 {
        for leave in [Key::Esc, Key::Enter] {
            let mut manager = opened(&["a", "b"]);
            assert_eq!(press_key(&mut manager, Key::Down), ManagerAction::List);
            assert_eq!(press_key(&mut manager, Key::Char('N')), ManagerAction::Open);
            for line in &lines[..answered] {
                assert_eq!(type_line(&mut manager, line), ManagerAction::Prompt);
            }
            let action = press_key(&mut manager, leave);
            if leave == Key::Enter && answered < 2 {
                assert_eq!(action, ManagerAction::Prompt);
                continue;
            }
            assert_eq!(action, ManagerAction::List);
            assert!(!manager.asking);
            assert_eq!(ids(&manager), vec!["a", "b"]);
            assert_eq!(manager.screen.selected, 1);
            assert_eq!(press_key(&mut manager, Key::Up), ManagerAction::List);
            assert_eq!(manager.screen.selected, 0);
        }
    }
}

#[test]
fn a_dialogue_starts_anew() {
    let mut manager = opened(&[]);
    press_key(&mut manager, Key::Char('n'));
    type_line(&mut manager, "left");
    press_key(&mut manager, Key::Char('x'));
    assert_eq!(press_key(&mut manager, Key::Esc), ManagerAction::List);
    assert_eq!(press_key(&mut manager, Key::Char('n')), ManagerAction::Open);
    assert_eq!(manager.answers.len(), 0);
    assert_eq!(manager.prompt.input, "");
}

#[test]
fn list_keys_go_to_an_open_prompt() {
    let mut manager = opened(&["a"]);
    press_key(&mut manager, Key::Char('n'));
    for c in ['d', 'q', 'n'] {
        assert_eq!(press_key(&mut manager, Key::Char(c)), ManagerAction::Prompt);
    }
    assert_eq!(manager.prompt.input, "dqn");
    assert_eq!(ids(&manager), vec!["a"]);
}

#[test]
fn nothing_to_delete() {
    let mut manager = opened(&[]);
    assert_eq!(press_key(&mut manager, Key::Char('d')), ManagerAction::List);
    assert_eq!(press_key(&mut manager, Key::Char('D')), ManagerAction::List);
    assert_eq!(ids(&manager), Vec::<&str>::new());
}

#[test]
fn closing_the_manager() {
    let mut manager = opened(&["a"]);
    let choice = PaletteChoice::Custom { from: (0, 0, 0), to: (255, 255, 255) };
    assert_eq!(
        manager.press(Key::Enter, false, Some(choice)),
        ManagerAction::Run(PaletteChoice::Custom { from: (0, 0, 0), to: (255, 255, 255) })
    );
    assert_eq!(manager.press(Key::Enter, false, None), ManagerAction::List);
    assert_eq!(press_key(&mut manager, Key::Esc), ManagerAction::Cancel);
    assert_eq!(press_key(&mut manager, Key::Char('q')), ManagerAction::Cancel);
}
