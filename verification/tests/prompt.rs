use pyroclear::key::Key;
use pyroclear::prompt::{
    draw_prompt, draw_reject, prompt_hex, prompt_string, Prompt, PromptAction, REJECT_PAUSE,
};

fn typed(text: &str) -> Prompt {
    Prompt { input: text.to_string() }
}

#[test]
fn colours_are_typed_up_to_eight_bytes() {
    let mut prompt = Prompt::new();
    assert_eq!(prompt.input, "");
    for c in "#ff00aa12345".chars() {
        assert_eq!(prompt_hex(&mut prompt, Key::Char(c), false), PromptAction::Wait);
    }
    assert_eq!(prompt.input, "#ff00aa1");
    assert_eq!(prompt_hex(&mut prompt, Key::Backspace, false), PromptAction::Wait);
    assert_eq!(prompt.input, "#ff00aa");
}

#[test]
fn names_are_typed_up_to_thirty_bytes() {
    let mut prompt = Prompt::new();
    for _ in 0..40 {
        assert_eq!(prompt_string(&mut prompt, Key::Char('x')), PromptAction::Wait);
    }
    assert_eq!(prompt.input, "x".repeat(30));
}

#[test]
fn the_limit_counts_bytes() {
    let mut prompt = typed("é→é");
    prompt_hex(&mut prompt, Key::Char('🔥'), false);
    prompt_hex(&mut prompt, Key::Char('x'), false);
    assert_eq!(prompt.input, "é→é🔥");
}

#[test]
fn backspace_on_nothing() {
    let mut prompt = Prompt::new();
    assert_eq!(prompt_string(&mut prompt, Key::Backspace), PromptAction::Wait);
    assert_eq!(prompt.input, "");
    prompt_string(&mut prompt, Key::Char('a'));
    prompt_string(&mut prompt, Key::Backspace);
    assert_eq!(prompt.input, "");
}

#[test]
fn valid_colours_are_accepted() {
    let mut prompt = typed("  #a1b2c3 ");
    assert_eq!(prompt.answer(), "#a1b2c3");
    assert_eq!(
        prompt_hex(&mut prompt, Key::Enter, true),
        PromptAction::Accept("#a1b2c3".to_string())
    );
}

#[test]
fn invalid_colours_are_rejected() {
    let mut prompt = typed("red");
    assert_eq!(prompt_hex(&mut prompt, Key::Enter, false), PromptAction::Reject);
    assert_eq!(prompt.input, "");
    assert_eq!(REJECT_PAUSE, 800);
}

#[test]
fn no_colour_cancels() {
    let mut prompt = typed(" \t ");
    assert_eq!(prompt_hex(&mut prompt, Key::Enter, true), PromptAction::Cancel);
    let mut prompt = typed("#a1b2c3");
    assert_eq!(prompt_hex(&mut prompt, Key::Esc, true), PromptAction::Cancel);
    let mut prompt = typed("#a1b2c3");
    assert_eq!(prompt_hex(&mut prompt, Key::Up, true), PromptAction::Wait);
    assert_eq!(prompt.input, "#a1b2c3");
}

#[test]
fn no_name_keeps_the_prompt_open() {
    let mut prompt = typed("   ");
    assert_eq!(prompt_string(&mut prompt, Key::Enter), PromptAction::Wait);
    assert_eq!(prompt.input, "   ");
    let mut prompt = typed(" My Fire ");
    assert_eq!(
        prompt_string(&mut prompt, Key::Enter),
        PromptAction::Accept("My Fire".to_string())
    );
    assert_eq!(prompt_string(&mut prompt, Key::Esc), PromptAction::Cancel);
}

#[test]
fn white_space_is_that_of_unicode() {
    let spaces = "\t\n\x0b\x0c\r \u{85}\u{a0}\u{1680}\u{2000}\u{2001}\u{2002}\u{2003}\u{2004}\u{2005}\u{2006}\u{2007}\u{2008}\u{2009}\u{200a}\u{2028}\u{2029}\u{202f}\u{205f}\u{3000}";
    let prompt = typed(&format!("{spaces}a b{spaces}"));
    assert_eq!(prompt.answer(), "a b");
    for kept in ['\u{200b}', '\u{feff}', '\u{180e}', '_'] {
        assert_eq!(typed(&format!(" {kept} ")).answer(), kept.to_string());
    }
    for u in 0..=0x10ffffu32 {
        if let Some(c) = char::from_u32(u) {
            assert_eq!(c.is_whitespace(), spaces.contains(c));
        }
    }
}

#[test]
fn drawings() {
    let prompt = typed("#f0");
    assert_eq!(
        draw_prompt("  From:", 21, &prompt),
        "\x1b[21;1H\x1b[2K\x1b[38;2;255;200;80m  From:\x1b[0m #f0_"
    );
    assert_eq!(
        draw_reject(21),
        "\x1b[21;1H\x1b[2K\x1b[38;2;255;70;70m  ✗ invalid hex — need #rrggbb\x1b[0m"
    );
}
