//! One-line prompts for colours and names.

use crate::ansi::{push_clear_line, push_fg, push_move_to, push_reset};
#[allow(unused_imports)]
use crate::ansi::{clear_line, fg, move_to, reset};
use crate::key::Key;
#[allow(unused_imports)]
use crate::key::key_of;
use crate::screen::ACCENT;
use crate::text::byte_len;
#[allow(unused_imports)]
use crate::text::{
    group_empty_text, is_ascii, is_white_space, lemma_blank_is_trimmed_away, lemma_trimmed,
    lemma_utf8_len_ascii, trimmed, utf8_len,
};
use vstd::prelude::*;

verus! {

/// A colour prompt takes no further character once the input has this many bytes.
pub const HEX_LIMIT: usize = 8;

/// A name prompt takes no further character once the input has this many bytes.
pub const NAME_LIMIT: usize = 30;

/// How long the message about an invalid colour stays, in milliseconds.
pub const REJECT_PAUSE: u64 = 800;

/// A prompt: what has been typed so far, which is also its view.
pub struct Prompt {
    pub input: String,
}

impl View for Prompt {
    type V = Seq<char>;

    open spec fn view(&self) -> Seq<char> {
        self.input@
    }
}

/// What a prompt asks for, and where it stands.
#[derive(Clone, Copy, Debug, PartialEq, Eq)]
pub struct Question {
    pub label: &'static str,
    pub row: u16,
    /// Whether a colour is asked for instead of a name.
    pub hex: bool,
}

/// Whether `question` has these parts.
pub open spec fn asks(question: Question, label: Seq<char>, row: int, hex: bool) -> bool {
    question.label@ == label && question.row == row && question.hex == hex
}

/// What is to be done after a key press in a prompt.
#[derive(Debug, PartialEq, Eq)]
pub enum PromptAction {
    /// Draw the prompt again and read the next key.
    Wait,
    /// Show for a while that the colour is invalid, then go on.
    Reject,
    /// Close the prompt without an answer.
    Cancel,
    /// Close the prompt with this answer.
    Accept(String),
}

/// The input after an editing key: backspace takes the last character off, and a
/// character is added where the input has fewer than `limit` bytes.
pub open spec fn edited(input: Seq<char>, key: Key, limit: usize) -> Seq<char> {
    match key {
        Key::Backspace => if input.len() > 0 {
            input.drop_last()
        } else {
            input
        },
        Key::Char(c) => if (utf8_len(input) as usize) < limit {
            input.push(c)
        } else {
            input
        },
        _ => input,
    }
}

/// Whether the enter key finds an answer in the input.
pub open spec fn answers(input: Seq<char>, key: Key) -> bool {
    key == Key::Enter && trimmed(input).len() > 0
}

impl Prompt {
    /// A prompt with nothing typed.
    pub fn new() -> (prompt: Self)
        ensures
            prompt@ == Seq::<char>::empty(),
    {
        Prompt { input: String::new() }
    }

    /// What has been typed, without the white space around it.
    pub fn answer(&self) -> (answer: String)
        ensures
            answer@ == trimmed(self@),
    {
        self.input.as_str().trim().to_string()
    }

    /// Handles an editing key, see [`edited`].
    fn edit(&mut self, key: Key, limit: usize)
        ensures
            final(self)@ == edited(old(self)@, key, limit),
    {
        match key {
            Key::Backspace => {
                let _ = self.input.pop();
            },
            Key::Char(c) => {
                if byte_len(self.input.as_str()) < limit {
                    self.input.push(c);
                }
            },
            _ => {},
        }
    }
}

/// Handles a key press in a colour prompt. `valid` says whether the answer, as the
/// prompt gives it, names a colour; only the enter key asks for it.
pub fn prompt_hex(prompt: &mut Prompt, key: Key, valid: bool) -> (action: PromptAction)
    ensures
        action is Cancel <==> key == Key::Esc || (key == Key::Enter && trimmed(
            old(prompt)@,
        ).len() == 0),
        action is Accept <==> answers(old(prompt)@, key) && valid,
        action is Reject <==> answers(old(prompt)@, key) && !valid,
        action matches PromptAction::Accept(answer) ==> answer@ == trimmed(old(prompt)@),
        final(prompt)@ == (if action is Reject {
            Seq::empty()
        } else {
            edited(old(prompt)@, key, HEX_LIMIT)
        }),
{
    match key {
        Key::Enter => {
            let answer = prompt.answer();
            if answer.as_str().is_empty() {
                PromptAction::Cancel
            } else if valid {
                PromptAction::Accept(answer)
            } else {
                prompt.input.clear();
                PromptAction::Reject
            }
        },
        Key::Esc => PromptAction::Cancel,
        _ => {
            prompt.edit(key, HEX_LIMIT);
            PromptAction::Wait
        },
    }
}

/// Handles a key press in a name prompt. An empty answer is not taken: the prompt
/// stays open.
pub fn prompt_string(prompt: &mut Prompt, key: Key) -> (action: PromptAction)
    ensures
        action is Cancel <==> key == Key::Esc,
        action is Accept <==> answers(old(prompt)@, key),
        !(action is Reject),
        action matches PromptAction::Accept(answer) ==> answer@ == trimmed(old(prompt)@),
        final(prompt)@ == edited(old(prompt)@, key, NAME_LIMIT),
{
    match key {
        Key::Enter => {
            let answer = prompt.answer();
            if answer.as_str().is_empty() {
                PromptAction::Wait
            } else {
                PromptAction::Accept(answer)
            }
        },
        Key::Esc => PromptAction::Cancel,
        _ => {
            prompt.edit(key, NAME_LIMIT);
            PromptAction::Wait
        },
    }
}

/// A prompt on its row: the label, then the input with a mark for the cursor.
pub open spec fn prompt_text(label: Seq<char>, row: u16, input: Seq<char>) -> Seq<char> {
    move_to(row) + clear_line() + fg(ACCENT) + label + reset() + " "@ + input + "_"@
}

/// Draws a prompt.
pub fn draw_prompt(label: &str, row: u16, prompt: &Prompt) -> (text: String)
    ensures
        text@ == prompt_text(label@, row, prompt@),
{
    broadcast use group_empty_text;

    let mut text = String::new();
    push_move_to(&mut text, row);
    push_clear_line(&mut text);
    push_fg(&mut text, ACCENT);
    text.append(label);
    push_reset(&mut text);
    text.append(" ");
    text.append(prompt.input.as_str());
    text.append("_");
    text
}

/// The message about an invalid colour, in place of the prompt.
pub open spec fn reject_text(row: u16) -> Seq<char> {
    move_to(row) + clear_line() + fg((255, 70, 70)) + "  ✗ invalid hex — need #rrggbb"@ + reset()
}

/// Draws the message about an invalid colour.
pub fn draw_reject(row: u16) -> (text: String)
    ensures
        text@ == reject_text(row),
{
    broadcast use group_empty_text;

    let mut text = String::new();
    push_move_to(&mut text, row);
    push_clear_line(&mut text);
    push_fg(&mut text, (255, 70, 70));
    text.append("  ✗ invalid hex — need #rrggbb");
    push_reset(&mut text);
    text
}

/// The input after several keys.
pub open spec fn edited_by(input: Seq<char>, keys: Seq<Key>, limit: usize) -> Seq<char>
    decreases keys.len(),
{
    if keys.len() == 0 {
        input
    } else {
        edited(edited_by(input, keys.drop_last(), limit), keys.last(), limit)
    }
}

/// Whatever is typed at the terminal, a prompt that opens empty never holds more
/// than `limit` characters, all of them ASCII.
pub proof fn lemma_input_stays_within_limit(keys: Seq<Key>, limit: usize)
    requires
        forall|i: int|
            0 <= i < keys.len() ==> exists|bytes: Seq<u8>| #[trigger] keys[i] == key_of(bytes),
    ensures
        is_ascii(edited_by(Seq::empty(), keys, limit)),
        edited_by(Seq::empty(), keys, limit).len() <= limit,
    decreases keys.len(),
{
    if keys.len() > 0 {
        let earlier = keys.drop_last();
        assert forall|i: int| 0 <= i < earlier.len() implies exists|bytes: Seq<u8>|
            #[trigger] earlier[i] == key_of(bytes) by {
            assert(earlier[i] == keys[i]);
        }
        lemma_input_stays_within_limit(earlier, limit);
        let before = edited_by(Seq::empty(), earlier, limit);
        lemma_utf8_len_ascii(before);
        let last = keys[keys.len() - 1];
        let bytes = choose|bytes: Seq<u8>| last == key_of(bytes);
        crate::key::lemma_typed_chars_are_printable(bytes);
    }
}

/// Backspace takes back what was typed last, unless the prompt was full and did not
/// take it.
pub proof fn lemma_backspace_undoes_typing(input: Seq<char>, c: char, limit: usize)
    requires
        (utf8_len(input) as usize) < limit,
    ensures
        edited(edited(input, Key::Char(c), limit), Key::Backspace, limit) == input,
{
    assert(input.push(c).drop_last() =~= input);
}

/// An answer is never empty, and neither begins nor ends with white space.
pub proof fn lemma_answers_are_trimmed(input: Seq<char>, key: Key)
    requires
        answers(input, key),
    ensures
        trimmed(input).len() > 0,
        !is_white_space(trimmed(input)[0]),
        !is_white_space(trimmed(input).last()),
{
    lemma_trimmed(input);
}

/// A character that is typed goes to the end of the input while that has fewer bytes than
/// the limit, and nowhere after that.
pub proof fn lemma_typing(input: Seq<char>, c: char, limit: usize)
    requires
        utf8_len(input) <= usize::MAX,
    ensures
        utf8_len(input) < limit ==> edited(input, Key::Char(c), limit) == input + seq![c],
        utf8_len(input) >= limit ==> edited(input, Key::Char(c), limit) == input,
{
    assert(input.push(c) =~= input + seq![c]);
}

/// Backspace takes the last character off, whatever the limit; no key but it and the
/// characters changes the input.
pub proof fn lemma_erasing(input: Seq<char>, key: Key, limit: usize)
    ensures
        input.len() > 0 ==> input == edited(input, Key::Backspace, limit) + seq![input.last()],
        input.len() == 0 ==> edited(input, Key::Backspace, limit).len() == 0,
        key != Key::Backspace && !(key is Char) ==> edited(input, key, limit) == input,
{
    if input.len() > 0 {
        assert(input.drop_last() + seq![input.last()] =~= input);
    }
}

/// Whether `keys` are the characters of `text`, one after the other.
pub open spec fn types(keys: Seq<Key>, text: Seq<char>) -> bool {
    &&& keys.len() == text.len()
    &&& forall|i: int| 0 <= i < keys.len() ==> #[trigger] keys[i] == Key::Char(text[i])
}

/// What is typed into an empty prompt is what it holds, up to the limit: a text of at most
/// `limit` ASCII characters comes out whole, and of a longer one its first `limit`.
pub proof fn lemma_typed_text_arrives(keys: Seq<Key>, text: Seq<char>, limit: usize)
    requires
        types(keys, text),
        is_ascii(text),
    ensures
        text.len() <= limit ==> edited_by(Seq::empty(), keys, limit) == text,
        text.len() > limit ==> edited_by(Seq::empty(), keys, limit) == text.take(limit as int),
    decreases text.len(),
{
    if text.len() == 0 {
        assert(text =~= Seq::empty());
    } else {
        let head = text.drop_last();
        lemma_typed_text_arrives(keys.drop_last(), head, limit);
        let before = edited_by(Seq::empty(), keys.drop_last(), limit);
        let count = if head.len() <= limit {
            head.len() as int
        } else {
            limit as int
        };
        assert(before =~= text.take(count));
        lemma_utf8_len_ascii(before);
        assert(keys.last() == Key::Char(text.last()));
        if text.len() <= limit {
            assert(before.push(text.last()) =~= text);
        }
    }
}

/// The enter key, and no other, finds an answer exactly where the input holds a character
/// that is not white space.
pub proof fn lemma_when_there_is_an_answer(input: Seq<char>, key: Key)
    ensures
        answers(input, key) <==> key == Key::Enter && exists|i: int|
            0 <= i < input.len() && !is_white_space(#[trigger] input[i]),
{
    lemma_blank_is_trimmed_away(input);
}

/// A prompt shows its label and the whole input, with a mark for the cursor behind it; the
/// message about an invalid colour takes its place on the same row.
pub proof fn lemma_prompt_shows_input(label: Seq<char>, row: u16, input: Seq<char>)
    ensures
        prompt_text(label, row, input) == move_to(row) + clear_line() + fg((255, 200, 80)) + label
            + reset() + " "@ + input + "_"@,
        reject_text(row) == move_to(row) + clear_line() + fg((255, 70, 70))
            + "  ✗ invalid hex — need #rrggbb"@ + reset(),
{
}

/// A question has the parts that it is said to have: its label, its row, and whether it asks
/// for a colour.
pub proof fn lemma_questions(question: Question, label: Seq<char>, row: int, hex: bool)
    requires
        asks(question, label, row, hex),
    ensures
        question.label@ == label,
        question.row == row,
        question.hex <==> hex,
{
}

} // verus!
