//! The palette picker as a whole: its list, and the dialogue that asks for the colours of
//! a gradient.

use crate::ansi::Rgb;
use crate::key::Key;
use crate::palette::{PaletteChoice, PaletteEntry};
use crate::picker::{interactive_pick, PickAction, Picker};
#[allow(unused_imports)]
use crate::picker::{pressed, search_result, PickerState};
use crate::prompt::{prompt_hex, Prompt, PromptAction};
#[allow(unused_imports)]
use crate::prompt::{answers, edited, lemma_erasing, lemma_typing, HEX_LIMIT};
#[allow(unused_imports)]
use crate::rng::{is_clock_seed, xorshift};
#[allow(unused_imports)]
use crate::text::{trimmed, utf8_len};
use vstd::prelude::*;

verus! {

/// Takes a colour of the gradient, or `None` where the prompt was left without one: then
/// the picker is closed. `from` is the first colour, once it is known.
pub fn gradient_dialogue(from: &mut Option<Rgb>, answer: Option<Rgb>) -> (action: PickAction)
    ensures
        answer is None ==> action is Cancel && *final(from) == *old(from),
        answer is Some && *old(from) is None ==> action is AskCustom && *final(from) == answer,
        answer is Some && *old(from) is Some ==> {
            &&& action == PickAction::Choose(
                PaletteChoice::Custom { from: old(from)->0, to: answer->0 },
            )
            &&& *final(from) == *old(from)
        },
{
    match (*from, answer) {
        (_, None) => PickAction::Cancel,
        (None, Some(_)) => {
            *from = answer;
            PickAction::AskCustom
        },
        (Some(from), Some(to)) => PickAction::Choose(PaletteChoice::Custom { from, to }),
    }
}

/// The picker: its list and, while the colours of a gradient are asked for, the first
/// colour and the prompt for the next one.
pub struct Picking {
    pub picker: Picker,
    /// Whether the dialogue is open.
    pub asking: bool,
    pub from: Option<Rgb>,
    pub prompt: Prompt,
}

/// The mathematical state of the picker.
#[verifier::ext_equal]
pub struct PickingState {
    pub picker: PickerState,
    pub asking: bool,
    pub from: Option<Rgb>,
    pub input: Seq<char>,
}

impl View for Picking {
    type V = PickingState;

    open spec fn view(&self) -> PickingState {
        PickingState {
            picker: self.picker@,
            asking: self.asking,
            from: self.from,
            input: self.prompt@,
        }
    }
}

/// What is to be done after a key press.
#[derive(Debug, PartialEq, Eq)]
pub enum PickingAction {
    /// Draw the list and read the next key.
    List,
    /// Draw the heading of the dialogue, then as for `Prompt`.
    Open,
    /// Draw the prompt and read the next key.
    Prompt,
    /// Show for a while that the colour is invalid, then as for `Prompt`.
    Reject,
    /// Close the picker with this choice.
    Choose(PaletteChoice),
    /// Close the picker without a choice.
    Cancel,
}

impl PickingState {
    /// Whether a key press opens the dialogue: the selected entry is not one of the `n`
    /// catalogue entries.
    pub open spec fn opens(self, key: Key, n: nat) -> bool {
        !self.asking && self.picker.confirms(key) && !self.picker.on_catalog_entry(n)
    }

    /// Whether a key press closes the picker without a choice. In the dialogue escape
    /// does so, and so does the enter key on a blank line.
    pub open spec fn cancels(self, key: Key) -> bool {
        if self.asking {
            key == Key::Esc || (key == Key::Enter && trimmed(self.input).len() == 0)
        } else {
            self.picker.cancels(key)
        }
    }

    /// Whether a key press gives an answer that is not a colour.
    pub open spec fn rejects(self, key: Key, color: Option<Rgb>) -> bool {
        self.asking && answers(self.input, key) && color is None
    }

    /// Whether a key press gives a colour.
    pub open spec fn accepts(self, key: Key, color: Option<Rgb>) -> bool {
        self.asking && answers(self.input, key) && color is Some
    }

    /// Whether a key press chooses one of the `n` catalogue entries.
    pub open spec fn chooses_entry(self, key: Key, n: nat) -> bool {
        !self.asking && self.picker.confirms(key) && self.picker.on_catalog_entry(n)
    }

    /// Whether a key press gives the second colour.
    pub open spec fn chooses_gradient(self, key: Key, color: Option<Rgb>) -> bool {
        self.accepts(key, color) && self.from is Some
    }

    /// Whether a key press jumps to a random place.
    pub open spec fn is_random(self, key: Key) -> bool {
        !self.asking && self.picker.is_random(key)
    }

    /// The picker after a key press, where `value` is what the generator gives for a jump.
    pub open spec fn after(
        self,
        key: Key,
        color: Option<Rgb>,
        value: u64,
        catalog: Seq<PaletteEntry>,
    ) -> PickingState {
        if self.opens(key, catalog.len()) {
            PickingState { asking: true, from: None, input: Seq::empty(), ..self }
        } else if !self.asking {
            PickingState { picker: pressed(self.picker, key, value, catalog), ..self }
        } else if self.accepts(key, color) && self.from is None {
            PickingState { from: color, input: Seq::empty(), ..self }
        } else if self.rejects(key, color) {
            PickingState { input: Seq::empty(), ..self }
        } else {
            PickingState { input: edited(self.input, key, HEX_LIMIT), ..self }
        }
    }
}

impl Picking {
    /// The picker as it opens: nothing searched for, the whole catalogue listed.
    pub fn new(catalog: &[PaletteEntry]) -> (picking: Self)
        ensures
            picking@ == (PickingState {
                picker: PickerState {
                    selected: 0,
                    search: Seq::empty(),
                    search_active: false,
                    filter: search_result(Seq::empty(), catalog@),
                },
                asking: false,
                from: None,
                input: Seq::empty(),
            }),
            picking@.picker.valid(catalog@),
    {
        Picking {
            picker: Picker::new(catalog),
            asking: false,
            from: None,
            prompt: Prompt::new(),
        }
    }

    /// Handles a key press in the dialogue.
    fn press_dialogue(&mut self, key: Key, color: Option<Rgb>) -> (action: PickingAction)
        requires
            old(self)@.asking,
        ensures
            final(self)@ == old(self)@.after(key, color, 0, Seq::empty()),
            action is Cancel <==> old(self)@.cancels(key),
            action is Reject <==> old(self)@.rejects(key, color),
            action is Choose <==> old(self)@.chooses_gradient(key, color),
            action matches PickingAction::Choose(choice) ==> choice == (PaletteChoice::Custom {
                from: old(self)@.from->0,
                to: color->0,
            }),
            !(action is List) && !(action is Open),
    {
        let answer = match prompt_hex(&mut self.prompt, key, color.is_some()) {
            PromptAction::Wait => return PickingAction::Prompt,
            PromptAction::Reject => return PickingAction::Reject,
            PromptAction::Cancel => None,
            PromptAction::Accept(_) => color,
        };
        match gradient_dialogue(&mut self.from, answer) {
            PickAction::Choose(choice) => PickingAction::Choose(choice),
            PickAction::Cancel => PickingAction::Cancel,
            _ => {
                self.prompt = Prompt::new();
                PickingAction::Prompt
            },
        }
    }

    /// Handles a key press. `color` is the colour that the prompt's answer names, if any;
    /// only the enter key in the dialogue asks for it. A jump to a random place goes by a
    /// generator seeded from the clock.
    pub fn press(&mut self, key: Key, color: Option<Rgb>, catalog: &[PaletteEntry]) -> (action:
        PickingAction)
        requires
            old(self)@.picker.in_bounds(),
        ensures
            final(self)@.picker.in_bounds(),
            !old(self)@.is_random(key) ==> final(self)@ == old(self)@.after(
                key,
                color,
                0,
                catalog@,
            ),
            old(self)@.is_random(key) ==> exists|seed: u64|
                is_clock_seed(seed) && final(self)@ == #[trigger] old(self)@.after(
                    key,
                    color,
                    xorshift(seed),
                    catalog@,
                ),
            action is Open <==> old(self)@.opens(key, catalog@.len()),
            action is Reject <==> old(self)@.rejects(key, color),
            action is Cancel <==> old(self)@.cancels(key),
            action is Choose <==> old(self)@.chooses_entry(key, catalog@.len()) || old(
                self,
            )@.chooses_gradient(key, color),
            action matches PickingAction::Choose(choice) ==> if old(self)@.asking {
                choice == (PaletteChoice::Custom { from: old(self)@.from->0, to: color->0 })
            } else {
                &&& choice is Named
                &&& choice->Named_0@ == catalog@[old(self)@.picker.filter[old(
                    self,
                )@.picker.selected as int] as int].id@
            },
            action is List ==> !old(self)@.asking,
            action is Prompt ==> old(self)@.asking,
    {
        if self.asking {
            return self.press_dialogue(key, color);
        }
        match interactive_pick(&mut self.picker, key, catalog) {
            PickAction::Redraw => {
                proof {
                    if old(self)@.is_random(key) {
                        let seed = choose|seed: u64|
                            is_clock_seed(seed) && self.picker@ == #[trigger] old(
                                self,
                            )@.picker.jumped(xorshift(seed));
                        assert(self@ == old(self)@.after(key, color, xorshift(seed), catalog@));
                    }
                }
                PickingAction::List
            },
            PickAction::Choose(choice) => PickingAction::Choose(choice),
            PickAction::AskCustom => {
                self.asking = true;
                self.from = None;
                self.prompt = Prompt::new();
                PickingAction::Open
            },
            PickAction::Cancel => PickingAction::Cancel,
        }
    }
}

/// A key press with what it may ask for: the colour that the prompt's answer names, and
/// the generator's value for a jump.
pub type Press = (Key, Option<Rgb>, u64);

/// The picker after several key presses.
pub open spec fn picked_all(
    state: PickingState,
    presses: Seq<Press>,
    catalog: Seq<PaletteEntry>,
) -> PickingState
    decreases presses.len(),
{
    if presses.len() == 0 {
        state
    } else {
        let press = presses.last();
        picked_all(state, presses.drop_last(), catalog).after(press.0, press.1, press.2, catalog)
    }
}

/// There is no way back from the dialogue to the list: once it is open, whatever keys are
/// pressed, the list stays as it was, and a key press goes to the prompt, which ends with
/// the picker.
pub proof fn lemma_dialogue_is_final(
    state: PickingState,
    presses: Seq<Press>,
    catalog: Seq<PaletteEntry>,
)
    requires
        state.asking,
    ensures
        picked_all(state, presses, catalog).asking,
        picked_all(state, presses, catalog).picker == state.picker,
    decreases presses.len(),
{
    if presses.len() > 0 {
        lemma_dialogue_is_final(state, presses.drop_last(), catalog);
    }
}

/// In the list, the enter key on what is beyond the catalogue opens the dialogue, with no
/// colour known and nothing typed; all other keys go to the list. The list closes as it does
/// without a dialogue.
pub proof fn lemma_keys_in_the_list(
    state: PickingState,
    key: Key,
    color: Option<Rgb>,
    value: u64,
    catalog: Seq<PaletteEntry>,
)
    requires
        !state.asking,
    ensures
        state.opens(key, catalog.len()) <==> {
            &&& !state.picker.search_active
            &&& key == Key::Enter
            &&& state.picker.selected < state.picker.filter.len()
            &&& state.picker.filter[state.picker.selected as int] >= catalog.len()
        },
        state.opens(key, catalog.len()) ==> state.after(key, color, value, catalog) == (
        PickingState { asking: true, from: None, input: Seq::empty(), ..state }),
        !state.opens(key, catalog.len()) ==> state.after(key, color, value, catalog) == (
        PickingState { picker: pressed(state.picker, key, value, catalog), ..state }),
        state.cancels(key) <==> !state.picker.search_active && (key == Key::Char('q') || (key
            == Key::Esc && state.picker.search.len() == 0)),
        state.chooses_entry(key, catalog.len()) <==> {
            &&& !state.picker.search_active
            &&& key == Key::Enter
            &&& state.picker.selected < state.picker.filter.len()
            &&& state.picker.filter[state.picker.selected as int] < catalog.len()
        },
        !state.chooses_gradient(key, color),
        state.picker.is_random(key) ==> pressed(state.picker, key, value, catalog)
            == state.picker.jumped(value),
        !state.picker.is_random(key) ==> pressed(state.picker, key, value, catalog)
            == state.picker.after(key, catalog),
{
}

/// In the dialogue, the first answer that is a colour is remembered and the second asked for
/// with nothing typed; the second one makes the choice. An answer that is not a colour has the
/// question asked again, and a blank one closes the picker, as escape does.
pub proof fn lemma_answers_in_the_dialogue(
    state: PickingState,
    color: Option<Rgb>,
    value: u64,
    catalog: Seq<PaletteEntry>,
)
    requires
        state.asking,
    ensures
        trimmed(state.input).len() > 0 && color is None ==> {
            &&& state.rejects(Key::Enter, color)
            &&& state.after(Key::Enter, color, value, catalog) == (PickingState {
                input: Seq::empty(),
                ..state
            })
        },
        trimmed(state.input).len() > 0 && color is Some && state.from is None ==> {
            &&& !state.chooses_gradient(Key::Enter, color)
            &&& state.after(Key::Enter, color, value, catalog) == (PickingState {
                from: color,
                input: Seq::empty(),
                ..state
            })
        },
        state.chooses_gradient(Key::Enter, color) <==> trimmed(state.input).len() > 0 && color
            is Some && state.from is Some,
        state.chooses_gradient(Key::Enter, color) || state.cancels(Key::Enter) ==> state.after(
            Key::Enter,
            color,
            value,
            catalog,
        ) == state,
        state.rejects(Key::Enter, color) <==> trimmed(state.input).len() > 0 && color is None,
        state.cancels(Key::Enter) <==> trimmed(state.input).len() == 0,
        state.cancels(Key::Esc),
        !state.chooses_entry(Key::Enter, catalog.len()) && !state.opens(
            Key::Enter,
            catalog.len(),
        ),
{
}

/// While a colour is asked for, every other key goes to the input and to nothing else: a
/// character is added while it has less than eight bytes, and backspace takes one off.
pub proof fn lemma_keys_in_the_dialogue(
    state: PickingState,
    key: Key,
    c: char,
    color: Option<Rgb>,
    value: u64,
    catalog: Seq<PaletteEntry>,
)
    requires
        state.asking,
        key != Key::Enter,
        utf8_len(state.input) <= usize::MAX,
    ensures
        state.after(key, color, value, catalog) == (PickingState {
            input: state.after(key, color, value, catalog).input,
            ..state
        }),
        utf8_len(state.input) < 8 ==> state.after(Key::Char(c), color, value, catalog).input
            == state.input + seq![c],
        utf8_len(state.input) >= 8 ==> state.after(Key::Char(c), color, value, catalog).input
            == state.input,
        state.input.len() > 0 ==> state.after(Key::Backspace, color, value, catalog).input
            + seq![state.input.last()] == state.input,
        key != Key::Backspace && !(key is Char) ==> state.after(key, color, value, catalog)
            == state,
        state.cancels(key) <==> key == Key::Esc,
        !state.rejects(key, color) && !state.chooses_gradient(key, color) && !state.is_random(
            key,
        ),
{
    lemma_typing(state.input, c, HEX_LIMIT);
    lemma_erasing(state.input, key, HEX_LIMIT);
}

} // verus!
