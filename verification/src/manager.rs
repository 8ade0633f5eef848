//! The manager of the user's own palettes as a whole: its list, and the dialogue that
//! asks for a new palette.

use crate::custom::{interactive_custom, CustomAction, CustomScreen};
#[allow(unused_imports)]
use crate::custom::{described, entry_texts, lemma_ids_are_plain, CustomState};
use crate::key::Key;
#[allow(unused_imports)]
use crate::key::{key_of, lemma_typed_chars_are_printable};
use crate::palette::{CustomPaletteEntry, PaletteChoice};
#[allow(unused_imports)]
use crate::palette::EntryText;
use crate::prompt::{prompt_hex, prompt_string, Prompt, PromptAction};
#[allow(unused_imports)]
use crate::prompt::{answers, edited, lemma_erasing, lemma_typing, HEX_LIMIT, NAME_LIMIT};
#[allow(unused_imports)]
use crate::text::{is_ascii, lemma_trimmed_ascii, trimmed, utf8_len};
use vstd::prelude::*;

verus! {

/// How many questions the dialogue asks: the id, the name, and two colours.
pub const PALETTE_QUESTIONS: usize = 4;

/// How many of them come before the first that asks for a colour.
pub const NAME_QUESTIONS: usize = 2;

/// What is to be done after an answer in the dialogue.
#[derive(Clone, Copy, Debug, PartialEq, Eq, Structural)]
pub enum DialogueAction {
    /// Ask the next question.
    Ask,
    /// Save the palettes and go back to the list.
    Save,
    /// Go back to the list without a new palette.
    Abandon,
}

/// Takes the answer to the question that follows `answers`, or `None` where the prompt
/// was left without one: then the dialogue is abandoned and nothing changes. With the
/// fourth answer the palette is complete and joins the list.
pub fn palette_dialogue(
    screen: &mut CustomScreen,
    answers: &mut Vec<String>,
    answer: Option<String>,
) -> (step: DialogueAction)
    requires
        old(answers)@.len() < PALETTE_QUESTIONS,
    ensures
        answer is None ==> {
            &&& step is Abandon
            &&& final(screen)@ == old(screen)@
            &&& final(answers)@ == old(answers)@
        },
        answer is Some ==> final(answers)@ == old(answers)@.push(answer->0),
        answer is Some && old(answers)@.len() < 3 ==> {
            &&& step is Ask
            &&& final(screen)@ == old(screen)@
        },
        answer is Some && old(answers)@.len() == 3 ==> {
            &&& step is Save
            &&& final(screen)@ == old(screen)@.with_entry(
                described(
                    old(answers)@[0]@,
                    old(answers)@[1]@,
                    old(answers)@[2]@,
                    answer->0@,
                ),
            )
        },
{
    match answer {
        None => DialogueAction::Abandon,
        Some(answer) => {
            answers.push(answer);
            if answers.len() < PALETTE_QUESTIONS {
                return DialogueAction::Ask;
            }
            screen.add_entry(
                answers[0].as_str(),
                answers[1].clone(),
                answers[2].clone(),
                answers[3].clone(),
            );
            DialogueAction::Save
        },
    }
}

/// The manager: its list and, while a new palette is asked for, the answers so far and
/// the prompt for the next one.
pub struct Manager {
    pub screen: CustomScreen,
    /// Whether the dialogue is open.
    pub asking: bool,
    pub answers: Vec<String>,
    pub prompt: Prompt,
}

/// The mathematical state of the manager.
#[verifier::ext_equal]
pub struct ManagerState {
    pub screen: CustomState,
    pub asking: bool,
    pub answers: Seq<Seq<char>>,
    pub input: Seq<char>,
}

/// The texts of the answers.
pub open spec fn answer_texts(answers: Seq<String>) -> Seq<Seq<char>> {
    answers.map_values(|answer: String| answer@)
}

impl View for Manager {
    type V = ManagerState;

    open spec fn view(&self) -> ManagerState {
        ManagerState {
            screen: self.screen@,
            asking: self.asking,
            answers: answer_texts(self.answers@),
            input: self.prompt@,
        }
    }
}

/// What is to be done after a key press.
#[derive(Debug, PartialEq, Eq)]
pub enum ManagerAction {
    /// Draw the list and read the next key.
    List,
    /// Draw the heading of the dialogue, then as for `Prompt`.
    Open,
    /// Draw the prompt and read the next key.
    Prompt,
    /// Show for a while that the colour is invalid, then as for `Prompt`.
    Reject,
    /// Save the palettes, then as for `List`.
    Save,
    /// Close the manager with this choice.
    Run(PaletteChoice),
    /// Close the manager without a choice.
    Cancel,
}

impl ManagerState {
    /// Whether an open dialogue has a question left.
    pub open spec fn wf(self) -> bool {
        self.asking ==> self.answers.len() < PALETTE_QUESTIONS
    }

    /// Whether the prompt asks for a colour instead of a name.
    pub open spec fn asks_color(self) -> bool {
        self.answers.len() >= NAME_QUESTIONS
    }

    /// Whether a key press leaves the prompt without an answer: escape in any, and the
    /// enter key on a blank line in one that asks for a colour.
    pub open spec fn abandons(self, key: Key) -> bool {
        self.asking && (key == Key::Esc || (self.asks_color() && key == Key::Enter && trimmed(
            self.input,
        ).len() == 0))
    }

    /// Whether a key press gives an answer that is not a colour where one is asked for.
    pub open spec fn rejects(self, key: Key, valid: bool) -> bool {
        self.asking && answers(self.input, key) && self.asks_color() && !valid
    }

    /// Whether a key press answers the question.
    pub open spec fn accepts(self, key: Key, valid: bool) -> bool {
        self.asking && answers(self.input, key) && (self.asks_color() ==> valid)
    }

    /// Whether a key press gives the last answer.
    pub open spec fn completes(self, key: Key, valid: bool) -> bool {
        self.accepts(key, valid) && self.answers.len() + 1 == PALETTE_QUESTIONS
    }

    /// Whether a key press opens the dialogue.
    pub open spec fn opens(self, key: Key) -> bool {
        !self.asking && (key == Key::Char('n') || key == Key::Char('N'))
    }

    /// Whether the palettes are saved after a key press.
    pub open spec fn saves(self, key: Key, valid: bool) -> bool {
        self.completes(key, valid) || (!self.asking && self.screen.deletes(key))
    }

    /// Whether a key press closes the manager without a choice.
    pub open spec fn cancels(self, key: Key) -> bool {
        !self.asking && (key == Key::Esc || key == Key::Char('q'))
    }

    /// Whether a key press asks for the selected palette.
    pub open spec fn confirms(self, key: Key) -> bool {
        !self.asking && key == Key::Enter && self.screen.has_selection()
    }

    /// The palette that the answers describe together with a last one.
    pub open spec fn completed(self, last: Seq<char>) -> EntryText {
        described(self.answers[0], self.answers[1], self.answers[2], last)
    }

    /// The manager with the dialogue closed.
    pub open spec fn listing(screen: CustomState) -> ManagerState {
        ManagerState { screen, asking: false, answers: Seq::empty(), input: Seq::empty() }
    }

    /// The manager with the question asked that follows these answers.
    pub open spec fn questioning(self, answers: Seq<Seq<char>>) -> ManagerState {
        ManagerState { asking: true, answers, input: Seq::empty(), ..self }
    }

    /// The manager after a key press.
    pub open spec fn after(self, key: Key, valid: bool) -> ManagerState {
        if self.opens(key) {
            self.questioning(Seq::empty())
        } else if !self.asking {
            ManagerState { screen: self.screen.after(key), ..self }
        } else if self.abandons(key) {
            ManagerState::listing(self.screen)
        } else if self.completes(key, valid) {
            ManagerState::listing(self.screen.with_entry(self.completed(trimmed(self.input))))
        } else if self.accepts(key, valid) {
            self.questioning(self.answers.push(trimmed(self.input)))
        } else if self.rejects(key, valid) {
            self.questioning(self.answers)
        } else {
            ManagerState {
                input: edited(
                    self.input,
                    key,
                    if self.asks_color() {
                        HEX_LIMIT
                    } else {
                        NAME_LIMIT
                    },
                ),
                ..self
            }
        }
    }
}

impl Manager {
    /// The manager as it opens on the saved palettes.
    pub fn new(entries: Vec<CustomPaletteEntry>) -> (manager: Self)
        ensures
            manager@ == ManagerState::listing(
                (CustomState { selected: 0, entries: entry_texts(entries@) }),
            ),
    {
        let manager = Manager {
            screen: CustomScreen::new(entries),
            asking: false,
            answers: Vec::new(),
            prompt: Prompt::new(),
        };
        assert(manager@.answers =~= Seq::empty());
        manager
    }

    /// Closes the dialogue.
    fn close(&mut self)
        ensures
            final(self)@ == ManagerState::listing(old(self)@.screen),
    {
        self.asking = false;
        self.answers = Vec::new();
        self.prompt = Prompt::new();
        assert(self@.answers =~= Seq::empty());
    }

    /// Handles a key press in the list.
    fn press_list(&mut self, key: Key, choice: Option<PaletteChoice>) -> (action: ManagerAction)
        requires
            !old(self)@.asking,
        ensures
            final(self)@ == old(self)@.after(key, false),
            action is Open <==> old(self)@.opens(key),
            action is Save <==> old(self)@.saves(key, false),
            action is Cancel <==> old(self)@.cancels(key),
            action is Run <==> old(self)@.confirms(key) && choice is Some,
            action matches ManagerAction::Run(run) ==> choice == Some(run),
            !(action is Prompt) && !(action is Reject),
    {
        match interactive_custom(&mut self.screen, key, choice) {
            CustomAction::Redraw => ManagerAction::List,
            CustomAction::Create => {
                self.asking = true;
                self.answers = Vec::new();
                self.prompt = Prompt::new();
                assert(self@.answers =~= Seq::empty());
                ManagerAction::Open
            },
            CustomAction::Save => ManagerAction::Save,
            CustomAction::Run(run) => ManagerAction::Run(run),
            CustomAction::Cancel => ManagerAction::Cancel,
        }
    }

    /// Takes an answer of the dialogue, or its end without one.
    fn take_answer(&mut self, answer: Option<String>) -> (action: ManagerAction)
        requires
            old(self)@.asking,
            old(self)@.wf(),
        ensures
            answer is None ==> {
                &&& action is List
                &&& final(self)@ == ManagerState::listing(old(self)@.screen)
            },
            answer is Some && old(self)@.answers.len() < 3 ==> {
                &&& action is Prompt
                &&& final(self)@ == old(self)@.questioning(
                    old(self)@.answers.push(answer->0@),
                )
            },
            answer is Some && old(self)@.answers.len() == 3 ==> {
                &&& action is Save
                &&& final(self)@ == ManagerState::listing(
                    old(self)@.screen.with_entry(old(self)@.completed(answer->0@)),
                )
            },
    {
        match palette_dialogue(&mut self.screen, &mut self.answers, answer) {
            DialogueAction::Ask => {
                self.prompt = Prompt::new();
                assert(self@.answers =~= old(self)@.answers.push(answer->0@));
                ManagerAction::Prompt
            },
            DialogueAction::Save => {
                self.close();
                ManagerAction::Save
            },
            DialogueAction::Abandon => {
                self.close();
                ManagerAction::List
            },
        }
    }

    /// Handles a key press. `valid` says whether the prompt's answer names a colour, and
    /// `choice` is what the palette that [`CustomScreen::selected_entry`] gives is run as;
    /// only the enter key asks for either.
    pub fn press(&mut self, key: Key, valid: bool, choice: Option<PaletteChoice>) -> (action:
        ManagerAction)
        requires
            old(self)@.wf(),
        ensures
            final(self)@.wf(),
            final(self)@ == old(self)@.after(key, valid),
            action is Open <==> old(self)@.opens(key),
            action is Reject <==> old(self)@.rejects(key, valid),
            action is Save <==> old(self)@.saves(key, valid),
            action is Cancel <==> old(self)@.cancels(key),
            action is Run <==> old(self)@.confirms(key) && choice is Some,
            action matches ManagerAction::Run(run) ==> choice == Some(run),
            action is Prompt <==> old(self)@.asking && final(self)@.asking && !old(
                self,
            )@.rejects(key, valid),
    {
        if !self.asking {
            return self.press_list(key, choice);
        }
        let action = if self.answers.len() < NAME_QUESTIONS {
            prompt_string(&mut self.prompt, key)
        } else {
            prompt_hex(&mut self.prompt, key, valid)
        };
        match action {
            PromptAction::Wait => ManagerAction::Prompt,
            PromptAction::Reject => ManagerAction::Reject,
            PromptAction::Cancel => self.take_answer(None),
            PromptAction::Accept(answer) => self.take_answer(Some(answer)),
        }
    }
}

/// The manager after several key presses, each with whether the prompt's answer at that
/// time names a colour.
pub open spec fn pressed_all(state: ManagerState, presses: Seq<(Key, bool)>) -> ManagerState
    decreases presses.len(),
{
    if presses.len() == 0 {
        state
    } else {
        pressed_all(state, presses.drop_last()).after(presses.last().0, presses.last().1)
    }
}

/// A prompt that is left without an answer ends the dialogue, whichever question it asks:
/// no further question is asked, nothing is saved, the list and its selection are as they
/// were, and the manager goes on.
pub proof fn lemma_abandoned_dialogue_changes_nothing(
    state: ManagerState,
    key: Key,
    valid: bool,
)
    requires
        state.wf(),
        state.abandons(key),
    ensures
        state.after(key, valid) == ManagerState::listing(state.screen),
        !state.saves(key, valid),
        !state.cancels(key),
        !state.confirms(key),
{
}

/// With nothing to delete, the keys for deleting change nothing and save nothing.
pub proof fn lemma_nothing_to_delete(state: ManagerState, key: Key, valid: bool)
    requires
        !state.asking,
        state.screen.entries.len() == 0,
        key == Key::Char('d') || key == Key::Char('D'),
    ensures
        state.after(key, valid) == state,
        !state.saves(key, valid),
{
}

/// Whether a key is one that the terminal sends.
pub open spec fn is_typed(key: Key) -> bool {
    exists|bytes: Seq<u8>| key == #[trigger] key_of(bytes)
}

/// Whether `valid` says of the prompt's answer what `is_color` says of it, where a key
/// press asks for that.
pub open spec fn judged_by(
    state: ManagerState,
    key: Key,
    valid: bool,
    is_color: spec_fn(Seq<char>) -> bool,
) -> bool {
    state.asking && state.asks_color() && answers(state.input, key) ==> valid == is_color(
        trimmed(state.input),
    )
}

/// Whether all key presses come from the terminal, and colours are judged by `is_color`.
pub open spec fn all_judged_by(
    state: ManagerState,
    presses: Seq<(Key, bool)>,
    is_color: spec_fn(Seq<char>) -> bool,
) -> bool
    decreases presses.len(),
{
    presses.len() > 0 ==> {
        &&& all_judged_by(state, presses.drop_last(), is_color)
        &&& is_typed(presses.last().0)
        &&& judged_by(
            pressed_all(state, presses.drop_last()),
            presses.last().0,
            presses.last().1,
            is_color,
        )
    }
}

/// The list before the first key press, and then each that is saved, in order.
pub open spec fn saved_lists(
    state: ManagerState,
    presses: Seq<(Key, bool)>,
) -> Seq<Seq<EntryText>>
    decreases presses.len(),
{
    if presses.len() == 0 {
        seq![state.screen.entries]
    } else {
        let before = pressed_all(state, presses.drop_last());
        let lists = saved_lists(state, presses.drop_last());
        if before.saves(presses.last().0, presses.last().1) {
            lists.push(before.after(presses.last().0, presses.last().1).screen.entries)
        } else {
            lists
        }
    }
}

/// Whether both colours of a palette are colours, and its id holds neither a space nor a
/// capital letter.
pub open spec fn is_sound(entry: EntryText, is_color: spec_fn(Seq<char>) -> bool) -> bool {
    &&& is_color(entry.from)
    &&& is_color(entry.to)
    &&& forall|i: int|
        0 <= i < entry.name.len() ==> #[trigger] entry.name[i] != ' ' && !('A' <= entry.name[i]
            <= 'Z')
}

/// Whether `list` is `earlier` without one of its palettes.
pub open spec fn removes_one(earlier: Seq<EntryText>, list: Seq<EntryText>) -> bool {
    exists|i: int| 0 <= i < earlier.len() && list == #[trigger] earlier.remove(i)
}

/// Whether `list` is `earlier` with a sound palette at its end.
pub open spec fn adds_one(
    earlier: Seq<EntryText>,
    list: Seq<EntryText>,
    is_color: spec_fn(Seq<char>) -> bool,
) -> bool {
    exists|entry: EntryText| list == #[trigger] earlier.push(entry) && is_sound(entry, is_color)
}

/// What holds of an open dialogue: all that was typed is ASCII, and an answer to a
/// question for a colour is one.
pub open spec fn sound_dialogue(
    state: ManagerState,
    is_color: spec_fn(Seq<char>) -> bool,
) -> bool {
    state.asking ==> {
        &&& state.wf()
        &&& is_ascii(state.input)
        &&& forall|i: int| 0 <= i < state.answers.len() ==> is_ascii(#[trigger] state.answers[i])
        &&& state.answers.len() > 2 ==> is_color(state.answers[2])
    }
}

proof fn lemma_dialogue_stays_sound(
    state: ManagerState,
    key: Key,
    valid: bool,
    is_color: spec_fn(Seq<char>) -> bool,
)
    requires
        sound_dialogue(state, is_color),
        is_typed(key),
        judged_by(state, key, valid, is_color),
    ensures
        sound_dialogue(state.after(key, valid), is_color),
{
    let bytes = choose|bytes: Seq<u8>| key == key_of(bytes);
    lemma_typed_chars_are_printable(bytes);
    if state.asking {
        lemma_trimmed_ascii(state.input);
    }
}

proof fn lemma_completed_palette_is_sound(
    state: ManagerState,
    key: Key,
    valid: bool,
    is_color: spec_fn(Seq<char>) -> bool,
)
    requires
        sound_dialogue(state, is_color),
        judged_by(state, key, valid, is_color),
        state.completes(key, valid),
    ensures
        is_sound(state.completed(trimmed(state.input)), is_color),
{
    let last = trimmed(state.input);
    let entry = state.completed(last);
    assert(is_ascii(state.answers[0]));
    assert forall|i: int| 0 <= i < entry.name.len() implies #[trigger] entry.name[i] != ' '
        && !('A' <= entry.name[i] <= 'Z') by {
        lemma_ids_are_plain(state.answers[0], state.answers[1], state.answers[2], last, i);
    }
}

proof fn lemma_saving(
    state: ManagerState,
    key: Key,
    valid: bool,
    is_color: spec_fn(Seq<char>) -> bool,
)
    requires
        sound_dialogue(state, is_color),
        judged_by(state, key, valid, is_color),
    ensures
        state.saves(key, valid) ==> removes_one(
            state.screen.entries,
            state.after(key, valid).screen.entries,
        ) || adds_one(
            state.screen.entries,
            state.after(key, valid).screen.entries,
            is_color,
        ),
        !state.saves(key, valid) ==> state.after(key, valid).screen.entries
            == state.screen.entries,
{
    if state.completes(key, valid) {
        lemma_completed_palette_is_sound(state, key, valid, is_color);
        let entry = state.completed(trimmed(state.input));
        assert(state.after(key, valid).screen.entries == state.screen.entries.push(entry));
    } else if state.saves(key, valid) {
        let i = state.screen.selected as int;
        assert(state.after(key, valid).screen.entries == state.screen.entries.remove(i));
    }
}

proof fn lemma_all_stay_sound(
    state: ManagerState,
    presses: Seq<(Key, bool)>,
    is_color: spec_fn(Seq<char>) -> bool,
)
    requires
        !state.asking,
        all_judged_by(state, presses, is_color),
    ensures
        sound_dialogue(pressed_all(state, presses), is_color),
    decreases presses.len(),
{
    if presses.len() > 0 {
        lemma_all_stay_sound(state, presses.drop_last(), is_color);
        lemma_dialogue_stays_sound(
            pressed_all(state, presses.drop_last()),
            presses.last().0,
            presses.last().1,
            is_color,
        );
    }
}

/// Whatever keys are pressed, each list that is saved is the one before it without one of
/// its palettes, or with one more at its end: that one's colours have been found to be
/// colours, and its id holds neither a space nor a capital letter. What is shown is what
/// was saved last.
pub proof fn lemma_saved_lists(
    state: ManagerState,
    presses: Seq<(Key, bool)>,
    is_color: spec_fn(Seq<char>) -> bool,
)
    requires
        !state.asking,
        all_judged_by(state, presses, is_color),
    ensures
        saved_lists(state, presses).len() > 0,
        saved_lists(state, presses).first() == state.screen.entries,
        saved_lists(state, presses).last() == pressed_all(state, presses).screen.entries,
        forall|k: int|
            #![trigger saved_lists(state, presses)[k]]
            0 < k < saved_lists(state, presses).len() ==> removes_one(
                saved_lists(state, presses)[k - 1],
                saved_lists(state, presses)[k],
            ) || adds_one(
                saved_lists(state, presses)[k - 1],
                saved_lists(state, presses)[k],
                is_color,
            ),
    decreases presses.len(),
{
    if presses.len() > 0 {
        let earlier = presses.drop_last();
        lemma_saved_lists(state, earlier, is_color);
        lemma_all_stay_sound(state, earlier, is_color);
        let before = pressed_all(state, earlier);
        lemma_saving(before, presses.last().0, presses.last().1, is_color);
        let lists = saved_lists(state, earlier);
        let all = saved_lists(state, presses);
        assert forall|k: int| #![trigger all[k]] 0 < k < all.len() implies removes_one(
            all[k - 1],
            all[k],
        ) || adds_one(all[k - 1], all[k], is_color) by {
            if k < lists.len() {
                assert(all[k] == lists[k] && all[k - 1] == lists[k - 1]);
            } else {
                assert(all[k - 1] == lists.last());
            }
        }
    }
}

/// In the list, the keys for a new palette open the dialogue with nothing answered or typed,
/// and with the list as it is; all other keys go to the list.
pub proof fn lemma_list_keys(state: ManagerState, key: Key, valid: bool)
    requires
        !state.asking,
    ensures
        key == Key::Char('n') || key == Key::Char('N') ==> {
            &&& state.opens(key)
            &&& state.after(key, valid).asking
            &&& state.after(key, valid).answers.len() == 0
            &&& state.after(key, valid).input.len() == 0
            &&& state.after(key, valid).screen == state.screen
        },
        key != Key::Char('n') && key != Key::Char('N') ==> {
            &&& !state.opens(key)
            &&& state.after(key, valid) == (ManagerState {
                screen: state.screen.after(key),
                ..state
            })
        },
        state.cancels(key) <==> key == Key::Esc || key == Key::Char('q'),
        state.confirms(key) <==> key == Key::Enter && state.screen.selected
            < state.screen.entries.len(),
        state.saves(key, valid) <==> (key == Key::Char('d') || key == Key::Char('D'))
            && state.screen.selected < state.screen.entries.len(),
{
}

/// An answer that is taken is remembered behind the others, without the white space around
/// it, and the next question is asked with nothing typed. A name is taken whatever it is; a
/// colour only where it is one, and otherwise the same question is asked again.
pub proof fn lemma_answers_are_remembered(state: ManagerState, valid: bool)
    requires
        state.asking,
        state.answers.len() < 3,
        trimmed(state.input).len() > 0,
    ensures
        state.answers.len() < 2 || valid ==> state.after(Key::Enter, valid) == (ManagerState {
            screen: state.screen,
            asking: true,
            answers: state.answers + seq![trimmed(state.input)],
            input: Seq::empty(),
        }),
        state.answers.len() == 2 && !valid ==> state.after(Key::Enter, valid) == (ManagerState {
            input: Seq::empty(),
            ..state
        }),
        state.rejects(Key::Enter, valid) <==> state.answers.len() == 2 && !valid,
        !state.saves(Key::Enter, valid),
{
    assert(state.answers.push(trimmed(state.input)) =~= state.answers + seq![
        trimmed(state.input),
    ]);
}

/// The fourth answer, where it is a colour, completes the palette: it goes to the end of the
/// list with the four answers in their order, it is selected, the list is saved, and the
/// dialogue closes.
pub proof fn lemma_fourth_answer_completes(state: ManagerState, valid: bool)
    requires
        state.asking,
        state.answers.len() == 3,
        trimmed(state.input).len() > 0,
        state.screen.entries.len() < usize::MAX,
    ensures
        state.saves(Key::Enter, valid) <==> valid,
        state.rejects(Key::Enter, valid) <==> !valid,
        !valid ==> state.after(Key::Enter, valid) == (ManagerState {
            input: Seq::empty(),
            ..state
        }),
        valid ==> {
            let after = state.after(Key::Enter, valid);
            &&& !after.asking
            &&& after.answers.len() == 0
            &&& after.input.len() == 0
            &&& after.screen.selected == state.screen.entries.len()
            &&& after.screen.entries.len() == state.screen.entries.len() + 1
            &&& after.screen.entries.drop_last() == state.screen.entries
            &&& after.screen.entries.last().name == described(
                state.answers[0],
                state.answers[1],
                state.answers[2],
                trimmed(state.input),
            ).name
            &&& after.screen.entries.last().display == state.answers[1]
            &&& after.screen.entries.last().from == state.answers[2]
            &&& after.screen.entries.last().to == trimmed(state.input)
        },
{
    if valid {
        assert(state.after(Key::Enter, valid).screen.entries.drop_last()
            =~= state.screen.entries);
    }
}

/// While a question is asked, a key changes nothing but the input: a character is added to a
/// name of less than 30 bytes or a colour of less than eight, and backspace takes one off. On
/// a blank line the enter key does nothing to a question for a name; on one for a colour it
/// ends the dialogue, as escape does on any.
pub proof fn lemma_keys_in_the_dialogue(state: ManagerState, key: Key, c: char, valid: bool)
    requires
        state.asking,
        state.wf(),
        utf8_len(state.input) <= usize::MAX,
    ensures
        key != Key::Enter && key != Key::Esc ==> state.after(key, valid) == (ManagerState {
            input: state.after(key, valid).input,
            ..state
        }),
        utf8_len(state.input) < (if state.answers.len() < 2 {
            30int
        } else {
            8
        }) ==> state.after(Key::Char(c), valid).input == state.input + seq![c],
        utf8_len(state.input) >= (if state.answers.len() < 2 {
            30int
        } else {
            8
        }) ==> state.after(Key::Char(c), valid).input == state.input,
        state.input.len() > 0 ==> state.after(Key::Backspace, valid).input + seq![
            state.input.last(),
        ] == state.input,
        state.input.len() == 0 ==> state.after(Key::Backspace, valid).input.len() == 0,
        key != Key::Enter && key != Key::Esc && key != Key::Backspace && !(key is Char)
            ==> state.after(key, valid) == state,
        trimmed(state.input).len() == 0 && state.answers.len() < 2 ==> state.after(
            Key::Enter,
            valid,
        ) == state,
        state.abandons(key) <==> key == Key::Esc || (key == Key::Enter && state.answers.len() >= 2
            && trimmed(state.input).len() == 0),
        !state.cancels(key) && !state.confirms(key) && !state.opens(key),
{
    lemma_typing(
        state.input,
        c,
        if state.answers.len() < 2 {
            NAME_LIMIT
        } else {
            HEX_LIMIT
        },
    );
    lemma_erasing(state.input, key, NAME_LIMIT);
    lemma_erasing(state.input, key, HEX_LIMIT);
}

/// The texts of answers are those of each answer, in order and unchanged.
pub proof fn lemma_answer_texts(given: Seq<String>, i: int)
    requires
        0 <= i < given.len(),
    ensures
        answer_texts(given).len() == given.len(),
        answer_texts(given)[i] == given[i]@,
{
}

} // verus!
