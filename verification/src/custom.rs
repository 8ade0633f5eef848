//! The manager of the user's own palettes.

use crate::key::Key;
use crate::palette::{CustomPaletteEntry, PaletteChoice};
#[allow(unused_imports)]
use crate::palette::EntryText;
#[allow(unused_imports)]
use crate::screen::minus;
use crate::text::{lowered, replace_spaces};
#[allow(unused_imports)]
use crate::text::{ascii_lowercase, dashed, in_lowercase, is_ascii};
use vstd::prelude::*;

verus! {

/// The manager: the saved palettes and the selected one.
pub struct CustomScreen {
    pub selected: usize,
    pub entries: Vec<CustomPaletteEntry>,
}

/// The mathematical state of the manager.
#[verifier::ext_equal]
pub struct CustomState {
    pub selected: usize,
    pub entries: Seq<EntryText>,
}

impl View for CustomScreen {
    type V = CustomState;

    open spec fn view(&self) -> CustomState {
        CustomState { selected: self.selected, entries: entry_texts(self.entries@) }
    }
}

/// The texts of saved palettes.
pub open spec fn entry_texts(entries: Seq<CustomPaletteEntry>) -> Seq<EntryText> {
    entries.map_values(|entry: CustomPaletteEntry| entry@)
}

/// The texts of the palette that the user describes by these answers: its id is `name`
/// in lowercase with dashes in place of spaces.
pub open spec fn described(
    name: Seq<char>,
    display: Seq<char>,
    from: Seq<char>,
    to: Seq<char>,
) -> EntryText {
    EntryText { name: dashed(in_lowercase(name)), display, from, to }
}

/// What is to be done after a key press in the manager.
#[derive(Debug, PartialEq, Eq)]
pub enum CustomAction {
    /// Draw the manager again and read the next key.
    Redraw,
    /// Ask for a new palette.
    Create,
    /// Save the palettes, then go on.
    Save,
    /// Close the manager with this choice.
    Run(PaletteChoice),
    /// Close the manager without a choice.
    Cancel,
}

impl CustomState {
    /// Whether the selection lies in the list, or at its beginning where it is empty.
    pub open spec fn in_bounds(self) -> bool {
        self.selected < self.entries.len() || (self.selected == 0 && self.entries.len() == 0)
    }

    /// Whether an entry is selected.
    pub open spec fn has_selection(self) -> bool {
        self.selected < self.entries.len()
    }

    /// The manager with a selection behind the end of the list moved to its end.
    pub open spec fn settled(self) -> CustomState {
        if self.selected >= self.entries.len() && self.entries.len() > 0 {
            CustomState { selected: (self.entries.len() - 1) as usize, ..self }
        } else {
            self
        }
    }

    /// The manager without the selected entry.
    pub open spec fn without_selected(self) -> CustomState {
        let rest = self.entries.remove(self.selected as int);
        CustomState {
            selected: if self.selected > 0 && self.selected >= rest.len() {
                (rest.len() - 1) as usize
            } else {
                self.selected
            },
            entries: rest,
        }
    }

    /// The manager with a new entry, which is selected.
    pub open spec fn with_entry(self, entry: EntryText) -> CustomState {
        CustomState {
            selected: self.entries.len() as usize,
            entries: self.entries.push(entry),
        }
    }

    /// Whether a key press deletes the selected entry.
    pub open spec fn deletes(self, key: Key) -> bool {
        (key == Key::Char('d') || key == Key::Char('D')) && self.has_selection()
    }

    /// The manager after a key press.
    pub open spec fn after(self, key: Key) -> CustomState {
        match key {
            Key::Up => CustomState { selected: minus(self.selected as int, 1) as usize, ..self },
            Key::Down => CustomState {
                selected: if self.selected + 1 < self.entries.len() {
                    (self.selected + 1) as usize
                } else {
                    self.selected
                },
                ..self
            },
            _ => if self.deletes(key) {
                self.without_selected()
            } else {
                self
            },
        }
    }
}

impl CustomScreen {
    /// The manager as it opens on the saved palettes.
    pub fn new(entries: Vec<CustomPaletteEntry>) -> (screen: Self)
        ensures
            screen@ == (CustomState { selected: 0, entries: entry_texts(entries@) }),
            screen@.in_bounds(),
    {
        CustomScreen { selected: 0, entries }
    }

    /// Moves a selection behind the end of the list to its end.
    pub fn settle(&mut self)
        ensures
            final(self)@ == old(self)@.settled(),
    {
        if self.selected >= self.entries.len() && !self.entries.is_empty() {
            self.selected = self.entries.len() - 1;
        }
    }

    /// The selected palette, which is the one to run.
    pub fn selected_entry(&self) -> (entry: Option<&CustomPaletteEntry>)
        ensures
            entry is Some <==> self@.has_selection(),
            entry matches Some(entry) ==> *entry == self.entries@[self.selected as int],
    {
        if self.selected < self.entries.len() {
            Some(&self.entries[self.selected])
        } else {
            None
        }
    }

    /// Adds a palette whose id is `lower`, a name already in lowercase, with dashes in
    /// place of spaces, and selects it.
    pub fn add_lowered(&mut self, lower: &str, display: String, from: String, to: String)
        ensures
            final(self)@ == old(self)@.with_entry(
                (EntryText { name: dashed(lower@), display: display@, from: from@, to: to@ }),
            ),
    {
        let name = replace_spaces(lower);
        let entry = CustomPaletteEntry { name, display, from, to };
        let ghost added = entry@;
        self.entries.push(entry);
        self.selected = self.entries.len() - 1;
        assert(self@.entries =~= old(self)@.entries.push(added));
    }

    /// Adds a palette whose id is `name` in lowercase with dashes in place of spaces, and
    /// selects it.
    pub fn add_entry(&mut self, name: &str, display: String, from: String, to: String)
        ensures
            final(self)@ == old(self)@.with_entry(described(name@, display@, from@, to@)),
    {
        self.add_lowered(lowered(name).as_str(), display, from, to);
    }
}

/// Handles a key press in the manager. `choice` is what the palette that
/// [`CustomScreen::selected_entry`] gives is run as; only the enter key asks for it.
pub fn interactive_custom(
    screen: &mut CustomScreen,
    key: Key,
    choice: Option<PaletteChoice>,
) -> (action: CustomAction)
    ensures
        final(screen)@ == old(screen)@.after(key),
        action is Create <==> key == Key::Char('n') || key == Key::Char('N'),
        action is Save <==> old(screen)@.deletes(key),
        action is Cancel <==> key == Key::Esc || key == Key::Char('q'),
        action is Run <==> key == Key::Enter && old(screen)@.has_selection() && choice is Some,
        action matches CustomAction::Run(run) ==> choice == Some(run),
{
    match key {
        Key::Up => {
            screen.selected = screen.selected.saturating_sub(1);
        },
        Key::Down => {
            if !screen.entries.is_empty() && screen.selected < screen.entries.len() - 1 {
                screen.selected += 1;
            }
        },
        Key::Char('n') | Key::Char('N') => return CustomAction::Create,
        Key::Char('d') | Key::Char('D') => {
            if !screen.entries.is_empty() && screen.selected < screen.entries.len() {
                let _ = screen.entries.remove(screen.selected);
                assert(screen@.entries =~= old(screen)@.entries.remove(
                    old(screen)@.selected as int,
                ));
                if screen.selected > 0 && screen.selected >= screen.entries.len() {
                    screen.selected = screen.entries.len() - 1;
                }
                return CustomAction::Save;
            }
        },
        Key::Enter => {
            if !screen.entries.is_empty() && screen.selected < screen.entries.len() {
                if let Some(run) = choice {
                    return CustomAction::Run(run);
                }
            }
        },
        Key::Esc | Key::Char('q') => return CustomAction::Cancel,
        _ => {},
    }
    CustomAction::Redraw
}

/// A key press keeps the selection in the list, and so does a new entry; such a
/// selection is settled already.
pub proof fn lemma_selection_stays_in_bounds(state: CustomState, key: Key, entry: EntryText)
    requires
        state.in_bounds(),
        state.entries.len() < usize::MAX,
    ensures
        state.after(key).in_bounds(),
        state.with_entry(entry).in_bounds(),
        state.settled() == state,
{
}

/// Deleting takes back an entry that has just been added.
pub proof fn lemma_delete_undoes_add(state: CustomState, entry: EntryText)
    requires
        state.entries.len() < usize::MAX,
    ensures
        state.with_entry(entry).after(Key::Char('d')).entries == state.entries,
{
    assert(state.entries.push(entry).remove(state.entries.len() as int) =~= state.entries);
}

/// Deleting removes the selected entry and keeps the others in order.
pub proof fn lemma_delete_keeps_the_others(state: CustomState, key: Key, i: int)
    requires
        state.deletes(key),
        0 <= i < state.entries.len(),
    ensures
        state.after(key).entries.len() == state.entries.len() - 1,
        i < state.selected ==> state.after(key).entries[i] == state.entries[i],
        i > state.selected ==> state.after(key).entries[i - 1] == state.entries[i],
{
}

/// An id never holds a space, and none whose description is ASCII holds a capital letter.
pub proof fn lemma_ids_are_plain(
    name: Seq<char>,
    display: Seq<char>,
    from: Seq<char>,
    to: Seq<char>,
    i: int,
)
    requires
        0 <= i < described(name, display, from, to).name.len(),
    ensures
        described(name, display, from, to).name[i] != ' ',
        is_ascii(name) ==> !('A' <= described(name, display, from, to).name[i] <= 'Z'),
{
    let lower = in_lowercase(name);
    assert(dashed(lower)[i] == (if lower[i] == ' ' {
        '-'
    } else {
        lower[i]
    }));
    if is_ascii(name) {
        assert(ascii_lowercase(name)[i] == (if 'A' <= name[i] && name[i] <= 'Z' {
            (name[i] as u8 + 32) as char
        } else {
            name[i]
        }));
    }
}

/// The up and down keys move by one entry, up to the ends of the list, and change no entry.
pub proof fn lemma_moves_between_entries(state: CustomState)
    requires
        state.entries.len() <= usize::MAX,
    ensures
        state.after(Key::Up).entries == state.entries,
        state.after(Key::Down).entries == state.entries,
        state.selected > 0 ==> state.after(Key::Up).selected + 1 == state.selected,
        state.selected == 0 ==> state.after(Key::Up) == state,
        state.selected + 1 < state.entries.len() ==> state.after(Key::Down).selected
            == state.selected + 1,
        state.selected + 1 >= state.entries.len() ==> state.after(Key::Down) == state,
        state.selected + 1 < state.entries.len() ==> state.after(Key::Down).after(Key::Up)
            == state,
{
}

/// The keys for deleting delete the selected entry, if there is one, and no others do; the
/// entry that followed is selected then, or the last one. All keys but these and the two
/// that move leave the list as it is.
pub proof fn lemma_deleting_keys(state: CustomState, key: Key)
    requires
        state.entries.len() <= usize::MAX,
    ensures
        state.deletes(key) <==> (key == Key::Char('d') || key == Key::Char('D'))
            && state.selected < state.entries.len(),
        state.deletes(key) && state.selected + 1 < state.entries.len() ==> state.after(
            key,
        ).selected == state.selected,
        state.deletes(key) && state.selected + 1 == state.entries.len() && state.selected > 0
            ==> state.after(key).selected + 1 == state.selected,
        state.deletes(key) && state.entries.len() == 1 ==> state.after(key).selected == 0,
        !state.deletes(key) && key != Key::Up && key != Key::Down ==> state.after(key) == state,
        state.has_selection() <==> state.selected < state.entries.len(),
{
}

/// A new entry goes to the end of the list, where it is selected; those before it stay.
pub proof fn lemma_new_entry_is_last(state: CustomState, entry: EntryText, i: int)
    requires
        state.entries.len() < usize::MAX,
        0 <= i < state.entries.len(),
    ensures
        state.with_entry(entry).entries.len() == state.entries.len() + 1,
        state.with_entry(entry).entries.last() == entry,
        state.with_entry(entry).entries[i] == state.entries[i],
        state.with_entry(entry).selected == state.entries.len(),
{
}

/// Settling moves a selection behind the end of the list to its last entry, and no other.
pub proof fn lemma_settling(state: CustomState)
    requires
        state.entries.len() <= usize::MAX,
    ensures
        state.settled().entries == state.entries,
        state.selected < state.entries.len() || state.entries.len() == 0 ==> state.settled()
            == state,
        state.selected >= state.entries.len() && state.entries.len() > 0
            ==> state.settled().selected + 1 == state.entries.len(),
{
}

/// A described palette has the name and the colours as they were given, and an id that has
/// as many characters as the name in lowercase and differs from it only where that has a
/// space: there it has a dash.
pub proof fn lemma_described(
    name: Seq<char>,
    display: Seq<char>,
    from: Seq<char>,
    to: Seq<char>,
    i: int,
)
    requires
        0 <= i < in_lowercase(name).len(),
    ensures
        described(name, display, from, to).display == display,
        described(name, display, from, to).from == from,
        described(name, display, from, to).to == to,
        described(name, display, from, to).name.len() == in_lowercase(name).len(),
        in_lowercase(name)[i] == ' ' ==> described(name, display, from, to).name[i] == '-',
        in_lowercase(name)[i] != ' ' ==> described(name, display, from, to).name[i]
            == in_lowercase(name)[i],
{
}

/// The texts of saved palettes are those of each palette, in order and unchanged.
pub proof fn lemma_entry_texts(entries: Seq<CustomPaletteEntry>, i: int)
    requires
        0 <= i < entries.len(),
    ensures
        entry_texts(entries).len() == entries.len(),
        entry_texts(entries)[i].name == entries[i].name@,
        entry_texts(entries)[i].display == entries[i].display@,
        entry_texts(entries)[i].from == entries[i].from@,
        entry_texts(entries)[i].to == entries[i].to@,
{
}

} // verus!
