//! The palette picker: searching the catalogue and choosing from what was found.

use crate::key::Key;
use crate::palette::{PaletteChoice, PaletteEntry};
use crate::rng::Rng;
#[allow(unused_imports)]
use crate::rng::{is_clock_seed, lemma_xorshift_onto, xorshift};
#[allow(unused_imports)]
use crate::screen::minus;
use crate::text::{contains, lowered};
#[allow(unused_imports)]
use crate::text::{in_lowercase, is_ascii, lemma_in_lowercase, occurs_in};
use vstd::prelude::*;

verus! {

/// The page-up and page-down keys move the selection by this many entries.
pub const PAGE_SIZE: usize = 10;

/// The searchable texts of a catalogue entry: id, name and description.
pub type Searchable = (Seq<char>, Seq<char>, Seq<char>);

/// Whether `search` occurs in any text of an entry.
pub open spec fn matches_search(search: Seq<char>, texts: Searchable) -> bool {
    occurs_in(search, texts.0) || occurs_in(search, texts.1) || occurs_in(search, texts.2)
}

/// The indices below `n` of the entries that match, in order.
pub open spec fn matching(search: Seq<char>, texts: Seq<Searchable>, n: nat) -> Seq<usize>
    decreases n,
{
    if n == 0 {
        Seq::empty()
    } else if matches_search(search, texts[n - 1]) {
        matching(search, texts, (n - 1) as nat).push((n - 1) as usize)
    } else {
        matching(search, texts, (n - 1) as nat)
    }
}

/// What a search in lowercase finds in a catalogue in lowercase: the indices of the
/// matching entries in order, and after them the catalogue's length, which stands for
/// a gradient of the user's own, where the search occurs in the word `custom`.
pub open spec fn found(search: Seq<char>, texts: Seq<Searchable>) -> Seq<usize> {
    let entries = matching(search, texts, texts.len());
    if occurs_in(search, "custom"@) {
        entries.push(texts.len() as usize)
    } else {
        entries
    }
}

/// The catalogue's texts in lowercase.
pub open spec fn lowered_texts(catalog: Seq<PaletteEntry>) -> Seq<Searchable> {
    Seq::new(
        catalog.len(),
        |i: int|
            (
                in_lowercase(catalog[i].id@),
                in_lowercase(catalog[i].display@),
                in_lowercase(catalog[i].description@),
            ),
    )
}

/// What a search finds in a catalogue, with the case of letters ignored.
pub open spec fn search_result(search: Seq<char>, catalog: Seq<PaletteEntry>) -> Seq<usize> {
    found(in_lowercase(search), lowered_texts(catalog))
}

/// The texts of a catalogue entry in lowercase.
pub struct LoweredEntry {
    pub id: String,
    pub display: String,
    pub description: String,
}

/// The texts of lowered entries as sequences of characters.
pub open spec fn texts_of(entries: Seq<LoweredEntry>) -> Seq<Searchable> {
    Seq::new(
        entries.len(),
        |i: int| (entries[i].id@, entries[i].display@, entries[i].description@),
    )
}

/// The empty text occurs everywhere.
proof fn lemma_nothing_occurs(text: Seq<char>)
    ensures
        occurs_in(Seq::empty(), text),
{
    assert(text.subrange(0, 0) =~= Seq::<char>::empty());
    let start: int = 0;
    assert(text.subrange(start, start + Seq::<char>::empty().len()) == Seq::<char>::empty());
}

/// The empty search matches every entry.
proof fn lemma_nothing_matches_all(texts: Seq<Searchable>, n: nat)
    requires
        n <= texts.len() <= usize::MAX,
    ensures
        matching(Seq::empty(), texts, n) == Seq::new(n, |i: int| i as usize),
    decreases n,
{
    if n > 0 {
        lemma_nothing_matches_all(texts, (n - 1) as nat);
        lemma_nothing_occurs(texts[n - 1].0);
    }
    assert(matching(Seq::empty(), texts, n) =~= Seq::new(n, |i: int| i as usize));
}

/// The entries of a lowered catalogue that a lowered search finds, see [`found`].
pub fn filter_lowered(search: &str, entries: &[LoweredEntry]) -> (filter: Vec<usize>)
    ensures
        filter@ == found(search@, texts_of(entries@)),
{
    let ghost texts = texts_of(entries@);
    let n: usize = entries.len();
    let mut filter: Vec<usize> = Vec::new();
    if search.is_empty() {
        for i in 0..n
            invariant
                filter@ == Seq::new(i as nat, |k: int| k as usize),
        {
            filter.push(i);
            assert(filter@ =~= Seq::new((i + 1) as nat, |k: int| k as usize));
        }
        filter.push(n);
        proof {
            assert(search@ =~= Seq::empty());
            lemma_nothing_matches_all(texts, n as nat);
            lemma_nothing_occurs("custom"@);
        }
        return filter;
    }
    for i in 0..n
        invariant
            n == entries@.len(),
            texts == texts_of(entries@),
            filter@ == matching(search@, texts, i as nat),
    {
        let entry = &entries[i];
        if contains(entry.id.as_str(), search) || contains(entry.display.as_str(), search)
            || contains(entry.description.as_str(), search) {
            filter.push(i);
        }
    }
    if contains("custom", search) {
        filter.push(n);
    }
    filter
}

/// The indices of the catalogue entries that `search` finds, with the case of letters
/// ignored; the catalogue's length stands for a gradient of the user's own.
pub fn apply_filter(search: &str, catalog: &[PaletteEntry]) -> (filter: Vec<usize>)
    ensures
        filter@ == search_result(search@, catalog@),
{
    let needle = lowered(search);
    let mut entries: Vec<LoweredEntry> = Vec::new();
    for i in 0..catalog.len()
        invariant
            texts_of(entries@) == lowered_texts(catalog@.take(i as int)),
            entries@.len() == i,
    {
        let entry = &catalog[i];
        entries.push(
            LoweredEntry {
                id: lowered(entry.id.as_str()),
                display: lowered(entry.display.as_str()),
                description: lowered(entry.description.as_str()),
            },
        );
        assert(texts_of(entries@) =~= lowered_texts(catalog@.take(i + 1))) by {
            assert forall|k: int| 0 <= k < i implies texts_of(entries@)[k] == lowered_texts(
                catalog@.take(i + 1),
            )[k] by {
                assert(lowered_texts(catalog@.take(i as int))[k] == lowered_texts(
                    catalog@.take(i + 1),
                )[k]);
            }
        }
    }
    assert(catalog@.take(catalog@.len() as int) =~= catalog@);
    filter_lowered(needle.as_str(), &entries)
}

/// Whether each number is larger than those before it.
pub open spec fn ascending(s: Seq<usize>) -> bool {
    forall|i: int, j: int| 0 <= i < j < s.len() ==> s[i] < s[j]
}

/// Whether no number reaches `bound`.
pub open spec fn all_below(s: Seq<usize>, bound: nat) -> bool {
    forall|i: int| 0 <= i < s.len() ==> (#[trigger] s[i] as int) < bound
}

proof fn lemma_matching_in_order(search: Seq<char>, texts: Seq<Searchable>, n: nat)
    requires
        n <= texts.len() <= usize::MAX,
    ensures
        ascending(matching(search, texts, n)),
        all_below(matching(search, texts, n), n),
    decreases n,
{
    if n > 0 {
        lemma_matching_in_order(search, texts, (n - 1) as nat);
        let before = matching(search, texts, (n - 1) as nat);
        let after = matching(search, texts, n);
        assert forall|i: int| 0 <= i < after.len() implies (#[trigger] after[i] as int) < n by {
            if i < before.len() {
                assert(before[i] == after[i]);
            }
        }
        assert forall|i: int, j: int| 0 <= i < j < after.len() implies after[i] < after[j] by {
            assert(before[i] == after[i]);
            if j < before.len() {
                assert(before[j] == after[j]);
            }
        }
    }
}

/// What a search finds is listed in order, each entry once, and nothing beyond the
/// entry that stands for a gradient of the user's own.
pub proof fn lemma_found_in_order(search: Seq<char>, texts: Seq<Searchable>)
    requires
        texts.len() <= usize::MAX,
    ensures
        ascending(found(search, texts)),
        all_below(found(search, texts), texts.len() + 1),
{
    lemma_matching_in_order(search, texts, texts.len());
    let entries = matching(search, texts, texts.len());
    let all = found(search, texts);
    assert forall|i: int, j: int| 0 <= i < j < all.len() implies all[i] < all[j] by {
        assert(entries[i] == all[i]);
        if j < entries.len() {
            assert(entries[j] == all[j]);
        }
    }
    assert forall|i: int| 0 <= i < all.len() implies (#[trigger] all[i] as int) < texts.len()
        + 1 by {
        if i < entries.len() {
            assert(entries[i] == all[i]);
        }
    }
}

proof fn lemma_matching_exact(search: Seq<char>, texts: Seq<Searchable>, n: nat, i: usize)
    requires
        n <= texts.len() <= usize::MAX,
    ensures
        matching(search, texts, n).contains(i) <==> i < n && matches_search(
            search,
            texts[i as int],
        ),
    decreases n,
{
    if n > 0 {
        let before = matching(search, texts, (n - 1) as nat);
        lemma_matching_exact(search, texts, (n - 1) as nat, i);
        lemma_push_contains(before, (n - 1) as usize, i);
    }
}

proof fn lemma_push_contains(s: Seq<usize>, added: usize, i: usize)
    ensures
        s.push(added).contains(i) <==> s.contains(i) || i == added,
{
    if s.contains(i) {
        let k = choose|k: int| 0 <= k < s.len() && s[k] == i;
        assert(s.push(added)[k] == i);
    }
    if i == added {
        assert(s.push(added)[s.len() as int] == i);
    }
    if s.push(added).contains(i) && i != added {
        let k = choose|k: int| 0 <= k < s.push(added).len() && s.push(added)[k] == i;
        assert(s[k] == i);
    }
}

/// A search finds exactly the entries that it occurs in, and a gradient of the user's
/// own exactly where it occurs in the word `custom`.
pub proof fn lemma_found_exact(search: Seq<char>, texts: Seq<Searchable>, i: usize)
    requires
        texts.len() <= usize::MAX,
    ensures
        i < texts.len() ==> (found(search, texts).contains(i) <==> matches_search(
            search,
            texts[i as int],
        )),
        i == texts.len() ==> (found(search, texts).contains(i) <==> occurs_in(
            search,
            "custom"@,
        )),
        i > texts.len() ==> !found(search, texts).contains(i),
{
    let entries = matching(search, texts, texts.len());
    lemma_matching_exact(search, texts, texts.len(), i);
    lemma_push_contains(entries, texts.len() as usize, i);
}

/// The empty search finds the whole catalogue and a gradient of the user's own.
pub proof fn lemma_empty_search_finds_all(texts: Seq<Searchable>)
    requires
        texts.len() < usize::MAX,
    ensures
        found(Seq::empty(), texts) == Seq::new(texts.len() + 1, |i: int| i as usize),
{
    lemma_nothing_matches_all(texts, texts.len());
    lemma_nothing_occurs("custom"@);
    assert(found(Seq::empty(), texts) =~= Seq::new(texts.len() + 1, |i: int| i as usize));
}

proof fn lemma_part_occurs(part: Seq<char>, whole: Seq<char>, text: Seq<char>)
    requires
        occurs_in(part, whole),
        occurs_in(whole, text),
    ensures
        occurs_in(part, text),
{
    let i = choose|i: int|
        0 <= i <= whole.len() - part.len() && #[trigger] whole.subrange(i, i + part.len()) == part;
    let j = choose|j: int|
        0 <= j <= text.len() - whole.len() && #[trigger] text.subrange(j, j + whole.len())
            == whole;
    assert(text.subrange(j + i, j + i + part.len()) =~= part) by {
        assert forall|k: int| 0 <= k < part.len() implies text.subrange(
            j + i,
            j + i + part.len(),
        )[k] == part[k] by {
            assert(whole.subrange(i, i + part.len())[k] == part[k]);
            assert(text.subrange(j, j + whole.len())[i + k] == whole[i + k]);
        }
    }
}

/// A longer search narrows: it finds nothing that a search for a part of it, such as
/// its beginning, does not find.
pub proof fn lemma_longer_search_finds_less(
    part: Seq<char>,
    whole: Seq<char>,
    texts: Seq<Searchable>,
    i: usize,
)
    requires
        texts.len() <= usize::MAX,
        occurs_in(part, whole),
        found(whole, texts).contains(i),
    ensures
        found(part, texts).contains(i),
{
    lemma_found_exact(whole, texts, i);
    lemma_found_exact(part, texts, i);
    if i < texts.len() {
        let entry = texts[i as int];
        if occurs_in(whole, entry.0) {
            lemma_part_occurs(part, whole, entry.0);
        } else if occurs_in(whole, entry.1) {
            lemma_part_occurs(part, whole, entry.1);
        } else {
            lemma_part_occurs(part, whole, entry.2);
        }
    } else {
        lemma_part_occurs(part, whole, "custom"@);
    }
}

/// The picker: the search, what it found, and the selected place in that list.
pub struct Picker {
    pub selected: usize,
    pub search: String,
    /// Whether keys go to the search instead of the list.
    pub search_active: bool,
    /// The catalogue indices that the search found.
    pub filter: Vec<usize>,
}

/// The mathematical state of a picker.
#[verifier::ext_equal]
pub struct PickerState {
    pub selected: usize,
    pub search: Seq<char>,
    pub search_active: bool,
    pub filter: Seq<usize>,
}

impl View for Picker {
    type V = PickerState;

    open spec fn view(&self) -> PickerState {
        PickerState {
            selected: self.selected,
            search: self.search@,
            search_active: self.search_active,
            filter: self.filter@,
        }
    }
}

/// What is to be done after a key press in the picker.
#[derive(Debug, PartialEq, Eq)]
pub enum PickAction {
    /// Draw the picker again and read the next key.
    Redraw,
    /// Close the picker with this choice.
    Choose(PaletteChoice),
    /// Ask for the two colours of a gradient.
    AskCustom,
    /// Close the picker without a choice.
    Cancel,
}

impl PickerState {
    /// Whether the selection lies in the list, or at its beginning where it is empty.
    pub open spec fn in_bounds(self) -> bool {
        self.selected < self.filter.len() || (self.selected == 0 && self.filter.len() == 0)
    }

    /// Whether the list is what the search finds in `catalog`, with the selection in it.
    pub open spec fn valid(self, catalog: Seq<PaletteEntry>) -> bool {
        self.in_bounds() && self.filter == search_result(self.search, catalog)
    }

    /// The picker with another search, and the first place of what it finds selected.
    pub open spec fn searching(
        self,
        search: Seq<char>,
        catalog: Seq<PaletteEntry>,
    ) -> PickerState {
        PickerState { selected: 0, search, filter: search_result(search, catalog), ..self }
    }

    /// Whether a key press jumps to a random place.
    pub open spec fn is_random(self, key: Key) -> bool {
        !self.search_active && (key == Key::Char('r') || key == Key::Char('R'))
            && self.filter.len() > 0
    }

    /// The picker with the place selected that a random `value` stands for.
    pub open spec fn jumped(self, value: u64) -> PickerState {
        PickerState { selected: (value % self.filter.len() as u64) as usize, ..self }
    }

    /// The picker after a key press that does not jump to a random place.
    pub open spec fn after(self, key: Key, catalog: Seq<PaletteEntry>) -> PickerState {
        if self.search_active {
            match key {
                Key::Esc => PickerState { search_active: false, ..self },
                Key::Enter => PickerState { search_active: false, ..self },
                Key::Backspace => self.searching(
                    if self.search.len() > 0 {
                        self.search.drop_last()
                    } else {
                        self.search
                    },
                    catalog,
                ),
                Key::Char(c) => self.searching(self.search.push(c), catalog),
                _ => self,
            }
        } else {
            match key {
                Key::Up => PickerState {
                    selected: minus(self.selected as int, 1) as usize,
                    ..self
                },
                Key::Down => PickerState {
                    selected: if self.selected + 1 < self.filter.len() {
                        (self.selected + 1) as usize
                    } else {
                        self.selected
                    },
                    ..self
                },
                Key::PageUp => PickerState {
                    selected: minus(self.selected as int, PAGE_SIZE as int) as usize,
                    ..self
                },
                Key::PageDown => PickerState {
                    selected: if self.filter.len() == 0 {
                        self.selected
                    } else if self.selected + PAGE_SIZE < self.filter.len() {
                        (self.selected + PAGE_SIZE) as usize
                    } else {
                        (self.filter.len() - 1) as usize
                    },
                    ..self
                },
                Key::Char('/') => PickerState { search_active: true, ..self },
                Key::Esc => if self.search.len() > 0 {
                    self.searching(Seq::empty(), catalog)
                } else {
                    self
                },
                _ => self,
            }
        }
    }

    /// Whether a key press closes the picker without a choice.
    pub open spec fn cancels(self, key: Key) -> bool {
        !self.search_active && (key == Key::Char('q') || (key == Key::Esc && self.search.len()
            == 0))
    }

    /// Whether a key press asks for the selected entry.
    pub open spec fn confirms(self, key: Key) -> bool {
        !self.search_active && key == Key::Enter && self.selected < self.filter.len()
    }

    /// Whether the selected entry is one of the `n` catalogue entries.
    pub open spec fn on_catalog_entry(self, n: nat) -> bool {
        (self.filter[self.selected as int] as int) < n
    }
}

impl Picker {
    /// The picker as it opens: nothing searched for, the whole catalogue listed.
    pub fn new(catalog: &[PaletteEntry]) -> (picker: Self)
        ensures
            picker@ == (PickerState {
                selected: 0,
                search: Seq::empty(),
                search_active: false,
                filter: search_result(Seq::empty(), catalog@),
            }),
            picker@.valid(catalog@),
    {
        proof {
            reveal_strlit("");
            assert(""@ =~= Seq::empty());
        }
        Picker {
            selected: 0,
            search: String::new(),
            search_active: false,
            filter: apply_filter("", catalog),
        }
    }

    /// Jumps to the place that the generator's next value stands for.
    pub fn jump(&mut self, rng: &mut Rng)
        requires
            old(self)@.filter.len() > 0,
        ensures
            final(self)@ == old(self)@.jumped(xorshift(old(rng)@)),
            final(rng)@ == xorshift(old(rng)@),
            final(self)@.in_bounds(),
    {
        let value = rng.next_u64();
        self.selected = (value % self.filter.len() as u64) as usize;
    }

    /// Searches anew and selects the first place.
    fn refilter(&mut self, catalog: &[PaletteEntry])
        ensures
            final(self)@ == old(self)@.searching(old(self)@.search, catalog@),
    {
        self.filter = apply_filter(self.search.as_str(), catalog);
        self.selected = 0;
    }
}

/// Handles a key press in the picker. A jump to a random place goes by a generator
/// seeded from the clock.
pub fn interactive_pick(picker: &mut Picker, key: Key, catalog: &[PaletteEntry]) -> (action:
    PickAction)
    requires
        old(picker)@.in_bounds(),
    ensures
        final(picker)@.in_bounds(),
        !old(picker)@.is_random(key) ==> final(picker)@ == old(picker)@.after(key, catalog@),
        old(picker)@.is_random(key) ==> exists|seed: u64|
            is_clock_seed(seed) && final(picker)@ == #[trigger] old(picker)@.jumped(
                xorshift(seed),
            ),
        action is Cancel <==> old(picker)@.cancels(key),
        action is Choose <==> old(picker)@.confirms(key) && old(picker)@.on_catalog_entry(
            catalog@.len(),
        ),
        action is AskCustom <==> old(picker)@.confirms(key) && !old(picker)@.on_catalog_entry(
            catalog@.len(),
        ),
        action matches PickAction::Choose(choice) ==> {
            &&& choice is Named
            &&& choice->Named_0@ == catalog@[old(picker)@.filter[old(
                picker,
            )@.selected as int] as int].id@
        },
{
    if picker.search_active {
        match key {
            Key::Esc | Key::Enter => {
                picker.search_active = false;
            },
            Key::Backspace => {
                let _ = picker.search.pop();
                picker.refilter(catalog);
            },
            Key::Char(c) => {
                picker.search.push(c);
                picker.refilter(catalog);
            },
            _ => {},
        }
        return PickAction::Redraw;
    }
    let n: usize = picker.filter.len();
    match key {
        Key::Up => {
            picker.selected = picker.selected.saturating_sub(1);
        },
        Key::Down => {
            if n > 0 && picker.selected + 1 < n {
                picker.selected += 1;
            }
        },
        Key::PageUp => {
            picker.selected = picker.selected.saturating_sub(PAGE_SIZE);
        },
        Key::PageDown => {
            if n > 0 {
                let below: usize = n - 1 - picker.selected;
                picker.selected = if below < PAGE_SIZE {
                    n - 1
                } else {
                    picker.selected + PAGE_SIZE
                };
            }
        },
        Key::Char('/') => {
            picker.search_active = true;
        },
        Key::Char('r') | Key::Char('R') => {
            if n > 0 {
                let mut rng = Rng::new();
                picker.jump(&mut rng);
            }
        },
        Key::Enter => {
            if picker.selected < n {
                let index: usize = picker.filter[picker.selected];
                if index < catalog.len() {
                    return PickAction::Choose(PaletteChoice::Named(catalog[index].id.clone()));
                }
                return PickAction::AskCustom;
            }
        },
        Key::Esc => {
            if picker.search.as_str().is_empty() {
                return PickAction::Cancel;
            }
            picker.search.clear();
            picker.refilter(catalog);
        },
        Key::Char('q') => return PickAction::Cancel,
        _ => {},
    }
    PickAction::Redraw
}

/// The picker after a key press, where `value` is what the generator gives for a jump.
pub open spec fn pressed(
    state: PickerState,
    key: Key,
    value: u64,
    catalog: Seq<PaletteEntry>,
) -> PickerState {
    if state.is_random(key) {
        state.jumped(value)
    } else {
        state.after(key, catalog)
    }
}

/// The picker after several key presses, each with the generator's value for a jump.
pub open spec fn pressed_all(
    state: PickerState,
    keys: Seq<(Key, u64)>,
    catalog: Seq<PaletteEntry>,
) -> PickerState
    decreases keys.len(),
{
    if keys.len() == 0 {
        state
    } else {
        pressed(
            pressed_all(state, keys.drop_last(), catalog),
            keys.last().0,
            keys.last().1,
            catalog,
        )
    }
}

/// Whatever keys are pressed, the list stays what the search finds, and the selection
/// stays in it.
pub proof fn lemma_picker_stays_valid(
    state: PickerState,
    keys: Seq<(Key, u64)>,
    catalog: Seq<PaletteEntry>,
)
    requires
        state.valid(catalog),
        catalog.len() < usize::MAX,
    ensures
        pressed_all(state, keys, catalog).valid(catalog),
    decreases keys.len(),
{
    if keys.len() > 0 {
        lemma_picker_stays_valid(state, keys.drop_last(), catalog);
        let before = pressed_all(state, keys.drop_last(), catalog);
        lemma_found_len(in_lowercase(before.search), lowered_texts(catalog));
        let n = before.filter.len();
        if n > 0 {
            assert(keys.last().1 % (n as u64) < n);
        }
    }
}

/// A search finds at most the whole catalogue and a gradient of the user's own.
proof fn lemma_found_len(search: Seq<char>, texts: Seq<Searchable>)
    ensures
        found(search, texts).len() <= texts.len() + 1,
{
    lemma_matching_len(search, texts, texts.len());
}

proof fn lemma_matching_len(search: Seq<char>, texts: Seq<Searchable>, n: nat)
    ensures
        matching(search, texts, n).len() <= n,
    decreases n,
{
    if n > 0 {
        lemma_matching_len(search, texts, (n - 1) as nat);
    }
}

/// What is chosen was found: the search occurs in the chosen entry, and a gradient of
/// the user's own is only asked for where it occurs in the word `custom`.
pub proof fn lemma_choice_was_found(
    state: PickerState,
    key: Key,
    catalog: Seq<PaletteEntry>,
)
    requires
        state.valid(catalog),
        state.confirms(key),
        catalog.len() <= usize::MAX,
    ensures
        state.on_catalog_entry(catalog.len()) ==> matches_search(
            in_lowercase(state.search),
            lowered_texts(catalog)[state.filter[state.selected as int] as int],
        ),
        !state.on_catalog_entry(catalog.len()) ==> occurs_in(
            in_lowercase(state.search),
            "custom"@,
        ),
{
    let index = state.filter[state.selected as int];
    assert(state.filter.contains(index));
    lemma_found_exact(in_lowercase(state.search), lowered_texts(catalog), index);
}

/// The up key undoes the down key, except at the end of the list.
pub proof fn lemma_up_undoes_down(state: PickerState, catalog: Seq<PaletteEntry>)
    requires
        !state.search_active,
        state.selected + 1 < state.filter.len() <= usize::MAX,
    ensures
        state.after(Key::Down, catalog).after(Key::Up, catalog) == state,
{
}

/// In a search, backspace takes back what was typed last, and the list with it.
pub proof fn lemma_backspace_undoes_typing(
    state: PickerState,
    c: char,
    catalog: Seq<PaletteEntry>,
)
    requires
        state.valid(catalog),
        state.search_active,
        state.selected == 0,
    ensures
        state.after(Key::Char(c), catalog).after(Key::Backspace, catalog) == state,
{
    assert(state.search.push(c).drop_last() =~= state.search);
}

/// The escape key always leads out: the third press closes the picker, if not an
/// earlier one.
pub proof fn lemma_escape_leads_out(state: PickerState, catalog: Seq<PaletteEntry>)
    ensures
        state.after(Key::Esc, catalog).after(Key::Esc, catalog).cancels(Key::Esc),
{
}

/// A search finds a catalogue entry exactly where it occurs in the entry's id, its name or
/// its description, and the case of letters makes no difference; it finds a gradient of the
/// user's own exactly where it occurs in the word `custom`. What it finds is listed in order.
pub proof fn lemma_search_finds_occurrences(
    search: Seq<char>,
    catalog: Seq<PaletteEntry>,
    i: usize,
)
    requires
        catalog.len() <= usize::MAX,
    ensures
        i < catalog.len() ==> (search_result(search, catalog).contains(i) <==> occurs_in(
            in_lowercase(search),
            in_lowercase(catalog[i as int].id@),
        ) || occurs_in(in_lowercase(search), in_lowercase(catalog[i as int].display@))
            || occurs_in(in_lowercase(search), in_lowercase(catalog[i as int].description@))),
        i == catalog.len() ==> (search_result(search, catalog).contains(i) <==> occurs_in(
            in_lowercase(search),
            "custom"@,
        )),
        i > catalog.len() ==> !search_result(search, catalog).contains(i),
        ascending(search_result(search, catalog)),
{
    lemma_found_in_order(in_lowercase(search), lowered_texts(catalog));
    lemma_found_exact(in_lowercase(search), lowered_texts(catalog), i);
}

/// In texts that are in lowercase already, a search finds exactly the entries that it occurs
/// in, whichever of the three texts that is and however long it is.
pub proof fn lemma_lowered_search_finds_occurrences(
    search: Seq<char>,
    entries: Seq<LoweredEntry>,
    i: usize,
)
    requires
        entries.len() <= usize::MAX,
    ensures
        i < entries.len() ==> (found(search, texts_of(entries)).contains(i) <==> occurs_in(
            search,
            entries[i as int].id@,
        ) || occurs_in(search, entries[i as int].display@) || occurs_in(
            search,
            entries[i as int].description@,
        )),
        i == entries.len() ==> (found(search, texts_of(entries)).contains(i) <==> occurs_in(
            search,
            "custom"@,
        )),
{
    lemma_found_exact(search, texts_of(entries), i);
}

/// Who types the whole id, name or description of an entry finds that entry.
pub proof fn lemma_whole_text_is_found(catalog: Seq<PaletteEntry>, i: usize)
    requires
        i < catalog.len() <= usize::MAX,
    ensures
        search_result(catalog[i as int].id@, catalog).contains(i),
        search_result(catalog[i as int].display@, catalog).contains(i),
        search_result(catalog[i as int].description@, catalog).contains(i),
{
    let entry = catalog[i as int];
    lemma_text_occurs_in_itself(in_lowercase(entry.id@));
    lemma_text_occurs_in_itself(in_lowercase(entry.display@));
    lemma_text_occurs_in_itself(in_lowercase(entry.description@));
    lemma_search_finds_occurrences(entry.id@, catalog, i);
    lemma_search_finds_occurrences(entry.display@, catalog, i);
    lemma_search_finds_occurrences(entry.description@, catalog, i);
}

proof fn lemma_text_occurs_in_itself(text: Seq<char>)
    ensures
        occurs_in(text, text),
{
    let start: int = 0;
    assert(text.subrange(start, start + text.len()) =~= text);
}

/// Whether two ASCII characters are the same but for the case of letters.
pub open spec fn same_letter(a: char, b: char) -> bool {
    ||| a == b
    ||| 'a' <= a <= 'z' && a as int == b as int + 32
    ||| 'a' <= b <= 'z' && b as int == a as int + 32
}

/// Two searches in ASCII that differ in the case of letters only find the same.
pub proof fn lemma_search_ignores_case(
    one: Seq<char>,
    other: Seq<char>,
    catalog: Seq<PaletteEntry>,
)
    requires
        is_ascii(one),
        is_ascii(other),
        one.len() == other.len(),
        forall|i: int| 0 <= i < one.len() ==> #[trigger] same_letter(one[i], other[i]),
    ensures
        search_result(one, catalog) == search_result(other, catalog),
{
    assert(in_lowercase(one) =~= in_lowercase(other)) by {
        assert forall|i: int| 0 <= i < one.len() implies in_lowercase(one)[i] == in_lowercase(
            other,
        )[i] by {
            lemma_in_lowercase(one, i);
            lemma_in_lowercase(other, i);
            assert(same_letter(one[i], other[i]));
        }
    }
}

/// A jump selects the place that the generator's value gives as a remainder by the length of
/// the list, and changes nothing else.
pub proof fn lemma_jump(state: PickerState, value: u64)
    requires
        0 < state.filter.len() <= usize::MAX,
    ensures
        exists|rounds: int|
            #![trigger rounds * (state.filter.len() as int)]
            value == rounds * (state.filter.len() as int) + state.jumped(value).selected,
        state.jumped(value).selected == value as int % state.filter.len() as int,
        state.jumped(value).selected < state.filter.len(),
        state.jumped(value) == (PickerState { selected: state.jumped(value).selected, ..state }),
{
    let n = state.filter.len() as int;
    vstd::arithmetic::div_mod::lemma_fundamental_div_mod(value as int, n);
    let rounds = value as int / n;
    assert(rounds * n == n * rounds) by (nonlinear_arith);
    assert(value == rounds * (state.filter.len() as int) + state.jumped(value).selected);
}

/// Every place of the list can be jumped to, from some state that a generator can be in.
pub proof fn lemma_jump_reaches_every_place(state: PickerState, place: int)
    requires
        0 <= place < state.filter.len() <= usize::MAX,
    ensures
        exists|seed: u64|
            seed != 0 && #[trigger] state.jumped(xorshift(seed)).selected == place,
{
    let n = state.filter.len() as u64;
    let target = if place == 0 {
        n
    } else {
        place as u64
    };
    assert(target % n == place) by {
        if place == 0 {
            vstd::arithmetic::div_mod::lemma_mod_self_0(n as int);
        } else {
            vstd::arithmetic::div_mod::lemma_small_mod(target as nat, n as nat);
        }
    }
    lemma_xorshift_onto(target);
    let seed = choose|seed: u64| xorshift(seed) == target;
    assert(xorshift(0) == 0) by (bit_vector);
    assert(state.jumped(xorshift(seed)).selected == place);
}

/// How the keys that move in the list move: by one place or by ten, up to the end of the
/// list, and without any other effect.
pub proof fn lemma_moves_in_the_list(state: PickerState, catalog: Seq<PaletteEntry>)
    requires
        !state.search_active,
        state.in_bounds(),
        state.filter.len() <= usize::MAX,
    ensures
        ({
            let up = state.after(Key::Up, catalog);
            let down = state.after(Key::Down, catalog);
            let page_up = state.after(Key::PageUp, catalog);
            let page_down = state.after(Key::PageDown, catalog);
            &&& up == (PickerState { selected: up.selected, ..state })
            &&& down == (PickerState { selected: down.selected, ..state })
            &&& page_up == (PickerState { selected: page_up.selected, ..state })
            &&& page_down == (PickerState { selected: page_down.selected, ..state })
            &&& state.selected >= 1 ==> up.selected + 1 == state.selected
            &&& state.selected < 1 ==> up.selected == 0
            &&& state.selected >= 10 ==> page_up.selected + 10 == state.selected
            &&& state.selected < 10 ==> page_up.selected == 0
            &&& state.selected + 1 < state.filter.len() ==> down.selected == state.selected + 1
            &&& state.selected + 1 >= state.filter.len() ==> down.selected == state.selected
            &&& state.selected + 10 < state.filter.len() ==> page_down.selected
                == state.selected + 10
            &&& state.selected + 10 >= state.filter.len() && state.filter.len() > 0
                ==> page_down.selected + 1 == state.filter.len()
            &&& state.filter.len() == 0 ==> page_down.selected == state.selected
        }),
{
}

/// What the keys do that open, edit and leave a search. A key that edits it has the list
/// searched anew, with its first place selected.
pub proof fn lemma_search_keys(state: PickerState, c: char, catalog: Seq<PaletteEntry>)
    ensures
        !state.search_active ==> state.after(Key::Char('/'), catalog) == (PickerState {
            search_active: true,
            ..state
        }),
        state.search_active ==> {
            &&& state.after(Key::Enter, catalog) == (PickerState {
                search_active: false,
                ..state
            })
            &&& state.after(Key::Esc, catalog) == (PickerState {
                search_active: false,
                ..state
            })
            &&& state.after(Key::Char(c), catalog) == (PickerState {
                selected: 0,
                search: state.search + seq![c],
                search_active: true,
                filter: search_result(state.search + seq![c], catalog),
            })
            &&& state.after(Key::Backspace, catalog).search_active
            &&& state.after(Key::Backspace, catalog).selected == 0
            &&& state.after(Key::Backspace, catalog).filter == search_result(
                state.after(Key::Backspace, catalog).search,
                catalog,
            )
            &&& state.search.len() > 0 ==> state.search == state.after(
                Key::Backspace,
                catalog,
            ).search + seq![state.search.last()]
            &&& state.search.len() == 0 ==> state.after(Key::Backspace, catalog).search.len() == 0
        },
        !state.search_active && state.search.len() > 0 ==> {
            let cleared = state.after(Key::Esc, catalog);
            &&& cleared.search.len() == 0
            &&& cleared.selected == 0
            &&& !cleared.search_active
            &&& cleared.filter == search_result(Seq::empty(), catalog)
        },
{
    assert(state.search.push(c) =~= state.search + seq![c]);
    if state.search.len() > 0 {
        assert(state.search.drop_last() + seq![state.search.last()] =~= state.search);
    }
}

/// All other keys leave the picker as it is.
pub proof fn lemma_other_keys(state: PickerState, key: Key, catalog: Seq<PaletteEntry>)
    ensures
        state.search_active && (key == Key::Up || key == Key::Down || key == Key::Left || key
            == Key::Right || key == Key::PageUp || key == Key::PageDown || key == Key::Other)
            ==> state.after(key, catalog) == state,
        !state.search_active && (key == Key::Left || key == Key::Right || key == Key::Enter
            || key == Key::Backspace || key == Key::Other) ==> state.after(key, catalog)
            == state,
        !state.search_active && key == Key::Esc && state.search.len() == 0 ==> state.after(
            key,
            catalog,
        ) == state,
        !state.search_active && key is Char && key != Key::Char('/') ==> state.after(
            key,
            catalog,
        ) == state,
{
}

/// What a key press asks for: in a search nothing ever; in the list, `q` and, without a
/// search, escape lead out, the enter key takes the selected entry, and `r` jumps.
pub proof fn lemma_what_keys_ask_for(state: PickerState, key: Key)
    ensures
        state.search_active ==> !state.cancels(key) && !state.confirms(key) && !state.is_random(
            key,
        ),
        !state.search_active ==> {
            &&& state.cancels(Key::Char('q'))
            &&& state.cancels(Key::Esc) <==> state.search.len() == 0
            &&& state.confirms(Key::Enter) <==> state.selected < state.filter.len()
            &&& state.is_random(Key::Char('r')) <==> state.filter.len() > 0
            &&& state.is_random(Key::Char('R')) <==> state.filter.len() > 0
        },
        state.cancels(key) ==> key == Key::Char('q') || key == Key::Esc,
        state.confirms(key) ==> key == Key::Enter,
        state.is_random(key) ==> key == Key::Char('r') || key == Key::Char('R'),
        forall|n: nat|
            #![trigger state.on_catalog_entry(n)]
            state.on_catalog_entry(n) <==> state.filter[state.selected as int] < n,
{
}

/// The page-up key undoes the page-down key, except near the end of the list.
pub proof fn lemma_page_up_undoes_page_down(state: PickerState, catalog: Seq<PaletteEntry>)
    requires
        !state.search_active,
        state.selected + 10 < state.filter.len() <= usize::MAX,
    ensures
        state.after(Key::PageDown, catalog).after(Key::PageUp, catalog) == state,
{
}

} // verus!
