//! Strings as sequences of characters: what the crate takes from the standard
//! library, and the small operations built on it.

use vstd::prelude::*;

verus! {

/// `String::push` appends one character.
pub assume_specification[ String::push ](text: &mut String, c: char)
    ensures
        final(text)@ == old(text)@.push(c),
;

/// `String::pop` takes the last character off and returns it, or returns `None`
/// from an empty string.
pub assume_specification[ String::pop ](text: &mut String) -> (last: Option<char>)
    ensures
        old(text)@.len() == 0 ==> last is None && final(text)@ == old(text)@,
        old(text)@.len() > 0 ==> last == Some(old(text)@.last()) && final(text)@ == old(
            text,
        )@.drop_last(),
;

/// `String::clear` removes the contents.
pub assume_specification[ String::clear ](text: &mut String)
    ensures
        final(text)@ == Seq::<char>::empty(),
;

/// Whether `c` has the Unicode property `White_Space`.
pub open spec fn is_white_space(c: char) -> bool {
    let u = c as u32;
    ||| 0x09 <= u <= 0x0d
    ||| u == 0x20
    ||| u == 0x85
    ||| u == 0xa0
    ||| u == 0x1680
    ||| 0x2000 <= u <= 0x200a
    ||| u == 0x2028
    ||| u == 0x2029
    ||| u == 0x202f
    ||| u == 0x205f
    ||| u == 0x3000
}

/// `s` without the white space at its beginning.
pub open spec fn trimmed_start(s: Seq<char>) -> Seq<char>
    decreases s.len(),
{
    if s.len() > 0 && is_white_space(s[0]) {
        trimmed_start(s.drop_first())
    } else {
        s
    }
}

/// `s` without the white space at its end.
pub open spec fn trimmed_end(s: Seq<char>) -> Seq<char>
    decreases s.len(),
{
    if s.len() > 0 && is_white_space(s.last()) {
        trimmed_end(s.drop_last())
    } else {
        s
    }
}

/// `s` without the white space at its beginning and its end.
pub open spec fn trimmed(s: Seq<char>) -> Seq<char> {
    trimmed_end(trimmed_start(s))
}

proof fn lemma_trimmed_end(s: Seq<char>)
    ensures
        trimmed_end(s).len() <= s.len(),
        trimmed_end(s) == s.take(trimmed_end(s).len() as int),
        trimmed_end(s).len() > 0 ==> !is_white_space(trimmed_end(s).last()),
    decreases s.len(),
{
    if s.len() > 0 && is_white_space(s.last()) {
        lemma_trimmed_end(s.drop_last());
        assert(s.drop_last().take(trimmed_end(s).len() as int) =~= s.take(
            trimmed_end(s).len() as int,
        ));
    } else {
        assert(s.take(s.len() as int) =~= s);
    }
}

proof fn lemma_trimmed_start(s: Seq<char>)
    ensures
        trimmed_start(s).len() > 0 ==> !is_white_space(trimmed_start(s)[0]),
    decreases s.len(),
{
    if s.len() > 0 && is_white_space(s[0]) {
        lemma_trimmed_start(s.drop_first());
    }
}

/// A trimmed text neither begins nor ends with white space, and trimming it again
/// changes nothing.
pub proof fn lemma_trimmed(s: Seq<char>)
    ensures
        trimmed(s).len() > 0 ==> !is_white_space(trimmed(s)[0]) && !is_white_space(
            trimmed(s).last(),
        ),
        trimmed(trimmed(s)) == trimmed(s),
{
    lemma_trimmed_start(s);
    lemma_trimmed_end(trimmed_start(s));
}

/// `str::trim` takes the white space off both ends, where white space is the Unicode
/// property of that name.
pub assume_specification[ str::trim ](s: &str) -> (inner: &str)
    ensures
        inner@ == trimmed(s@),
;

/// What `str::to_lowercase` makes of a text.
pub uninterp spec fn lowercase(s: Seq<char>) -> Seq<char>;

/// Whether all characters are ASCII characters.
pub open spec fn is_ascii(s: Seq<char>) -> bool {
    forall|i: int| 0 <= i < s.len() ==> (#[trigger] s[i]) as u32 <= 0x7f
}

/// An ASCII text with the letters from A to Z made small.
pub open spec fn ascii_lowercase(s: Seq<char>) -> Seq<char> {
    s.map_values(
        |c: char|
            if 'A' <= c && c <= 'Z' {
                (c as u8 + 32) as char
            } else {
                c
            },
    )
}

/// `str::to_lowercase` replaces each character by its lowercase form in Unicode. What
/// that form is goes by the name [`lowercase`]; of ASCII texts it is stated in full.
pub assume_specification[ str::to_lowercase ](s: &str) -> (lower: String)
    ensures
        lower@ == lowercase(s@),
        is_ascii(s@) ==> lower@ == ascii_lowercase(s@),
;

/// Trimming an ASCII text leaves one.
pub proof fn lemma_trimmed_ascii(s: Seq<char>)
    requires
        is_ascii(s),
    ensures
        is_ascii(trimmed(s)),
{
    lemma_trimmed_start_ascii(s);
    lemma_trimmed_end(trimmed_start(s));
}

proof fn lemma_trimmed_start_ascii(s: Seq<char>)
    requires
        is_ascii(s),
    ensures
        is_ascii(trimmed_start(s)),
    decreases s.len(),
{
    if s.len() > 0 && is_white_space(s[0]) {
        let rest = s.drop_first();
        assert forall|i: int| 0 <= i < rest.len() implies (#[trigger] rest[i]) as u32 <= 0x7f by {
            assert(rest[i] == s[i + 1]);
        }
        lemma_trimmed_start_ascii(rest);
    }
}

/// `s` in lowercase: spelt out for ASCII texts, by name for others.
pub open spec fn in_lowercase(s: Seq<char>) -> Seq<char> {
    if is_ascii(s) {
        ascii_lowercase(s)
    } else {
        lowercase(s)
    }
}

/// Puts `s` in lowercase.
pub fn lowered(s: &str) -> (lower: String)
    ensures
        lower@ == in_lowercase(s@),
{
    s.to_lowercase()
}

/// Whether `needle` occurs in `text`.
pub open spec fn occurs_in(needle: Seq<char>, text: Seq<char>) -> bool {
    exists|i: int|
        0 <= i <= text.len() - needle.len() && #[trigger] text.subrange(i, i + needle.len())
            == needle
}

/// `str::contains` with a string as the pattern: whether that string occurs.
#[verifier::external_body]
pub(crate) fn contains(text: &str, needle: &str) -> (found: bool)
    ensures
        found == occurs_in(needle@, text@),
{
    text.contains(needle)
}

/// Nothing at the end of a text changes nothing.
pub broadcast proof fn lemma_append_nothing(s: Seq<char>)
    ensures
        #[trigger] (s + Seq::<char>::empty()) == s,
{
    assert(s + Seq::<char>::empty() =~= s);
}

/// A text that follows nothing is that text.
pub broadcast proof fn lemma_follow_nothing(s: Seq<char>)
    ensures
        #[trigger] (Seq::<char>::empty() + s) == s,
{
    assert(Seq::<char>::empty() + s =~= s);
}

/// The two laws of the empty text, for proofs about texts put together piece by piece.
pub broadcast group group_empty_text {
    lemma_append_nothing,
    lemma_follow_nothing,
}

/// `count` copies of `c`.
pub open spec fn repeated(c: char, count: nat) -> Seq<char> {
    Seq::new(count, |i: int| c)
}

/// Appends `count` copies of `c`.
pub fn push_repeated(text: &mut String, c: char, count: usize)
    ensures
        final(text)@ == old(text)@ + repeated(c, count as nat),
{
    let ghost before = text@;
    proof {
        assert(repeated(c, 0) =~= Seq::<char>::empty());
        lemma_append_nothing(before);
    }
    for done in 0..count
        invariant
            text@ == before + repeated(c, done as nat),
    {
        text.push(c);
        assert(text@ =~= before + repeated(c, (done + 1) as nat));
    }
}

/// The number of bytes that a character takes in UTF-8.
pub open spec fn utf8_width(c: char) -> nat {
    if c as u32 <= 0x7f {
        1
    } else if c as u32 <= 0x7ff {
        2
    } else if c as u32 <= 0xffff {
        3
    } else {
        4
    }
}

/// The number of bytes that a text takes in UTF-8.
pub open spec fn utf8_len(s: Seq<char>) -> nat
    decreases s.len(),
{
    if s.len() == 0 {
        0
    } else {
        utf8_width(s[0]) + utf8_len(s.drop_first())
    }
}

proof fn lemma_utf8_len_is_encoded_len(s: Seq<char>)
    ensures
        vstd::utf8::encode_utf8(s).len() == utf8_len(s),
    decreases s.len(),
{
    if s.len() > 0 {
        vstd::utf8::char_is_scalar(s[0]);
        lemma_utf8_len_is_encoded_len(s.drop_first());
    }
}

/// Texts put together take as many bytes as they do apart.
pub proof fn lemma_utf8_len_add(s: Seq<char>, t: Seq<char>)
    ensures
        utf8_len(s + t) == utf8_len(s) + utf8_len(t),
    decreases s.len(),
{
    if s.len() == 0 {
        assert(s + t =~= t);
    } else {
        assert((s + t).drop_first() =~= s.drop_first() + t);
        lemma_utf8_len_add(s.drop_first(), t);
    }
}

/// An ASCII text takes one byte for each character.
pub proof fn lemma_utf8_len_ascii(s: Seq<char>)
    requires
        forall|i: int| 0 <= i < s.len() ==> (#[trigger] s[i]) as u32 <= 0x7f,
    ensures
        utf8_len(s) == s.len(),
    decreases s.len(),
{
    if s.len() > 0 {
        assert(s[0] as u32 <= 0x7f);
        lemma_utf8_len_ascii(s.drop_first());
    }
}

/// The number of bytes that `s` takes.
pub fn byte_len(s: &str) -> (len: usize)
    ensures
        len == utf8_len(s@) as usize,
{
    proof {
        lemma_utf8_len_is_encoded_len(s@);
    }
    s.len()
}

/// `s` filled up with spaces on the right to at least `width` characters.
pub open spec fn padded(s: Seq<char>, width: nat) -> Seq<char> {
    s + repeated(' ', if s.len() < width { (width - s.len()) as nat } else { 0 })
}

/// Appends `s`, filled up with spaces on the right to at least `width` characters.
pub fn push_padded(text: &mut String, s: &str, width: usize)
    ensures
        final(text)@ == old(text)@ + padded(s@, width as nat),
{
    let ghost before = text@;
    text.append(s);
    push_repeated(text, ' ', width.saturating_sub(s.unicode_len()));
    assert(text@ =~= before + padded(s@, width as nat));
}

/// `s` cut down to at most `max_chars` characters.
pub open spec fn truncated(s: Seq<char>, max_chars: nat) -> Seq<char> {
    if s.len() <= max_chars {
        s
    } else {
        s.take(max_chars as int)
    }
}

/// Cuts `s` down to at most `max_chars` characters.
pub fn truncate_display(s: &str, max_chars: usize) -> (cut: &str)
    ensures
        cut@ == truncated(s@, max_chars as nat),
{
    if s.unicode_len() <= max_chars {
        s
    } else {
        s.substring_char(0, max_chars)
    }
}

/// A truncated text has at most `max_chars` characters, begins as the whole text does,
/// and is the whole text where that fits.
pub proof fn lemma_truncated(s: Seq<char>, max_chars: nat)
    ensures
        truncated(s, max_chars).len() <= max_chars,
        truncated(s, max_chars) == s.take(truncated(s, max_chars).len() as int),
        s.len() <= max_chars ==> truncated(s, max_chars) == s,
{
    assert(s.take(s.len() as int) =~= s);
}

/// `s` with a dash in place of each space.
pub open spec fn dashed(s: Seq<char>) -> Seq<char> {
    s.map_values(
        |c: char|
            if c == ' ' {
                '-'
            } else {
                c
            },
    )
}

/// Puts a dash in place of each space.
pub fn replace_spaces(s: &str) -> (text: String)
    ensures
        text@ == dashed(s@),
{
    let mut text = String::new();
    let n = s.unicode_len();
    for i in 0..n
        invariant
            n == s@.len(),
            text@ == dashed(s@.take(i as int)),
    {
        let c = s.get_char(i);
        text.push(
            if c == ' ' {
                '-'
            } else {
                c
            },
        );
        assert(text@ =~= dashed(s@.take(i + 1)));
    }
    assert(s@.take(n as int) =~= s@);
    text
}

/// The decimal digit `d`.
pub open spec fn digit(d: nat) -> char {
    (d + 48) as char
}

/// `n` in decimal, without leading zeros.
pub open spec fn decimal(n: nat) -> Seq<char>
    decreases n,
{
    if n < 10 {
        seq![digit(n)]
    } else {
        decimal(n / 10).push(digit(n % 10))
    }
}

/// Appends `n` in decimal.
pub fn push_decimal(text: &mut String, n: usize)
    ensures
        final(text)@ == old(text)@ + decimal(n as nat),
    decreases n,
{
    let ghost before = text@;
    if n >= 10 {
        push_decimal(text, n / 10);
    }
    let d: u8 = (n % 10) as u8;
    text.push((d + 48) as char);
    assert(text@ =~= before + decimal(n as nat));
}

/// A repeated character fills all its places, and no others.
pub proof fn lemma_repeated(c: char, count: nat, i: int)
    requires
        0 <= i < count,
    ensures
        repeated(c, count).len() == count,
        repeated(c, count)[i] == c,
{
}

/// A padded text begins with the whole text; it is as wide as asked for, or as the text
/// where that is wider, and holds nothing but spaces behind the text.
pub proof fn lemma_padded(s: Seq<char>, width: nat, i: int)
    requires
        0 <= i < padded(s, width).len(),
    ensures
        s.len() >= width ==> padded(s, width) == s,
        s.len() < width ==> padded(s, width).len() == width,
        i < s.len() ==> padded(s, width)[i] == s[i],
        i >= s.len() ==> padded(s, width)[i] == ' ',
{
    if s.len() >= width {
        assert(padded(s, width) =~= s);
    }
}

/// A text that is too long is cut to exactly `max_chars` characters, its own first ones.
pub proof fn lemma_truncated_to_limit(s: Seq<char>, max_chars: nat, i: int)
    requires
        s.len() > max_chars,
        0 <= i < max_chars,
    ensures
        truncated(s, max_chars).len() == max_chars,
        truncated(s, max_chars)[i] == s[i],
{
}

/// Dashes stand exactly where there were spaces or dashes; all other characters stay.
pub proof fn lemma_dashed(s: Seq<char>, i: int)
    requires
        0 <= i < s.len(),
    ensures
        dashed(s).len() == s.len(),
        dashed(s)[i] == '-' <==> s[i] == ' ' || s[i] == '-',
        s[i] != ' ' ==> dashed(s)[i] == s[i],
{
}

/// The number that a row of decimal digits stands for.
pub open spec fn reading(digits: Seq<char>) -> int
    decreases digits.len(),
{
    if digits.len() == 0 {
        0
    } else {
        10 * reading(digits.drop_last()) + (digits.last() as int - '0' as int)
    }
}

/// Whether `text` is the usual way to write `n`: decimal digits that stand for it, without a
/// zero in front of others.
pub open spec fn is_numeral(text: Seq<char>, n: int) -> bool {
    &&& text.len() > 0
    &&& forall|i: int| 0 <= i < text.len() ==> '0' <= #[trigger] text[i] <= '9'
    &&& text[0] == '0' ==> text.len() == 1
    &&& reading(text) == n
}

/// A number written in decimal reads as that number.
pub proof fn lemma_decimal(n: nat)
    ensures
        is_numeral(decimal(n), n as int),
        n > 0 ==> decimal(n)[0] != '0',
    decreases n,
{
    let text = decimal(n);
    if n < 10 {
        assert(text.drop_last() =~= Seq::empty());
        reveal_with_fuel(reading, 2);
        assert(digit(n) as int == n + 48);
    } else {
        let head = decimal(n / 10);
        lemma_decimal(n / 10);
        assert(text.drop_last() =~= head);
        assert(digit(n % 10) as int == n % 10 + 48);
        assert(text[0] == head[0]);
        assert forall|i: int| 0 <= i < text.len() implies '0' <= #[trigger] text[i] <= '9' by {
            if i < head.len() {
                assert(text[i] == head[i]);
            }
        }
    }
}

/// Lowercase changes nothing in an ASCII text but its capital letters, each to the small
/// letter of the same place in the alphabet; what it makes of another text is the standard
/// library's answer.
pub proof fn lemma_in_lowercase(s: Seq<char>, i: int)
    requires
        0 <= i < s.len(),
    ensures
        is_ascii(s) ==> {
            &&& in_lowercase(s).len() == s.len()
            &&& 'A' <= s[i] <= 'Z' ==> in_lowercase(s)[i] as int - 'a' as int == s[i] as int
                - 'A' as int
            &&& !('A' <= s[i] <= 'Z') ==> in_lowercase(s)[i] == s[i]
        },
        !is_ascii(s) ==> in_lowercase(s) == lowercase(s),
{
    if is_ascii(s) {
        assert(s[i] as u32 <= 0x7f);
    }
}

/// Nothing is left of a text by trimming it exactly where it is all white space.
pub proof fn lemma_blank_is_trimmed_away(s: Seq<char>)
    ensures
        trimmed(s).len() > 0 <==> exists|i: int|
            0 <= i < s.len() && !is_white_space(#[trigger] s[i]),
    decreases s.len(),
{
    if s.len() > 0 && is_white_space(s[0]) {
        let rest = s.drop_first();
        lemma_blank_is_trimmed_away(rest);
        if trimmed(s).len() > 0 {
            let i = choose|i: int| 0 <= i < rest.len() && !is_white_space(#[trigger] rest[i]);
            assert(!is_white_space(s[i + 1]));
        }
        if exists|i: int| 0 <= i < s.len() && !is_white_space(#[trigger] s[i]) {
            let i = choose|i: int| 0 <= i < s.len() && !is_white_space(#[trigger] s[i]);
            assert(!is_white_space(rest[i - 1]));
        }
    } else if s.len() > 0 {
        assert(!is_white_space(s[0]));
        lemma_end_stays_to_first(s);
    }
}

proof fn lemma_end_stays_to_first(s: Seq<char>)
    requires
        s.len() > 0,
        !is_white_space(s[0]),
    ensures
        trimmed_end(s).len() > 0,
    decreases s.len(),
{
    if is_white_space(s.last()) {
        lemma_end_stays_to_first(s.drop_last());
    }
}

/// Whether `cell` is `text` in a column of `width` characters: the text with spaces behind it
/// that fill the column, or the text alone where it fills the column itself.
pub open spec fn fills(cell: Seq<char>, text: Seq<char>, width: int) -> bool {
    &&& cell.len() >= text.len()
    &&& cell.len() >= width
    &&& cell.len() == text.len() || cell.len() == width
    &&& forall|i: int| 0 <= i < text.len() ==> #[trigger] cell[i] == text[i]
    &&& forall|i: int| text.len() <= i < cell.len() ==> #[trigger] cell[i] == ' '
}

/// A padded text fills its column.
pub proof fn lemma_padded_fills(text: Seq<char>, width: nat)
    ensures
        fills(padded(text, width), text, width as int),
{
}

/// Whether `cut` is as much of the beginning of `text` as fits into `width` characters.
pub open spec fn is_cut(cut: Seq<char>, text: Seq<char>, width: int) -> bool {
    &&& cut.len() <= text.len()
    &&& cut.len() <= width
    &&& cut.len() == text.len() || cut.len() == width
    &&& forall|i: int| 0 <= i < cut.len() ==> #[trigger] cut[i] == text[i]
}

/// A truncated text is as much of it as fits.
pub proof fn lemma_truncated_is_cut(text: Seq<char>, width: nat)
    ensures
        is_cut(truncated(text, width), text, width as int),
{
}

/// Whether `line` is `count` times the character `c`, or nothing where `count` is negative.
pub open spec fn is_line_of(line: Seq<char>, c: char, count: int) -> bool {
    &&& count >= 0 ==> line.len() == count
    &&& count < 0 ==> line.len() == 0
    &&& forall|i: int| 0 <= i < line.len() ==> #[trigger] line[i] == c
}

} // verus!
