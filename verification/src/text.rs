//! Character classes, exact comparison and assembly of text.
//!
//! Text is modelled as its sequence of characters. Every rule of the relay that looks at
//! text first takes it apart with [`chars_of`] and then reads characters by index.

use vstd::prelude::*;

verus! {

/// `String::push` appends one character and changes nothing else.
pub assume_specification[ String::push ](target: &mut String, c: char)
    ensures
        final(target)@ == old(target)@.push(c),
;

/// The character classes that relay identifiers are made of.
#[derive(Clone, Copy, PartialEq, Eq, Structural, Debug)]
pub enum CharClass {
    /// `0` to `9`.
    Digit,
    /// `0` to `9` and `a` to `f`.
    LowerHex,
    /// `0` to `9`, `a` to `f` and `A` to `F`.
    Hex,
    /// `0` to `9` and `a` to `z`.
    LowerAlphanumeric,
    /// `0` to `9`, `a` to `z`, `A` to `Z`.
    Alphanumeric,
    /// The alphanumerics with `-`.
    Label,
    /// The alphanumerics with `-` and `_`.
    UrlSafe,
}

impl CharClass {
    /// Whether a character belongs to the class.
    pub open spec fn holds(self, c: char) -> bool {
        match self {
            CharClass::Digit => '0' <= c <= '9',
            CharClass::LowerHex => '0' <= c <= '9' || 'a' <= c <= 'f',
            CharClass::Hex => '0' <= c <= '9' || 'a' <= c <= 'f' || 'A' <= c <= 'F',
            CharClass::LowerAlphanumeric => '0' <= c <= '9' || 'a' <= c <= 'z',
            CharClass::Alphanumeric => '0' <= c <= '9' || 'a' <= c <= 'z' || 'A' <= c <= 'Z',
            CharClass::Label => '0' <= c <= '9' || 'a' <= c <= 'z' || 'A' <= c <= 'Z' || c == '-',
            CharClass::UrlSafe => '0' <= c <= '9' || 'a' <= c <= 'z' || 'A' <= c <= 'Z' || c == '-'
                || c == '_',
        }
    }

    /// Tests a character for membership.
    pub fn admits(self, c: char) -> (member: bool)
        ensures
            member == self.holds(c),
    {
        let digit = '0' <= c && c <= '9';
        let lower = 'a' <= c && c <= 'z';
        let upper = 'A' <= c && c <= 'Z';
        match self {
            CharClass::Digit => digit,
            CharClass::LowerHex => digit || ('a' <= c && c <= 'f'),
            CharClass::Hex => digit || ('a' <= c && c <= 'f') || ('A' <= c && c <= 'F'),
            CharClass::LowerAlphanumeric => digit || lower,
            CharClass::Alphanumeric => digit || lower || upper,
            CharClass::Label => digit || lower || upper || c == '-',
            CharClass::UrlSafe => digit || lower || upper || c == '-' || c == '_',
        }
    }
}

/// Every character of the text belongs to the class.
pub open spec fn all_in(text: Seq<char>, class: CharClass) -> bool {
    forall|i: int| 0 <= i < text.len() ==> class.holds(#[trigger] text[i])
}

/// The text begins with `prefix`.
pub open spec fn starts_with(text: Seq<char>, prefix: Seq<char>) -> bool {
    text.len() >= prefix.len() && text.subrange(0, prefix.len() as int) == prefix
}

/// The text ends with `suffix`.
pub open spec fn ends_with(text: Seq<char>, suffix: Seq<char>) -> bool {
    text.len() >= suffix.len() && text.subrange(text.len() - suffix.len(), text.len() as int)
        == suffix
}

/// The characters of a text, in order.
pub fn chars_of(text: &str) -> (chars: Vec<char>)
    ensures
        chars@ == text@,
{
    let mut chars: Vec<char> = Vec::new();
    for c in iter: text.chars()
        invariant
            iter.seq() == text@,
            chars@ == text@.take(iter.index()),
    {
        proof {
            assert(text@.take(iter.index() + 1) =~= text@.take(iter.index()).push(c));
        }
        chars.push(c);
    }
    proof {
        assert(text@.take(text@.len() as int) =~= text@);
    }
    chars
}

/// The text that the characters from `from` up to `to` spell.
pub fn text_of(chars: &Vec<char>, from: usize, to: usize) -> (text: String)
    requires
        from <= to <= chars@.len(),
    ensures
        text@ == chars@.subrange(from as int, to as int),
{
    let mut text: String = String::new();
    let mut i: usize = from;
    while i < to
        invariant
            from <= i <= to <= chars@.len(),
            text@ == chars@.subrange(from as int, i as int),
        decreases to - i,
    {
        proof {
            assert(chars@.subrange(from as int, i + 1) =~= chars@.subrange(
                from as int,
                i as int,
            ).push(chars@[i as int]));
        }
        text.push(chars[i]);
        i += 1;
    }
    text
}

/// Compares two texts character by character.
pub fn same_text(left: &str, right: &str) -> (equal: bool)
    ensures
        equal == (left@ == right@),
{
    let a: String = left.to_owned();
    let b: String = right.to_owned();
    a == b
}

/// Tests whether the characters from `from` up to `to` all belong to a class.
pub fn range_in(chars: &Vec<char>, from: usize, to: usize, class: CharClass) -> (every: bool)
    requires
        from <= to <= chars@.len(),
    ensures
        every == all_in(chars@.subrange(from as int, to as int), class),
{
    let mut i: usize = from;
    while i < to
        invariant
            from <= i <= to <= chars@.len(),
            forall|j: int| from <= j < i ==> class.holds(#[trigger] chars@[j]),
        decreases to - i,
    {
        if !class.admits(chars[i]) {
            proof {
                let part = chars@.subrange(from as int, to as int);
                assert(part[i - from] == chars@[i as int]);
            }
            return false;
        }
        i += 1;
    }
    proof {
        let part = chars@.subrange(from as int, to as int);
        assert forall|j: int| 0 <= j < part.len() implies class.holds(#[trigger] part[j]) by {
            assert(part[j] == chars@[from + j]);
        }
    }
    true
}

/// Tests whether `part` stands in `chars` at position `at`.
pub fn stands_at(chars: &Vec<char>, at: usize, part: &Vec<char>) -> (same: bool)
    requires
        at + part@.len() <= chars@.len(),
    ensures
        same == (chars@.subrange(at as int, at + part@.len()) == part@),
{
    let total: usize = chars.len();
    let mut i: usize = 0;
    while i < part.len()
        invariant
            i <= part@.len(),
            at + part@.len() <= chars@.len() == total,
            forall|j: int| 0 <= j < i ==> chars@[at + j] == #[trigger] part@[j],
        decreases part@.len() - i,
    {
        if chars[at + i] != part[i] {
            proof {
                let window = chars@.subrange(at as int, at + part@.len());
                assert(window[i as int] == chars@[at + i]);
            }
            return false;
        }
        i += 1;
    }
    proof {
        assert(chars@.subrange(at as int, at + part@.len()) =~= part@);
    }
    true
}

/// Tests whether a text begins with `prefix`.
pub fn has_prefix(chars: &Vec<char>, prefix: &Vec<char>) -> (found: bool)
    ensures
        found == starts_with(chars@, prefix@),
{
    chars.len() >= prefix.len() && stands_at(chars, 0, prefix)
}

/// Tests whether a text ends with `suffix`.
pub fn has_suffix(chars: &Vec<char>, suffix: &Vec<char>) -> (found: bool)
    ensures
        found == ends_with(chars@, suffix@),
{
    chars.len() >= suffix.len() && stands_at(chars, chars.len() - suffix.len(), suffix)
}

/// The text that follows `prefix`, where the text begins with it.
pub fn after_prefix(text: &str, prefix: &str) -> (rest: Option<String>)
    ensures
        rest is Some == starts_with(text@, prefix@),
        rest matches Some(tail) ==> tail@ == text@.skip(prefix@.len() as int),
{
    let chars: Vec<char> = chars_of(text);
    let head: Vec<char> = chars_of(prefix);
    if has_prefix(&chars, &head) {
        let tail: String = text_of(&chars, head.len(), chars.len());
        proof {
            assert(tail@ =~= text@.skip(prefix@.len() as int));
        }
        Some(tail)
    } else {
        None
    }
}

/// Two texts, one after the other.
pub fn joined(left: &str, right: &str) -> (text: String)
    ensures
        text@ == left@ + right@,
{
    left.to_owned().concat(right)
}

/// Whether a character is white space.
pub open spec fn white(c: char) -> bool {
    ||| '\u{9}' <= c <= '\u{d}'
    ||| c == ' '
    ||| c == '\u{85}'
    ||| c == '\u{a0}'
    ||| c == '\u{1680}'
    ||| '\u{2000}' <= c <= '\u{200a}'
    ||| c == '\u{2028}'
    ||| c == '\u{2029}'
    ||| c == '\u{202f}'
    ||| c == '\u{205f}'
    ||| c == '\u{3000}'
}

/// Tells whether a character is white space.
pub fn is_white(c: char) -> (answer: bool)
    ensures
        answer == white(c),
{
    ('\u{9}' <= c && c <= '\u{d}') || c == ' ' || c == '\u{85}' || c == '\u{a0}' || c == '\u{1680}'
        || ('\u{2000}' <= c && c <= '\u{200a}') || c == '\u{2028}' || c == '\u{2029}' || c
        == '\u{202f}' || c == '\u{205f}' || c == '\u{3000}'
}

/// A text without the white space at its end.
pub open spec fn trimmed_end(text: Seq<char>) -> Seq<char>
    decreases text.len(),
{
    if text.len() > 0 && white(text.last()) {
        trimmed_end(text.drop_last())
    } else {
        text
    }
}

/// A text without the white space at its start.
pub open spec fn trimmed_start(text: Seq<char>) -> Seq<char>
    decreases text.len(),
{
    if text.len() > 0 && white(text[0]) {
        trimmed_start(text.drop_first())
    } else {
        text
    }
}

/// A text without the white space around it.
pub open spec fn trimmed(text: Seq<char>) -> Seq<char> {
    trimmed_end(trimmed_start(text))
}

/// Takes the white space around a text off.
pub fn trim(text: &str) -> (inner: String)
    ensures
        inner@ == trimmed(text@),
{
    let chars: Vec<char> = chars_of(text);
    let mut from: usize = 0;
    proof {
        assert(chars@.skip(0) =~= text@);
    }
    while from < chars.len() && is_white(chars[from])
        invariant
            from <= chars@.len(),
            chars@ == text@,
            trimmed_start(chars@.skip(from as int)) == trimmed_start(text@),
        decreases chars@.len() - from,
    {
        proof {
            assert(chars@.skip(from as int).drop_first() =~= chars@.skip(from + 1));
        }
        from += 1;
    }
    let ghost rest = chars@.skip(from as int);
    proof {
        assert(rest == trimmed_start(text@));
    }
    let mut to: usize = chars.len();
    proof {
        assert(chars@.subrange(from as int, to as int) =~= rest);
    }
    while to > from && is_white(chars[to - 1])
        invariant
            from <= to <= chars@.len(),
            rest == trimmed_start(text@),
            trimmed_end(chars@.subrange(from as int, to as int)) == trimmed_end(rest),
        decreases to,
    {
        proof {
            assert(chars@.subrange(from as int, to as int).drop_last() =~= chars@.subrange(
                from as int,
                to - 1,
            ));
        }
        to -= 1;
    }
    text_of(&chars, from, to)
}

/// Trimming takes off white space alone, at both ends and nowhere else, and all of it there.
pub proof fn law_only_white_space_is_trimmed(text: Seq<char>)
    ensures
        exists|from: int, to: int|
            {
                &&& 0 <= from <= to <= text.len()
                &&& trimmed(text) == #[trigger] text.subrange(from, to)
                &&& forall|i: int|
                    (0 <= i < from || to <= i < text.len()) ==> white(#[trigger] text[i])
                &&& from < to ==> !white(text[from]) && !white(text[to - 1])
            },
{
    let from = lemma_trimmed_start(text);
    let rest = text.skip(from);
    let to = lemma_trimmed_end(rest);
    assert(trimmed(text) =~= text.subrange(from, from + to));
    assert forall|i: int| (0 <= i < from || from + to <= i < text.len()) implies white(
        #[trigger] text[i],
    ) by {
        if i >= from + to {
            assert(rest[i - from] == text[i]);
        }
    }
    if 0 < to {
        assert(rest[0] == text[from]);
        assert(rest[to - 1] == text[from + to - 1]);
    }
}

proof fn lemma_trimmed_start(text: Seq<char>) -> (from: int)
    ensures
        0 <= from <= text.len(),
        trimmed_start(text) == text.skip(from),
        forall|i: int| 0 <= i < from ==> white(#[trigger] text[i]),
        from < text.len() ==> !white(text[from]),
    decreases text.len(),
{
    if text.len() > 0 && white(text[0]) {
        let rest = text.drop_first();
        let from = lemma_trimmed_start(rest);
        assert(rest.skip(from) =~= text.skip(from + 1));
        assert forall|i: int| 0 <= i < from + 1 implies white(#[trigger] text[i]) by {
            if i > 0 {
                assert(rest[i - 1] == text[i]);
            }
        }
        from + 1
    } else {
        assert(text.skip(0) =~= text);
        0
    }
}

proof fn lemma_trimmed_end(text: Seq<char>) -> (to: int)
    ensures
        0 <= to <= text.len(),
        trimmed_end(text) == text.take(to),
        forall|i: int| to <= i < text.len() ==> white(#[trigger] text[i]),
        to > 0 ==> !white(text[to - 1]),
    decreases text.len(),
{
    if text.len() > 0 && white(text.last()) {
        let rest = text.drop_last();
        let to = lemma_trimmed_end(rest);
        assert(rest.take(to) =~= text.take(to));
        assert forall|i: int| to <= i < text.len() implies white(#[trigger] text[i]) by {
            if i < rest.len() {
                assert(rest[i] == text[i]);
            }
        }
        to
    } else {
        assert(text.take(text.len() as int) =~= text);
        text.len() as int
    }
}

/// A text is as it was trimmed exactly where no white space stands at its ends.
pub(crate) proof fn lemma_trimmed_already(text: Seq<char>)
    requires
        text.len() > 0,
    ensures
        trimmed(text) == text <==> !white(text[0]) && !white(text.last()),
{
    if !white(text[0]) && !white(text.last()) {
        assert(trimmed_start(text) == text);
    } else {
        let from = lemma_trimmed_start(text);
        let rest = text.skip(from);
        let to = lemma_trimmed_end(rest);
        if trimmed(text) == text {
            assert(rest.take(to).len() == to);
            assert(from == 0 && to == text.len());
            assert(rest =~= text);
        }
    }
}

/// Each class has the characters of its name: the digits are in all of them, and besides them the
/// letters of either case up to `f` or `z`, the hyphen, and the underscore.
pub proof fn law_classes_hold_their_characters(c: char)
    ensures
        CharClass::Digit.holds(c) <==> '0' <= c <= '9',
        CharClass::LowerHex.holds(c) <==> '0' <= c <= '9' || 'a' <= c <= 'f',
        CharClass::Hex.holds(c) <==> CharClass::LowerHex.holds(c) || 'A' <= c <= 'F',
        CharClass::LowerAlphanumeric.holds(c) <==> '0' <= c <= '9' || 'a' <= c <= 'z',
        CharClass::Alphanumeric.holds(c) <==> CharClass::LowerAlphanumeric.holds(c) || 'A' <= c
            <= 'Z',
        CharClass::Label.holds(c) <==> CharClass::Alphanumeric.holds(c) || c == '-',
        CharClass::UrlSafe.holds(c) <==> CharClass::Label.holds(c) || c == '_',
{
}

/// A text begins and closes with another exactly where it is that one with something behind or
/// before it.
pub proof fn law_beginnings_and_endings(text: Seq<char>, part: Seq<char>, rest: Seq<char>)
    ensures
        starts_with(part + rest, part),
        ends_with(rest + part, part),
        starts_with(text, part) ==> text == part + text.skip(part.len() as int),
        ends_with(text, part) ==> text == text.take(text.len() - part.len()) + part,
{
    let n = part.len() as int;
    assert((part + rest).subrange(0, n) =~= part);
    assert((rest + part).subrange(rest.len() as int, (rest + part).len() as int) =~= part);
    if starts_with(text, part) {
        assert(text =~= text.subrange(0, n) + text.skip(n));
    }
    if ends_with(text, part) {
        let from = text.len() - n;
        assert(text =~= text.take(from) + text.subrange(from, text.len() as int));
    }
}

/// White space is the space, the controls from tab to carriage return, and the spaces and line
/// separators beyond ASCII.
pub proof fn law_white_space_is_known(c: char)
    ensures
        white(c) <==> {
            let code = c as u32;
            ||| 9 <= code <= 13
            ||| code == 32
            ||| code == 0x85
            ||| code == 0xa0
            ||| code == 0x1680
            ||| 0x2000 <= code <= 0x200a
            ||| code == 0x2028
            ||| code == 0x2029
            ||| code == 0x202f
            ||| code == 0x205f
            ||| code == 0x3000
        },
{
}

} // verus!
