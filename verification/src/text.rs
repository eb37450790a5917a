//! Operations on text: prefixes, trimming, ASCII case, decimal numbers and joining.

use vstd::prelude::*;

verus! {

/// `String::push` puts the character behind the characters that are there.
pub assume_specification[ String::push ](text: &mut String, ch: char)
    ensures
        final(text)@ == old(text)@.push(ch),
;

/// The text without the characters equal to `edge` at its end.
pub open spec fn trimmed_end(text: Seq<char>, edge: char) -> Seq<char>
    decreases text.len(),
{
    if text.len() > 0 && text.last() == edge {
        trimmed_end(text.drop_last(), edge)
    } else {
        text
    }
}

/// The text without the characters equal to `edge` at its start.
pub open spec fn trimmed_start(text: Seq<char>, edge: char) -> Seq<char>
    decreases text.len(),
{
    if text.len() > 0 && text[0] == edge {
        trimmed_start(text.drop_first(), edge)
    } else {
        text
    }
}

/// The upper-case form of an ASCII letter; any other character stands for itself.
pub open spec fn ascii_upper(ch: char) -> char {
    if 'a' <= ch <= 'z' {
        (ch as u8 - 32) as char
    } else {
        ch
    }
}

/// Each character of the text in its upper-case ASCII form.
pub open spec fn ascii_uppercased(text: Seq<char>) -> Seq<char> {
    text.map_values(|ch: char| ascii_upper(ch))
}

/// The decimal digit for a number below ten.
pub open spec fn digit(value: nat) -> char {
    (48 + value) as u8 as char
}

/// The decimal numeral of a number, without leading zeros.
pub open spec fn decimal(value: nat) -> Seq<char>
    decreases value,
{
    if value < 10 {
        seq![digit(value)]
    } else {
        decimal(value / 10).push(digit(value % 10))
    }
}

/// The texts in order, with the separator between each two neighbours.
pub open spec fn joined(texts: Seq<Seq<char>>, separator: Seq<char>) -> Seq<char>
    decreases texts.len(),
{
    if texts.len() == 0 {
        Seq::empty()
    } else if texts.len() == 1 {
        texts[0]
    } else {
        joined(texts.drop_last(), separator) + separator + texts.last()
    }
}

/// What each string of the list holds.
pub open spec fn texts_of(list: Seq<String>) -> Seq<Seq<char>> {
    list.map_values(|text: String| text@)
}

/// The characters of the text.
pub(crate) fn chars_of(text: &str) -> (chars: Vec<char>)
    ensures
        chars@ == text@,
{
    let mut chars: Vec<char> = Vec::new();
    for ch in walk: text.chars()
        invariant
            walk.seq() == text@,
            chars@ == text@.take(walk.index()),
    {
        chars.push(ch);
    }
    assert(text@.take(text@.len() as int) == text@);
    chars
}

/// The text made of the characters from position `from` up to position `to`.
pub(crate) fn text_between(chars: &Vec<char>, from: usize, to: usize) -> (text: String)
    requires
        from <= to <= chars@.len(),
    ensures
        text@ == chars@.subrange(from as int, to as int),
{
    let mut text = String::new();
    let mut at: usize = from;
    while at < to
        invariant
            from <= at <= to <= chars@.len(),
            text@ == chars@.subrange(from as int, at as int),
        decreases to - at,
    {
        text.push(chars[at]);
        at = at + 1;
    }
    text
}

/// Whether the text begins with the prefix.
pub fn starts_with(text: &str, prefix: &str) -> (yes: bool)
    ensures
        yes == prefix@.is_prefix_of(text@),
{
    let chars = chars_of(text);
    let wanted = chars_of(prefix);
    if wanted.len() > chars.len() {
        return false;
    }
    let mut at: usize = 0;
    while at < wanted.len()
        invariant
            at <= wanted@.len() <= chars@.len(),
            chars@ == text@,
            wanted@ == prefix@,
            forall|i: int| 0 <= i < at ==> chars@[i] == wanted@[i],
        decreases wanted@.len() - at,
    {
        if chars[at] != wanted[at] {
            return false;
        }
        at = at + 1;
    }
    true
}

/// Whether the text ends with the character.
pub fn ends_with(text: &str, last: char) -> (yes: bool)
    ensures
        yes == (text@.len() > 0 && text@.last() == last),
{
    let chars = chars_of(text);
    chars.len() > 0 && chars[chars.len() - 1] == last
}

/// The text without the characters equal to `edge` at its end.
pub fn trim_end_matches(text: &str, edge: char) -> (trimmed: String)
    ensures
        trimmed@ == trimmed_end(text@, edge),
{
    let chars = chars_of(text);
    let mut end: usize = chars.len();
    assert(chars@.take(end as int) == text@);
    while end > 0 && chars[end - 1] == edge
        invariant
            end <= chars@.len(),
            trimmed_end(chars@.take(end as int), edge) == trimmed_end(text@, edge),
        decreases end,
    {
        assert(chars@.take(end as int).drop_last() == chars@.take(end - 1));
        end = end - 1;
    }
    text_between(&chars, 0, end)
}

/// The text without the characters equal to `edge` at its start.
pub fn trim_start_matches(text: &str, edge: char) -> (trimmed: String)
    ensures
        trimmed@ == trimmed_start(text@, edge),
{
    let chars = chars_of(text);
    let mut start: usize = 0;
    assert(chars@.skip(0) == text@);
    while start < chars.len() && chars[start] == edge
        invariant
            start <= chars@.len(),
            trimmed_start(chars@.skip(start as int), edge) == trimmed_start(text@, edge),
        decreases chars@.len() - start,
    {
        assert(chars@.skip(start as int).drop_first() == chars@.skip(start + 1));
        start = start + 1;
    }
    text_between(&chars, start, chars.len())
}

/// The text with its ASCII letters in upper case.
pub fn to_ascii_uppercase(text: &str) -> (upper: String)
    ensures
        upper@ == ascii_uppercased(text@),
{
    let chars = chars_of(text);
    let mut upper = String::new();
    let mut at: usize = 0;
    while at < chars.len()
        invariant
            at <= chars@.len(),
            chars@ == text@,
            upper@ == ascii_uppercased(text@.take(at as int)),
        decreases chars@.len() - at,
    {
        let ch = chars[at];
        if 'a' <= ch && ch <= 'z' {
            upper.push((ch as u8 - 32) as char);
        } else {
            upper.push(ch);
        }
        assert(text@.take(at + 1) == text@.take(at as int).push(ch));
        at = at + 1;
    }
    assert(text@.take(at as int) == text@);
    upper
}

/// The decimal numeral of the number.
pub fn decimal_text(value: u64) -> (text: String)
    ensures
        text@ == decimal(value as nat),
    decreases value,
{
    let mut text = String::new();
    if value >= 10 {
        text = decimal_text(value / 10);
    }
    text.push((48 + (value % 10) as u8) as char);
    text
}

/// The texts of the list, with the separator between each two neighbours.
pub fn join(list: &Vec<String>, separator: &str) -> (text: String)
    ensures
        text@ == joined(texts_of(list@), separator@),
{
    let ghost texts = texts_of(list@);
    let mut text = String::new();
    let mut at: usize = 0;
    while at < list.len()
        invariant
            at <= list@.len(),
            texts == texts_of(list@),
            text@ == joined(texts.take(at as int), separator@),
        decreases list@.len() - at,
    {
        if at > 0 {
            text.append(separator);
        }
        text.append(list[at].as_str());
        assert(texts.take(at + 1).drop_last() == texts.take(at as int));
        assert(texts.take(at + 1).last() == list@[at as int]@);
        at = at + 1;
    }
    assert(texts.take(at as int) == texts);
    text
}

/// What trimming the end leaves is the start of the text up to its last character that is not the
/// edge; what it takes away is edges only.
pub proof fn law_trimmed_end(text: Seq<char>, edge: char)
    ensures
        trimmed_end(text, edge).is_prefix_of(text),
        forall|i: int| trimmed_end(text, edge).len() <= i < text.len() ==> text[i] == edge,
        trimmed_end(text, edge).len() > 0 ==> trimmed_end(text, edge).last() != edge,
        trimmed_end(text, edge).len() == 0 <==> forall|i: int|
            0 <= i < text.len() ==> text[i] == edge,
    decreases text.len(),
{
    if text.len() > 0 && text.last() == edge {
        law_trimmed_end(text.drop_last(), edge);
        assert forall|i: int| 0 <= i < text.len() - 1 implies text[i] == text.drop_last()[i] by {}
        if trimmed_end(text, edge).len() > 0 {
            let kept = trimmed_end(text, edge).len() - 1;
            assert(text[kept] == trimmed_end(text, edge)[kept]);
        }
    } else if text.len() > 0 {
        assert(text[text.len() - 1] != edge);
    }
}

/// What trimming the start leaves is the end of the text from its first character that is not the
/// edge on; what it takes away is edges only.
pub proof fn law_trimmed_start(text: Seq<char>, edge: char)
    ensures
        trimmed_start(text, edge).len() <= text.len(),
        trimmed_start(text, edge) == text.skip(text.len() - trimmed_start(text, edge).len()),
        forall|i: int|
            0 <= i < text.len() - trimmed_start(text, edge).len() ==> text[i] == edge,
        trimmed_start(text, edge).len() > 0 ==> trimmed_start(text, edge)[0] != edge,
    decreases text.len(),
{
    if text.len() > 0 && text[0] == edge {
        let rest = text.drop_first();
        law_trimmed_start(rest, edge);
        let kept = trimmed_start(rest, edge).len();
        assert(rest.skip(rest.len() - kept) == text.skip(text.len() - kept));
        assert forall|i: int| 0 <= i < text.len() - kept implies text[i] == edge by {
            if i > 0 {
                assert(rest[i - 1] == edge);
            }
        }
    } else {
        assert(text.skip(0) == text);
    }
}

/// The number that decimal digits stand for.
pub open spec fn number_of(digits: Seq<char>) -> int
    decreases digits.len(),
{
    if digits.len() == 0 {
        0
    } else {
        10 * number_of(digits.drop_last()) + (digits.last() as int - '0' as int)
    }
}

/// The decimal numeral of a number is made of the digits `0` to `9`, stands for that number, and
/// has no zero in front unless the number is zero.
pub proof fn law_decimal(value: nat)
    ensures
        number_of(decimal(value)) == value,
        decimal(value).len() > 0,
        forall|i: int| 0 <= i < decimal(value).len() ==> '0' <= #[trigger] decimal(value)[i] <= '9',
        decimal(value)[0] == '0' ==> value == 0 && decimal(value).len() == 1,
    decreases value,
{
    if value < 10 {
        assert(decimal(value).drop_last() == Seq::<char>::empty());
        assert(number_of(Seq::<char>::empty()) == 0);
    } else {
        law_decimal(value / 10);
        let shorter = decimal(value / 10);
        assert(decimal(value).drop_last() == shorter);
        assert(decimal(value)[0] == shorter[0]);
    }
}

/// Joining one text more puts the separator and the text behind what was joined before; one text
/// alone is joined to itself, and none to nothing.
pub proof fn law_joined(texts: Seq<Seq<char>>, separator: Seq<char>, more: Seq<char>)
    ensures
        joined(Seq::<Seq<char>>::empty(), separator) == Seq::<char>::empty(),
        joined(seq![more], separator) == more,
        texts.len() > 0 ==> joined(texts.push(more), separator) == joined(texts, separator)
            + separator + more,
{
    assert(texts.push(more).drop_last() == texts);
}

/// Putting a text in upper case takes 32 from the code of each letter `a` to `z` and leaves every
/// other character, and so the length, as it is.
pub proof fn law_ascii_uppercased(text: Seq<char>)
    ensures
        ascii_uppercased(text).len() == text.len(),
        forall|i: int|
            0 <= i < text.len() ==> {
                let upper = #[trigger] ascii_uppercased(text)[i];
                if 97 <= text[i] as int <= 122 {
                    upper as int == text[i] as int - 32
                } else {
                    upper == text[i]
                }
            },
{
}

} // verus!
