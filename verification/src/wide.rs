//! UTF-16 text as the Win32 functions take it (closed by a zero unit) and give it back (in a
//! buffer, up to its first zero unit).

use vstd::prelude::*;

use crate::text::chars_of;

verus! {

/// `char::from_u32` gives the character with this code, and `None` for a number that is no Unicode
/// scalar value: a surrogate, or one past `0x10FFFF`.
pub assume_specification[ char::from_u32 ](code: u32) -> (ch: Option<char>)
    ensures
        ch == (if code < 0xD800 || 0xE000 <= code <= 0x10FFFF {
            Some(code as char)
        } else {
            None
        }),
;

/// The UTF-16 units of one character: one unit, or a high and a low surrogate.
pub open spec fn units_of(ch: char) -> Seq<u16> {
    let code = ch as u32;
    if code < 0x10000 {
        seq![code as u16]
    } else {
        seq![
            (0xD800 + (code - 0x10000) / 0x400) as u16,
            (0xDC00 + (code - 0x10000) % 0x400) as u16,
        ]
    }
}

/// The UTF-16 form of a text.
pub open spec fn utf16(text: Seq<char>) -> Seq<u16>
    decreases text.len(),
{
    if text.len() == 0 {
        Seq::empty()
    } else {
        units_of(text[0]) + utf16(text.drop_first())
    }
}

/// The UTF-16 form of a text, closed by a zero unit.
pub open spec fn wide(text: Seq<char>) -> Seq<u16> {
    utf16(text).push(0)
}

pub open spec fn is_high(unit: u16) -> bool {
    0xD800 <= unit <= 0xDBFF
}

pub open spec fn is_low(unit: u16) -> bool {
    0xDC00 <= unit <= 0xDFFF
}

/// The character that a high and a low surrogate stand for.
pub open spec fn paired(high: u16, low: u16) -> char {
    (0x10000 + (high - 0xD800) * 0x400 + (low - 0xDC00)) as char
}

/// The text that UTF-16 units stand for, with U+FFFD for each surrogate that has no partner.
pub open spec fn utf16_text(units: Seq<u16>) -> Seq<char>
    decreases units.len(),
{
    if units.len() == 0 {
        Seq::empty()
    } else if is_high(units[0]) && units.len() > 1 && is_low(units[1]) {
        seq![paired(units[0], units[1])] + utf16_text(units.skip(2))
    } else if is_high(units[0]) || is_low(units[0]) {
        seq!['\u{FFFD}'] + utf16_text(units.skip(1))
    } else {
        seq![units[0] as char] + utf16_text(units.skip(1))
    }
}

/// The units before the first zero unit; all of them where there is none.
pub open spec fn before_zero(units: Seq<u16>) -> Seq<u16>
    decreases units.len(),
{
    if units.len() == 0 || units[0] == 0 {
        Seq::empty()
    } else {
        seq![units[0]] + before_zero(units.skip(1))
    }
}

/// The text in a buffer that a Win32 function has filled.
pub open spec fn buffer_text(units: Seq<u16>) -> Seq<char> {
    utf16_text(before_zero(units))
}

/// Encodes the text for a Win32 function.
pub fn to_wide(value: &str) -> (units: Vec<u16>)
    ensures
        units@ == wide(value@),
{
    let chars = chars_of(value);
    let mut units: Vec<u16> = Vec::new();
    let mut at: usize = 0;
    assert(chars@.skip(0) == value@);
    while at < chars.len()
        invariant
            at <= chars@.len(),
            chars@ == value@,
            units@ + utf16(value@.skip(at as int)) == utf16(value@),
        decreases chars@.len() - at,
    {
        let ch = chars[at];
        let code = ch as u32;
        let ghost before = units@;
        if code < 0x10000 {
            units.push(code as u16);
        } else {
            units.push((0xD800 + (code - 0x10000) / 0x400) as u16);
            units.push((0xDC00 + (code - 0x10000) % 0x400) as u16);
        }
        assert(units@ == before + units_of(ch));
        assert(value@.skip(at as int).drop_first() == value@.skip(at + 1));
        assert(before + (units_of(ch) + utf16(value@.skip(at + 1))) == units@ + utf16(
            value@.skip(at + 1),
        ));
        at = at + 1;
    }
    assert(units@ + Seq::<u16>::empty() == units@);
    units.push(0);
    units
}

/// Reads the text in a buffer that a Win32 function has filled.
pub fn from_wide(buffer: &Vec<u16>) -> (text: String)
    ensures
        text@ == buffer_text(buffer@),
{
    let mut end: usize = 0;
    assert(buffer@.skip(0) == buffer@);
    assert(buffer@.take(0) + before_zero(buffer@) == before_zero(buffer@));
    while end < buffer.len() && buffer[end] != 0
        invariant
            end <= buffer@.len(),
            buffer@.take(end as int) + before_zero(buffer@.skip(end as int)) == before_zero(
                buffer@,
            ),
        decreases buffer@.len() - end,
    {
        assert(buffer@.skip(end as int).skip(1) == buffer@.skip(end + 1));
        assert(buffer@.take(end + 1) + before_zero(buffer@.skip(end + 1)) == buffer@.take(
            end as int,
        ) + (seq![buffer@[end as int]] + before_zero(buffer@.skip(end + 1))));
        end = end + 1;
    }
    let ghost units = buffer@.take(end as int);
    assert(units == before_zero(buffer@));
    let mut text = String::new();
    let mut at: usize = 0;
    assert(units.skip(0) == units);
    while at < end
        invariant
            at <= end <= buffer@.len(),
            units == buffer@.take(end as int),
            text@ + utf16_text(units.skip(at as int)) == utf16_text(units),
        decreases end - at,
    {
        let ghost rest = units.skip(at as int);
        let ghost before = text@;
        let unit = buffer[at];
        assert(rest.skip(1) == units.skip(at + 1));
        if 0xD800 <= unit && unit <= 0xDBFF && end - at > 1 && 0xDC00 <= buffer[at + 1]
            && buffer[at + 1] <= 0xDFFF {
            let code = 0x10000 + (unit - 0xD800) as u32 * 0x400 + (buffer[at + 1] - 0xDC00) as u32;
            match char::from_u32(code) {
                Some(ch) => text.push(ch),
                None => text.push('\u{FFFD}'),
            }
            assert(rest.skip(2) == units.skip(at + 2));
            assert(text@ == before + seq![paired(rest[0], rest[1])]);
            assert(text@ + utf16_text(units.skip(at + 2)) == before + utf16_text(rest));
            at = at + 2;
        } else {
            match char::from_u32(unit as u32) {
                Some(ch) => text.push(ch),
                None => text.push('\u{FFFD}'),
            }
            assert(text@ + utf16_text(units.skip(at + 1)) == before + utf16_text(rest));
            at = at + 1;
        }
    }
    assert(text@ + Seq::<char>::empty() == text@);
    text
}

/// The units of a character read back as that character, and hold a zero for the zero character
/// only.
proof fn lemma_units_of(ch: char)
    ensures
        units_of(ch).len() == 1 ==> !is_high(units_of(ch)[0]) && !is_low(units_of(ch)[0])
            && units_of(ch)[0] as char == ch && (units_of(ch)[0] == 0 ==> ch == '\0'),
        units_of(ch).len() == 2 ==> is_high(units_of(ch)[0]) && is_low(units_of(ch)[1]) && paired(
            units_of(ch)[0],
            units_of(ch)[1],
        ) == ch,
        units_of(ch).len() == 1 || units_of(ch).len() == 2,
{
    let code = ch as u32;
    assert(code < 0xD800 || 0xE000 <= code <= 0x10FFFF);
    assert(code as char == ch);
    if code >= 0x10000 {
        let high: int = 0xD800 + (code - 0x10000) / 0x400;
        let low: int = 0xDC00 + (code - 0x10000) % 0x400;
        assert(0xD800 <= high <= 0xDBFF);
        assert(0x10000 + (high - 0xD800) * 0x400 + (low - 0xDC00) == code);
    }
}

/// Reading the UTF-16 form of a text gives the text back.
pub proof fn law_utf16_round_trip(text: Seq<char>)
    ensures
        utf16_text(utf16(text)) == text,
    decreases text.len(),
{
    if text.len() > 0 {
        let ch = text[0];
        let head = units_of(ch);
        let rest = utf16(text.drop_first());
        law_utf16_round_trip(text.drop_first());
        lemma_units_of(ch);
        assert((head + rest).skip(head.len() as int) == rest);
        assert(utf16_text(head + rest) == seq![ch] + text.drop_first());
        assert(seq![ch] + text.drop_first() == text);
    }
}

/// What is put into a buffer as wide text is read back from it, whatever the buffer holds behind
/// it, as long as the text itself holds no zero character.
pub proof fn law_buffer_round_trip(text: Seq<char>, tail: Seq<u16>)
    requires
        !text.contains('\0'),
    ensures
        buffer_text(wide(text) + tail) == text,
{
    lemma_utf16_has_no_zero(text);
    assert(wide(text) + tail == utf16(text) + (seq![0u16] + tail));
    lemma_before_zero(utf16(text), seq![0u16] + tail);
    law_utf16_round_trip(text);
}

proof fn lemma_utf16_has_no_zero(text: Seq<char>)
    requires
        !text.contains('\0'),
    ensures
        !utf16(text).contains(0),
    decreases text.len(),
{
    if text.len() > 0 {
        let tail = text.drop_first();
        assert forall|i: int| 0 <= i < tail.len() implies tail[i] != '\0' by {
            assert(text[i + 1] != '\0');
        }
        lemma_utf16_has_no_zero(tail);
        assert(text[0] != '\0');
        lemma_units_of(text[0]);
        let head = units_of(text[0]);
        assert forall|i: int| 0 <= i < utf16(text).len() implies utf16(text)[i] != 0 by {
            if i >= head.len() {
                assert(utf16(text)[i] == utf16(tail)[i - head.len()]);
            }
        }
    }
}

proof fn lemma_before_zero(units: Seq<u16>, tail: Seq<u16>)
    requires
        !units.contains(0),
        tail.len() > 0,
        tail[0] == 0,
    ensures
        before_zero(units + tail) == units,
    decreases units.len(),
{
    if units.len() == 0 {
        assert((units + tail)[0] == 0);
    } else {
        let rest = units.skip(1);
        assert forall|i: int| 0 <= i < rest.len() implies rest[i] != 0 by {
            assert(units[i + 1] != 0);
        }
        lemma_before_zero(rest, tail);
        assert((units + tail).skip(1) == rest + tail);
        assert(units[0] != 0);
        assert(seq![units[0]] + rest == units);
    }
}

/// The UTF-16 form of a text is that of its parts, one after another.
pub proof fn law_utf16_of_parts(text: Seq<char>, more: Seq<char>)
    ensures
        utf16(text + more) == utf16(text) + utf16(more),
    decreases text.len(),
{
    if text.len() == 0 {
        assert(text + more == more);
        assert(utf16(text) + utf16(more) == utf16(more));
    } else {
        law_utf16_of_parts(text.drop_first(), more);
        assert((text + more).drop_first() == text.drop_first() + more);
        assert(units_of(text[0]) + (utf16(text.drop_first()) + utf16(more)) == utf16(text) + utf16(
            more,
        ));
    }
}

/// A character below 0x10000 is one unit, with the code of the character; any other is a high
/// surrogate and then a low one, which hold the upper and the lower ten bits of what is above
/// 0x10000.
pub proof fn law_utf16_of_a_character(ch: char)
    ensures
        ch as int <= 0xFFFF
            ==> utf16(seq![ch]).len() == 1 && utf16(seq![ch])[0] as int == ch as int,
        ch as int > 0xFFFF ==> {
            let units = utf16(seq![ch]);
            &&& units.len() == 2
            &&& 0xD800 <= units[0] < 0xDC00
            &&& 0xDC00 <= units[1] < 0xE000
            &&& ch as int == 0x10000 + (units[0] - 0xD800) * 0x400 + (units[1] - 0xDC00)
        },
{
    assert(seq![ch].drop_first() == Seq::<char>::empty());
    assert(utf16(Seq::<char>::empty()) == Seq::<u16>::empty());
    assert(utf16(seq![ch]) == units_of(ch));
    let code = ch as u32;
    if code >= 0x10000 {
        let high: int = 0xD800 + (code - 0x10000) / 0x400;
        let low: int = 0xDC00 + (code - 0x10000) % 0x400;
        assert(0xD800 <= high < 0xDC00);
        assert(0xDC00 <= low < 0xE000);
        assert(units_of(ch)[0] as int == high);
        assert(units_of(ch)[1] as int == low);
        assert(code == 0x10000 + (high - 0xD800) * 0x400 + (low - 0xDC00));
    }
}

/// A wide text is its UTF-16 form and one zero unit behind it, and nothing else.
pub proof fn law_wide_text_ends_in_zero(text: Seq<char>)
    ensures
        wide(text).len() == utf16(text).len() + 1,
        wide(text).last() == 0,
        wide(text).drop_last() == utf16(text),
{
    assert(wide(text).drop_last() == utf16(text));
}

/// How units are read: a high surrogate and the low one behind it as one character; any other
/// surrogate as U+FFFD; any other unit as the character with its code.
pub proof fn law_units_are_read_one_by_one(unit: u16, rest: Seq<u16>)
    ensures
        !(0xD800 <= unit <= 0xDFFF) ==> utf16_text(seq![unit] + rest) == seq![unit as char]
            + utf16_text(rest),
        0xDC00 <= unit <= 0xDFFF ==> utf16_text(seq![unit] + rest) == seq!['\u{FFFD}']
            + utf16_text(rest),
        0xD800 <= unit <= 0xDBFF && (rest.len() == 0 || !(0xDC00 <= rest[0] <= 0xDFFF))
            ==> utf16_text(seq![unit] + rest) == seq!['\u{FFFD}'] + utf16_text(rest),
        0xD800 <= unit <= 0xDBFF && rest.len() > 0 && 0xDC00 <= rest[0] <= 0xDFFF ==> utf16_text(
            seq![unit] + rest,
        ) == seq![(0x10000 + (unit - 0xD800) * 0x400 + (rest[0] - 0xDC00)) as char] + utf16_text(
            rest.skip(1),
        ),
{
    let units = seq![unit] + rest;
    assert(units.skip(1) == rest);
    if rest.len() > 0 {
        assert(units[1] == rest[0]);
        assert(units.skip(2) == rest.skip(1));
    }
}

/// What is read of a buffer is what stands before its first zero unit, all of it where there is
/// none.
pub proof fn law_a_buffer_is_read_up_to_zero(units: Seq<u16>)
    ensures
        before_zero(units).is_prefix_of(units),
        !before_zero(units).contains(0),
        before_zero(units).len() == units.len() || units[before_zero(units).len() as int] == 0,
        buffer_text(units) == utf16_text(before_zero(units)),
    decreases units.len(),
{
    if units.len() > 0 && units[0] != 0 {
        let rest = units.skip(1);
        law_a_buffer_is_read_up_to_zero(rest);
        let kept = before_zero(rest);
        assert(before_zero(units) == seq![units[0]] + kept);
        assert(units.take(1 + kept.len() as int) == seq![units[0]] + rest.take(kept.len() as int));
        assert forall|i: int| 0 <= i < before_zero(units).len() implies before_zero(units)[i]
            != 0 by {
            if i > 0 {
                assert(kept.contains(kept[i - 1]));
            }
        }
        if kept.len() < rest.len() {
            assert(units[kept.len() as int + 1] == rest[kept.len() as int]);
        }
    } else {
        assert(before_zero(units) == units.take(0));
    }
}

} // verus!
