//! Drive letters that no drive uses.

use vstd::arithmetic::power2::pow2;
use vstd::prelude::*;

verus! {

/// The letters that a volume can be given: `C` to `Z`, in their order.
pub open spec fn drive_letters() -> Seq<char> {
    Seq::new(24, |i: int| (67 + i) as u8 as char)
}

/// Whether the mask has the bit of the letter, the lowest bit standing for `A`.
pub open spec fn in_use(mask: u32, letter: char) -> bool {
    mask & (1u32 << ((letter as u8 - 65) as u32)) != 0
}

/// The letters that are not in use, in their order.
pub open spec fn free_letters(mask: u32) -> Seq<char> {
    drive_letters().filter(|letter: char| !in_use(mask, letter))
}

/// The first letter that is not in use.
pub open spec fn first_free_letter(mask: u32) -> Option<char> {
    if free_letters(mask).len() > 0 {
        Some(free_letters(mask)[0])
    } else {
        None
    }
}

/// The letters from `C` on that the mask of the drives in use leaves free, in their order.
pub fn free_drive_letters(mask: u32) -> (letters: Vec<char>)
    ensures
        letters@ == free_letters(mask),
        forall|i: int, j: int| 0 <= i < j < letters@.len() ==> letters@[i] < letters@[j],
        forall|i: int| 0 <= i < letters@.len() ==> 'C' <= #[trigger] letters@[i] <= 'Z',
        forall|index: nat|
            2 <= index < 26 ==> (letters@.contains((65 + index) as char) <==> (mask as nat
                / #[trigger] pow2(index)) % 2 == 0),
{
    let ghost free = |letter: char| !in_use(mask, letter);
    let mut letters: Vec<char> = Vec::new();
    let mut index: u32 = 2;
    assert(drive_letters().take(0).filter(free) == Seq::<char>::empty()) by {
        reveal(Seq::filter);
    }
    while index < 26
        invariant
            2 <= index <= 26,
            free == (|letter: char| !in_use(mask, letter)),
            letters@ == drive_letters().take(index - 2).filter(free),
        decreases 26 - index,
    {
        let letter = (65 + index as u8) as char;
        proof {
            reveal(Seq::filter);
            let longer = drive_letters().take(index - 1);
            assert(longer.drop_last() == drive_letters().take(index - 2));
            assert(longer.last() == letter);
        }
        if mask & (1u32 << index) == 0 {
            letters.push(letter);
        }
        index = index + 1;
    }
    assert(drive_letters().take(24) == drive_letters());
    proof {
        law_free_letters_ascend(mask);
        assert forall|i: int| 0 <= i < letters@.len() implies 'C' <= #[trigger] letters@[i]
            <= 'Z' by {
            assert(free_letters(mask).contains(letters@[i]));
            law_free_letters_are_those_not_in_use(mask, letters@[i]);
        }
        assert forall|at: nat| 2 <= at < 26 implies (letters@.contains((65 + at) as char) <==> (
        mask as nat / #[trigger] pow2(at)) % 2 == 0) by {
            law_a_letter_is_free_where_its_digit_is_zero(mask, at);
        }
    }
    letters
}

/// The first letter from `C` on that the mask of the drives in use leaves free.
pub fn first_free_drive_letter(mask: u32) -> (letter: Option<char>)
    ensures
        letter == (if free_letters(mask).len() > 0 {
            Some(free_letters(mask)[0])
        } else {
            None
        }),
        letter == first_free_letter(mask),
        letter matches Some(found) ==> 'C' <= found <= 'Z',
        forall|index: nat|
            2 <= index < 26 && (mask as nat / #[trigger] pow2(index)) % 2 == 0 ==> (
            letter matches Some(found) && found <= (65 + index) as char),
{
    let letters = free_drive_letters(mask);
    proof {
        assert forall|index: nat|
            2 <= index < 26 && (mask as nat / #[trigger] pow2(index)) % 2 == 0 implies (
        first_free_letter(mask) matches Some(found) && found <= (65 + index) as char) by {
            let i = choose|i: int|
                0 <= i < letters@.len() && letters@[i] == (65 + index) as char;
            assert(letters@[0] <= letters@[i]);
        }
    }
    if letters.len() > 0 {
        Some(letters[0])
    } else {
        None
    }
}

/// A letter is free exactly when it is one of `C` to `Z` and no drive uses it.
pub proof fn law_free_letters_are_those_not_in_use(mask: u32, letter: char)
    ensures
        free_letters(mask).contains(letter) <==> 'C' <= letter <= 'Z' && !in_use(mask, letter),
{
    let free = |letter: char| !in_use(mask, letter);
    broadcast use vstd::seq_lib::group_filter_ensures;

    lemma_filter_ascends(drive_letters(), free);
    if free_letters(mask).contains(letter) {
        let i = choose|i: int| 0 <= i < free_letters(mask).len() && free_letters(mask)[i] == letter;
        assert(free(free_letters(mask)[i]));
        assert(drive_letters().contains(letter));
    }
    if 'C' <= letter <= 'Z' && !in_use(mask, letter) {
        assert(drive_letters()[letter as int - 67] == letter);
        assert(free(drive_letters()[letter as int - 67]));
    }
}

/// A letter from `C` to `Z` is free exactly where its binary digit in the mask is zero, whatever
/// the other digits are: the lowest digit stands for `A`, the next one for `B` and so on.
pub proof fn law_a_letter_is_free_where_its_digit_is_zero(mask: u32, index: nat)
    requires
        2 <= index < 26,
    ensures
        free_letters(mask).contains((65 + index) as char) <==> (mask as nat / pow2(index)) % 2
            == 0,
{
    let letter = (65 + index) as char;
    let shift = index as u32;
    law_free_letters_are_those_not_in_use(mask, letter);
    vstd::bits::lemma_u32_shr_is_div(mask, shift);
    assert(mask & (1u32 << shift) == 0 <==> (mask >> shift) % 2 == 0) by (bit_vector)
        requires
            shift < 32,
    ;
}

/// Whether one letter is free does not depend on the others: two masks that agree in the digit of a
/// letter agree on whether it is free.
pub proof fn law_letters_are_free_one_by_one(mask: u32, other: u32, index: nat)
    requires
        2 <= index < 26,
        (mask as nat / pow2(index)) % 2 == (other as nat / pow2(index)) % 2,
    ensures
        free_letters(mask).contains((65 + index) as char) == free_letters(other).contains(
            (65 + index) as char,
        ),
{
    law_a_letter_is_free_where_its_digit_is_zero(mask, index);
    law_a_letter_is_free_where_its_digit_is_zero(other, index);
}

/// The first free letter is the one with the lowest zero digit from the third on; there is none
/// exactly where all the digits for `C` to `Z` are one.
pub proof fn law_the_first_free_letter_is_the_lowest(mask: u32, index: nat)
    requires
        2 <= index < 26,
    ensures
        first_free_letter(mask) == Some((65 + index) as char) <==> (mask as nat / pow2(index)) % 2
            == 0 && forall|lower: nat|
            2 <= lower < index ==> (mask as nat / #[trigger] pow2(lower)) % 2 == 1,
        first_free_letter(mask) is None <==> free_letters(mask).len() == 0,
        first_free_letter(mask) is None ==> (mask as nat / pow2(index)) % 2 == 1,
{
    let letters = free_letters(mask);
    let letter = (65 + index) as char;
    law_free_letters_ascend(mask);
    law_a_letter_is_free_where_its_digit_is_zero(mask, index);
    if first_free_letter(mask) == Some(letter) {
        assert(letters.contains(letters[0]));
        assert forall|lower: nat| 2 <= lower < index implies (mask as nat / #[trigger] pow2(lower))
            % 2 == 1 by {
            law_a_letter_is_free_where_its_digit_is_zero(mask, lower);
            if letters.contains((65 + lower) as char) {
                let i = choose|i: int| 0 <= i < letters.len() && letters[i] == (65 + lower) as char;
                assert(letters[0] <= letters[i]);
            }
        }
    }
    if (mask as nat / pow2(index)) % 2 == 0 {
        let i = choose|i: int| 0 <= i < letters.len() && letters[i] == letter;
        assert(letters[0] <= letters[i]);
        let first = letters[0];
        assert(letters.contains(first));
        law_free_letters_are_those_not_in_use(mask, first);
        if first != letter {
            let lower = (first as int - 65) as nat;
            law_a_letter_is_free_where_its_digit_is_zero(mask, lower);
            assert((65 + lower) as char == first);
            assert((mask as nat / pow2(lower)) % 2 == 0);
        }
    }
}

/// The free letters come in the order of the alphabet, each once; so the first free letter is the
/// lowest one.
pub proof fn law_free_letters_ascend(mask: u32)
    ensures
        forall|i: int, j: int|
            0 <= i < j < free_letters(mask).len() ==> free_letters(mask)[i] < free_letters(mask)[j],
{
    lemma_filter_ascends(drive_letters(), |letter: char| !in_use(mask, letter));
}

proof fn lemma_filter_ascends(letters: Seq<char>, keep: spec_fn(char) -> bool)
    requires
        forall|i: int, j: int| 0 <= i < j < letters.len() ==> letters[i] < letters[j],
    ensures
        forall|i: int, j: int|
            0 <= i < j < letters.filter(keep).len() ==> letters.filter(keep)[i] < letters.filter(
                keep,
            )[j],
        forall|i: int|
            0 <= i < letters.filter(keep).len() ==> letters.contains(
                #[trigger] letters.filter(keep)[i],
            ),
    decreases letters.len(),
{
    reveal(Seq::filter);
    if letters.len() > 0 {
        let shorter = letters.drop_last();
        lemma_filter_ascends(shorter, keep);
        let kept = shorter.filter(keep);
        let all = letters.filter(keep);
        assert forall|i: int| 0 <= i < all.len() implies letters.contains(#[trigger] all[i]) by {
            if i < kept.len() {
                assert(shorter.contains(kept[i]));
                let k = choose|k: int| 0 <= k < shorter.len() && shorter[k] == kept[i];
                assert(letters[k] == kept[i]);
            } else {
                assert(letters[letters.len() - 1] == all[i]);
            }
        }
        assert forall|i: int, j: int| 0 <= i < j < all.len() implies all[i] < all[j] by {
            assert(shorter.contains(kept[i]));
            let k = choose|k: int| 0 <= k < shorter.len() && shorter[k] == kept[i];
            assert(letters[k] < letters[letters.len() - 1]);
        }
    }
}

} // verus!
