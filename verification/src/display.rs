//! What the drawing of a frame needs in whole numbers: the digits of the
//! score and the segments of an outline.

use vstd::prelude::*;

verus! {

/// The decimal digits of `number`, the lowest first. Zero has the one digit
/// zero.
pub open spec fn digits_of(number: nat) -> Seq<u8>
    decreases number,
{
    if number < 10 {
        seq![number as u8]
    } else {
        seq![(number % 10) as u8] + digits_of(number / 10)
    }
}

/// The number that the decimal digits `digits` spell, the lowest first.
pub open spec fn number_of(digits: Seq<u8>) -> nat
    decreases digits.len(),
{
    if digits.len() == 0 {
        0
    } else {
        digits[0] as nat + 10 * number_of(digits.drop_first())
    }
}

/// The digits of a number are digits, and spell the number.
pub proof fn lemma_digits(number: nat)
    ensures
        digits_of(number).len() >= 1,
        forall|i: int| 0 <= i < digits_of(number).len() ==> #[trigger] digits_of(number)[i] < 10,
        number_of(digits_of(number)) == number,
    decreases number,
{
    let digits = digits_of(number);
    if number < 10 {
        assert(digits.drop_first() =~= Seq::<u8>::empty());
        assert(number_of(digits.drop_first()) == 0);
        assert(number_of(digits) == digits[0] as nat + 10 * number_of(digits.drop_first()));
    } else {
        lemma_digits(number / 10);
        let rest = digits_of(number / 10);
        assert(digits.drop_first() =~= rest);
        assert(number_of(digits) == digits[0] as nat + 10 * number_of(digits.drop_first()));
        assert forall|i: int| 0 <= i < digits.len() implies #[trigger] digits[i] < 10 by {
            if i > 0 {
                assert(digits[i] == rest[i - 1]);
            }
        }
    }
}

/// The decimal digits of `number` in the order in which the score is drawn,
/// from the right to the left: the lowest digit first. Each is below ten, so
/// that it picks one of the ten glyphs.
pub fn decimal_digits(number: usize) -> (digits: Vec<u8>)
    ensures
        digits@ == digits_of(number as nat),
        forall|i: int| 0 <= i < digits@.len() ==> #[trigger] digits@[i] < 10,
{
    let mut digits: Vec<u8> = Vec::new();
    let mut value: usize = number;
    while value >= 10
        invariant
            digits@ + digits_of(value as nat) == digits_of(number as nat),
        decreases value,
    {
        let ghost before = digits@;
        let digit: u8 = (value % 10) as u8;
        digits.push(digit);
        proof {
            let rest = digits_of((value / 10) as nat);
            assert(before + (seq![digit] + rest) =~= digits@ + rest);
        }
        value = value / 10;
    }
    digits.push(value as u8);
    proof {
        lemma_digits(number as nat);
    }
    digits
}

/// The segments of an outline of `corners` points: each joins a point to the
/// next one, and where the outline is `closed` a last segment joins the last
/// point to the first. An outline without points has no segments.
pub open spec fn segments_of(corners: nat, closed: bool) -> Seq<(usize, usize)> {
    let count = if closed {
        corners
    } else if corners == 0 {
        0
    } else {
        (corners - 1) as nat
    };
    Seq::new(count, |i: int| (i as usize, ((i + 1) % corners as int) as usize))
}

/// Computes [`segments_of`]: the pairs of indices of the points that a
/// segment joins.
pub fn outline_segments(corners: usize, closed: bool) -> (segments: Vec<(usize, usize)>)
    ensures
        segments@ == segments_of(corners as nat, closed),
{
    let mut segments: Vec<(usize, usize)> = Vec::new();
    if corners == 0 {
        return segments;
    }
    let count: usize = if closed {
        corners
    } else {
        corners - 1
    };
    let mut i: usize = 0;
    while i < count
        invariant
            i <= count <= corners,
            corners > 0,
            segments@.len() == i,
            forall|k: int|
                0 <= k < i ==> segments@[k] == (k as usize, ((k + 1) % corners as int) as usize),
        decreases count - i,
    {
        let next: usize = if i + 1 == corners {
            0
        } else {
            i + 1
        };
        proof {
            if i + 1 == corners {
                vstd::arithmetic::div_mod::lemma_mod_self_0(corners as int);
            } else {
                vstd::arithmetic::div_mod::lemma_small_mod((i + 1) as nat, corners as nat);
            }
        }
        segments.push((i, next));
        i += 1;
    }
    segments
}

} // verus!
