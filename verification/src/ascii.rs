//! Bytes read as ASCII text: where a byte first stands, and what decimal
//! digits are worth.

use vstd::prelude::*;

verus! {

/// The digit `0` in ASCII.
pub const ZERO: u8 = 48;

/// The digit `9` in ASCII.
pub const NINE: u8 = 57;

/// The sign `+` in ASCII.
pub const PLUS: u8 = 43;

/// The sign `-` in ASCII.
pub const MINUS: u8 = 45;

/// Whether `byte` is one of the ASCII digits `0` to `9`.
pub open spec fn is_digit(byte: u8) -> bool {
    ZERO <= byte <= NINE
}

/// How many digits `text` begins with.
pub open spec fn digits_len(text: Seq<u8>) -> nat
    decreases text.len(),
{
    if text.len() > 0 && is_digit(text.first()) {
        1 + digits_len(text.drop_first())
    } else {
        0
    }
}

/// The number that `digits` spell, the most significant digit first.
pub open spec fn digits_value(digits: Seq<u8>) -> nat
    decreases digits.len(),
{
    if digits.len() == 0 {
        0
    } else {
        digits_value(digits.drop_last()) * 10 + (digits.last() - ZERO) as nat
    }
}

/// Whether `text` holds digits only.
pub open spec fn all_digits(text: Seq<u8>) -> bool {
    forall|i: int| 0 <= i < text.len() ==> is_digit(#[trigger] text[i])
}

/// Text that holds digits only begins with as many digits as it is long, and
/// so does any text that continues it with a byte that is no digit.
pub proof fn lemma_digits_len_of_digits(digits: Seq<u8>, rest: Seq<u8>)
    requires
        all_digits(digits),
        rest.len() > 0 ==> !is_digit(rest[0]),
    ensures
        digits_len(digits + rest) == digits.len(),
    decreases digits.len(),
{
    let text = digits + rest;
    if digits.len() == 0 {
        assert(text =~= rest);
    } else {
        assert(text.first() == digits[0]);
        assert(text.drop_first() =~= digits.drop_first() + rest);
        assert forall|i: int| 0 <= i < digits.drop_first().len() implies is_digit(
            #[trigger] digits.drop_first()[i],
        ) by {
            assert(digits.drop_first()[i] == digits[i + 1]);
        }
        lemma_digits_len_of_digits(digits.drop_first(), rest);
    }
}

/// Whether `text` begins with `+` or `-`.
pub open spec fn has_sign(text: Seq<u8>) -> bool {
    text.len() > 0 && (text[0] == PLUS || text[0] == MINUS)
}

/// Whether `text` begins with `-`.
pub open spec fn is_negative(text: Seq<u8>) -> bool {
    text.len() > 0 && text[0] == MINUS
}

/// `text` without its sign, if it has one.
pub open spec fn unsigned_part(text: Seq<u8>) -> Seq<u8> {
    if has_sign(text) {
        text.drop_first()
    } else {
        text
    }
}

/// The number that `text` begins with, read as a `u64`: an optional sign and
/// then the digits up to the first byte that is none. There is no number
/// where `text` begins with neither a sign nor a digit, where the digits
/// exceed a `u64`, and where a `-` stands before anything but zeros. A sign
/// alone reads as zero.
pub open spec fn leading_u64(text: Seq<u8>) -> Option<u64> {
    let body = unsigned_part(text);
    let value = digits_value(body.take(digits_len(body) as int));
    if !has_sign(text) && digits_len(body) == 0 {
        None
    } else if is_negative(text) {
        if value == 0 {
            Some(0)
        } else {
            None
        }
    } else if value <= u64::MAX {
        Some(value as u64)
    } else {
        None
    }
}

/// The number that `text` is as a whole, read as an `i32`: an optional sign
/// and then digits only, at least one, within the range of an `i32`.
pub open spec fn whole_i32(text: Seq<u8>) -> Option<i32> {
    let body = unsigned_part(text);
    let value = if is_negative(text) {
        -(digits_value(body) as int)
    } else {
        digits_value(body) as int
    };
    if body.len() == 0 || digits_len(body) != body.len() {
        None
    } else if i32::MIN <= value <= i32::MAX {
        Some(value as i32)
    } else {
        None
    }
}

/// Digits alone, at least one, are the number they spell, if an `i32` holds
/// it.
pub proof fn theorem_whole_i32_of_digits(digits: Seq<u8>)
    requires
        digits.len() > 0,
        all_digits(digits),
        digits_value(digits) <= i32::MAX,
    ensures
        whole_i32(digits) == Some(digits_value(digits) as i32),
{
    assert(is_digit(digits[0]));
    lemma_digits_len_of_digits(digits, Seq::empty());
    assert(digits + Seq::<u8>::empty() =~= digits);
}

/// Where `byte` first occurs in `text`, and the length of `text` if it does
/// not occur.
pub open spec fn position(text: Seq<u8>, byte: u8) -> nat
    decreases text.len(),
{
    if text.len() == 0 || text.first() == byte {
        0
    } else {
        1 + position(text.drop_first(), byte)
    }
}

/// `position` is where the byte stands, with none before it.
pub proof fn lemma_position(text: Seq<u8>, byte: u8)
    ensures
        position(text, byte) <= text.len(),
        position(text, byte) < text.len() ==> text[position(text, byte) as int] == byte,
        forall|i: int| 0 <= i < position(text, byte) ==> text[i] != byte,
    decreases text.len(),
{
    if text.len() == 0 || text.first() == byte {
    } else {
        let rest = text.drop_first();
        lemma_position(rest, byte);
        assert forall|i: int| 0 <= i < position(text, byte) implies text[i] != byte by {
            if i > 0 {
                assert(text[i] == rest[i - 1]);
            }
        }
    }
}

/// An index with the byte, or the length, and no such byte before it is the
/// `position`.
pub proof fn lemma_position_is(text: Seq<u8>, byte: u8, at: int)
    requires
        0 <= at <= text.len(),
        at < text.len() ==> text[at] == byte,
        forall|i: int| 0 <= i < at ==> text[i] != byte,
    ensures
        position(text, byte) == at,
{
    lemma_position(text, byte);
    let found = position(text, byte) as int;
    // neither comes before the other
    assert(!(found < at));
    assert(!(at < found));
}

} // verus!
