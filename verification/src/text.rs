//! Decimal fields and separators in a byte string.

use vstd::prelude::*;

verus! {

/// ASCII `0`.
pub const ZERO: u8 = 0x30;

/// ASCII `9`.
pub const NINE: u8 = 0x39;

/// ASCII `+`.
pub const PLUS: u8 = 0x2b;

/// ASCII `.`.
pub const DOT: u8 = 0x2e;

/// ASCII `/`.
pub const SLASH: u8 = 0x2f;

/// Whether `byte` is an ASCII decimal digit.
pub open spec fn is_digit(byte: u8) -> bool {
    ZERO <= byte <= NINE
}

/// Whether every byte of `field` is an ASCII decimal digit.
pub open spec fn all_digits(field: Seq<u8>) -> bool {
    forall|i: int| 0 <= i < field.len() ==> is_digit(#[trigger] field[i])
}

/// The number that the decimal digits of `field` write, most significant first.
pub open spec fn digits_value(field: Seq<u8>) -> nat
    decreases field.len(),
{
    if field.len() == 0 {
        0
    } else {
        digits_value(field.drop_last()) * 10 + (field.last() - ZERO) as nat
    }
}

/// The value of a field made of one or more decimal digits whose number is at
/// most 255; `None` for any other field. Leading zeros are allowed here.
pub open spec fn small_number(field: Seq<u8>) -> Option<u8> {
    if field.len() >= 1 && all_digits(field) && digits_value(field) <= 255 {
        Some(digits_value(field) as u8)
    } else {
        None
    }
}

/// The first index at or after `from` at which `text` holds `byte`, or the
/// length of `text` when there is none.
pub open spec fn position_of(text: Seq<u8>, byte: u8, from: int) -> int
    decreases text.len() - from,
{
    if from >= text.len() {
        text.len() as int
    } else if text[from] == byte {
        from
    } else {
        position_of(text, byte, from + 1)
    }
}

/// An occurrence of `byte` at `at` with none between `from` and `at` is the
/// one that `position_of` finds from `from`.
pub proof fn position_of_found(text: Seq<u8>, byte: u8, from: int, at: int)
    requires
        0 <= from <= at < text.len(),
        text[at] == byte,
        forall|k: int| from <= k < at ==> text[k] != byte,
    ensures
        position_of(text, byte, from) == at,
    decreases at - from,
{
    if from < at {
        position_of_found(text, byte, from + 1, at);
    }
}

/// Where `text` holds no `byte` from `from` on, `position_of` is the length
/// of `text`.
pub proof fn no_byte_from(text: Seq<u8>, byte: u8, from: int)
    requires
        0 <= from,
        forall|k: int| from <= k < text.len() ==> text[k] != byte,
    ensures
        position_of(text, byte, from) == text.len(),
    decreases text.len() - from,
{
    if from < text.len() {
        no_byte_from(text, byte, from + 1);
    }
}

/// Finds the first `byte` in `text` at or after `from`.
pub fn find_byte(text: &[u8], from: usize, byte: u8) -> (at: usize)
    requires
        from <= text@.len(),
    ensures
        at == position_of(text@, byte, from as int),
        from <= at <= text@.len(),
        at < text@.len() ==> text@[at as int] == byte,
        forall|k: int| from <= k < at ==> text@[k] != byte,
{
    let mut at: usize = from;
    while at < text.len() && text[at] != byte
        invariant
            from <= at <= text@.len(),
            position_of(text@, byte, from as int) == position_of(text@, byte, at as int),
            forall|k: int| from <= k < at ==> text@[k] != byte,
        decreases text@.len() - at,
    {
        at += 1;
    }
    at
}

/// Reads `field` as a decimal number of at most 255.
pub fn read_small_number(field: &[u8]) -> (number: Option<u8>)
    ensures
        number == small_number(field@),
{
    let len: usize = field.len();
    if len == 0 {
        return None;
    }
    // `acc` follows the value of the digits read so far, held at 256 once it
    // has passed 255.
    let mut acc: u32 = 0;
    let mut i: usize = 0;
    while i < len
        invariant
            i <= len == field@.len(),
            all_digits(field@.take(i as int)),
            acc <= 256,
            acc == if digits_value(field@.take(i as int)) > 255 {
                256
            } else {
                digits_value(field@.take(i as int))
            },
        decreases len - i,
    {
        let byte: u8 = field[i];
        if byte < ZERO || byte > NINE {
            return None;
        }
        proof {
            let seen = field@.take(i as int);
            let next = field@.take(i + 1);
            assert(next.drop_last() =~= seen);
            assert forall|k: int| 0 <= k < next.len() implies is_digit(#[trigger] next[k]) by {
                if k < seen.len() {
                    assert(next[k] == seen[k]);
                }
            }
        }
        let grown: u32 = acc * 10 + (byte - ZERO) as u32;
        acc = if grown > 255 { 256 } else { grown };
        i += 1;
    }
    assert(field@.take(len as int) =~= field@);
    if acc > 255 {
        None
    } else {
        Some(acc as u8)
    }
}

} // verus!
