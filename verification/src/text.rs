//! Numbers as decimal text, and lines and columns in a text.

use vstd::prelude::*;
use vstd::std_specs::iter::IteratorSpec;
use vstd::string::StringSliceAdditionalSpecFns;
use vstd::utf8::{encode_scalar, encode_utf8};

verus! {

/// `String::push` of the standard library appends one character to the end
/// of the string.
pub assume_specification[ std::string::String::push ](
    text: &mut std::string::String,
    character: char,
)
    ensures
        final(text)@ == old(text)@.push(character),
;

/// The character of a decimal digit.
pub open spec fn digit_character(digit: nat) -> char {
    if digit == 0 {
        '0'
    } else if digit == 1 {
        '1'
    } else if digit == 2 {
        '2'
    } else if digit == 3 {
        '3'
    } else if digit == 4 {
        '4'
    } else if digit == 5 {
        '5'
    } else if digit == 6 {
        '6'
    } else if digit == 7 {
        '7'
    } else if digit == 8 {
        '8'
    } else {
        '9'
    }
}

/// A natural number in decimal, without leading zeros.
pub open spec fn decimal_text(number: nat) -> Seq<char>
    decreases number,
{
    if number < 10 {
        seq![digit_character(number)]
    } else {
        decimal_text(number / 10).push(digit_character(number % 10))
    }
}

/// An integer in decimal, with a minus sign where it is negative.
pub open spec fn signed_decimal_text(number: int) -> Seq<char> {
    if number < 0 {
        seq!['-'] + decimal_text((-number) as nat)
    } else {
        decimal_text(number as nat)
    }
}

/// The character of the last decimal digit of `number`.
fn last_digit(number: u64) -> (character: char)
    ensures
        character == digit_character((number % 10) as nat),
{
    let digit = number % 10;
    if digit == 0 {
        '0'
    } else if digit == 1 {
        '1'
    } else if digit == 2 {
        '2'
    } else if digit == 3 {
        '3'
    } else if digit == 4 {
        '4'
    } else if digit == 5 {
        '5'
    } else if digit == 6 {
        '6'
    } else if digit == 7 {
        '7'
    } else if digit == 8 {
        '8'
    } else {
        '9'
    }
}

/// Appends `number` in decimal to `text`.
pub fn push_decimal(text: &mut String, number: u64)
    ensures
        final(text)@ == old(text)@ + decimal_text(number as nat),
    decreases number,
{
    if number >= 10 {
        push_decimal(text, number / 10);
    }
    text.push(last_digit(number));
    proof {
        if number < 10 {
            assert(old(text)@.push(digit_character(number as nat)) =~= old(text)@ + decimal_text(
                number as nat,
            ));
        } else {
            assert((old(text)@ + decimal_text((number / 10) as nat)).push(
                digit_character((number % 10) as nat),
            ) =~= old(text)@ + decimal_text(number as nat));
        }
    }
}

/// `number` in decimal.
pub fn decimal(number: u64) -> (text: String)
    ensures
        text@ == decimal_text(number as nat),
{
    let mut text = String::new();
    push_decimal(&mut text, number);
    assert(Seq::<char>::empty() + decimal_text(number as nat) =~= decimal_text(number as nat));
    text
}

/// `number` in decimal, with a minus sign where it is negative.
pub fn signed_decimal(number: i64) -> (text: String)
    ensures
        text@ == signed_decimal_text(number as int),
{
    let mut text = String::new();
    if number < 0 {
        text.push('-');
        let magnitude: u64 = if number == i64::MIN {
            0x8000_0000_0000_0000u64
        } else {
            (-number) as u64
        };
        push_decimal(&mut text, magnitude);
        assert(text@ =~= seq!['-'] + decimal_text((-number) as nat));
    } else {
        push_decimal(&mut text, number as u64);
        assert(Seq::<char>::empty() + decimal_text(number as nat) =~= decimal_text(number as nat));
    }
    text
}

/// The line, counted from one, on which the character at `offset` stands: one
/// more than the number of newlines before it.
pub open spec fn line_at(source: Seq<char>, offset: int) -> nat
    decreases offset,
{
    if offset <= 0 || offset > source.len() {
        1
    } else if source[offset - 1] == '\n' {
        line_at(source, offset - 1) + 1
    } else {
        line_at(source, offset - 1)
    }
}

/// The column, counted from one, in which the character at `offset` stands:
/// one more than the number of characters between it and the last newline
/// before it.
pub open spec fn column_at(source: Seq<char>, offset: int) -> nat
    decreases offset,
{
    if offset <= 0 || offset > source.len() {
        1
    } else if source[offset - 1] == '\n' {
        1
    } else {
        column_at(source, offset - 1) + 1
    }
}

/// Lines and columns never exceed the offset by more than one.
pub proof fn lemma_position_bounds(source: Seq<char>, offset: int)
    requires
        0 <= offset <= source.len(),
    ensures
        1 <= line_at(source, offset) <= offset + 1,
        1 <= column_at(source, offset) <= offset + 1,
    decreases offset,
{
    if offset > 0 {
        lemma_position_bounds(source, offset - 1);
    }
}


/// The ASCII digits.
pub open spec fn is_digit(character: char) -> bool {
    '0' <= character <= '9'
}

/// The number that a run of decimal digits denotes.
pub open spec fn digits_value(digits: Seq<char>) -> nat
    decreases digits.len(),
{
    if digits.len() == 0 {
        0
    } else {
        digits_value(digits.drop_last()) * 10 + (digits.last() as nat - '0' as nat) as nat
    }
}

/// Whether every character is an ASCII digit.
pub open spec fn all_digits(text: Seq<char>) -> bool {
    forall|i: int| 0 <= i < text.len() ==> is_digit(#[trigger] text[i])
}

/// Appending one digit to a run of digits multiplies its value by ten and
/// adds the digit.
pub proof fn lemma_digits_value_push(digits: Seq<char>, digit: char)
    ensures
        digits_value(digits.push(digit)) == digits_value(digits) * 10 + (digit as nat - '0' as nat) as nat,
{
    assert(digits.push(digit).drop_last() =~= digits);
    assert(digits.push(digit).last() == digit);
}

/// The integer that a text spells: an optional sign, then at least one
/// digit and nothing but digits, for a number that fits in 64 bits.
pub open spec fn signed_integer(text: Seq<char>) -> Option<i64> {
    if text.len() == 0 {
        None
    } else {
        let negative = text[0] == '-';
        let digits = if text[0] == '-' || text[0] == '+' {
            text.skip(1)
        } else {
            text
        };
        if digits.len() == 0 || !all_digits(digits) {
            None
        } else if negative {
            if digits_value(digits) <= 0x8000_0000_0000_0000 {
                Some((-digits_value(digits)) as i64)
            } else {
                None
            }
        } else {
            if digits_value(digits) <= 0x7fff_ffff_ffff_ffff {
                Some(digits_value(digits) as i64)
            } else {
                None
            }
        }
    }
}

/// The integer that `text` spells.
pub fn parse_integer(text: &str) -> (value: Option<i64>)
    ensures
        value == signed_integer(text@),
{
    let mut magnitude: u64 = 0;
    let mut valid = true;
    let mut fits = true;
    let mut first = true;
    let mut signed = false;
    let mut negative = false;
    let mut count: u8 = 0;
    for character in it: text.chars()
        invariant
            it.seq() == text@,
            first == (it.index() == 0),
            !first ==> signed == (text@[0] == '-' || text@[0] == '+'),
            !first ==> negative == (text@[0] == '-'),
            first ==> !signed && !negative && valid && fits && magnitude == 0 && count == 0,
            signed ==> !first,
            count == 0 <==> it.index() == (if signed { 1int } else { 0int }),
            count <= 1,
            valid == all_digits(
                text@.subrange(
                    if signed {
                        1int
                    } else {
                        0int
                    },
                    it.index() as int,
                ),
            ),
            valid && fits ==> magnitude == digits_value(
                text@.subrange(
                    if signed {
                        1int
                    } else {
                        0int
                    },
                    it.index() as int,
                ),
            ),
            valid && fits ==> magnitude <= 0x8000_0000_0000_0000,
            valid && !fits ==> digits_value(
                text@.subrange(
                    if signed {
                        1int
                    } else {
                        0int
                    },
                    it.index() as int,
                ),
            ) > 0x8000_0000_0000_0000,
    {
        if first && (character == '-' || character == '+') {
            signed = true;
            negative = character == '-';
            first = false;
            proof {
                assert(text@.subrange(1, 1) =~= Seq::<char>::empty());
            }
        } else {
            let ghost start = if signed {
                1int
            } else {
                0int
            };
            let ghost before = text@.subrange(start, it.index() as int);
            let ghost now = text@.subrange(start, it.index() as int + 1);
            proof {
                assert(now =~= before.push(character));
                lemma_digits_value_push(before, character);
            }
            first = false;
            count = 1;
            if '0' <= character && character <= '9' {
                let digit: u64 = (character as u32 - '0' as u32) as u64;
                if fits {
                    if magnitude > (0x8000_0000_0000_0000u64 - digit) / 10 {
                        fits = false;
                    } else {
                        magnitude = magnitude * 10 + digit;
                    }
                }
                proof {
                    if valid {
                        assert forall|i: int| 0 <= i < now.len() implies is_digit(#[trigger] now[i]) by {
                            if i < before.len() {
                                assert(now[i] == before[i]);
                            }
                        }
                    } else {
                        let i = choose|i: int|
                            0 <= i < before.len() && !is_digit(#[trigger] before[i]);
                        assert(now[i] == before[i]);
                    }
                }
            } else {
                proof {
                    assert(now[now.len() - 1] == character);
                }
                valid = false;
            }
        }
    }
    proof {
        let start = if signed {
            1int
        } else {
            0int
        };
        if text@.len() > 0 {
            if signed {
                assert(text@.subrange(start, text@.len() as int) =~= text@.skip(1));
            } else {
                assert(text@.subrange(start, text@.len() as int) =~= text@);
            }
        }
    }
    if first || count == 0 || !valid || !fits {
        return None;
    }
    if negative {
        if magnitude == 0x8000_0000_0000_0000u64 {
            Some(i64::MIN)
        } else {
            Some(-(magnitude as i64))
        }
    } else if magnitude <= 0x7fff_ffff_ffff_ffffu64 {
        Some(magnitude as i64)
    } else {
        None
    }
}

/// `char::len_utf8` of the standard library gives the number of bytes of
/// the character's encoding in UTF-8.
pub assume_specification[ char::len_utf8 ](character: char) -> (width: usize)
    ensures
        width == encode_scalar(character as u32).len(),
;

/// The number of bytes that a character takes up in a text.
pub open spec fn width(character: char) -> nat {
    encode_scalar(character as u32).len()
}

/// The number of bytes before the character at `index`.
pub open spec fn byte_offset(source: Seq<char>, index: int) -> nat
    decreases index,
{
    if index <= 0 || index > source.len() {
        0
    } else {
        byte_offset(source, index - 1) + width(source[index - 1])
    }
}

/// The encoding of two texts, one after the other, is the encoding of the
/// first, then that of the second.
pub proof fn lemma_encode_concat(first: Seq<char>, second: Seq<char>)
    ensures
        encode_utf8(first + second) == encode_utf8(first) + encode_utf8(second),
    decreases first.len(),
{
    if first.len() == 0 {
        assert(first + second =~= second);
        assert(encode_utf8(first) + encode_utf8(second) =~= encode_utf8(second));
    } else {
        assert((first + second).drop_first() =~= first.drop_first() + second);
        lemma_encode_concat(first.drop_first(), second);
        assert(encode_scalar(first[0] as u32) + (encode_utf8(first.drop_first()) + encode_utf8(
            second,
        )) =~= encode_utf8(first) + encode_utf8(second));
    }
}

/// The bytes before a character are the encoding of the characters before
/// it, and no more than the encoding of the whole source.
pub proof fn lemma_byte_offset(source: Seq<char>, index: int)
    requires
        0 <= index <= source.len(),
    ensures
        byte_offset(source, index) == encode_utf8(source.take(index)).len(),
        index <= byte_offset(source, index) <= encode_utf8(source).len(),
    decreases index,
{
    if index > 0 {
        lemma_byte_offset(source, index - 1);
        let before = source.take(index - 1);
        let character = source[index - 1];
        let one = seq![character];
        assert(source.take(index) =~= before + one);
        lemma_encode_concat(before, one);
        assert(one.drop_first() =~= Seq::<char>::empty());
        assert(one[0] == character);
        assert(encode_utf8(one.drop_first()) =~= Seq::<u8>::empty());
        assert(encode_utf8(one) =~= encode_scalar(character as u32));
    }
    assert(source =~= source.take(index) + source.skip(index));
    lemma_encode_concat(source.take(index), source.skip(index));
}

/// `str::len` of the standard library gives the number of bytes of the
/// text, and no text takes up more than `isize::MAX` bytes.
#[verifier::external_body]
fn byte_length(text: &str) -> (bytes: usize)
    ensures
        bytes == text.spec_bytes().len(),
        bytes <= isize::MAX,
{
    text.len()
}

/// The number of bytes of `text`. It bounds the number of its characters,
/// and stays below what the machine can count.
pub fn byte_count(text: &str) -> (bytes: usize)
    ensures
        bytes == encode_utf8(text@).len(),
        text@.len() <= bytes,
        bytes < usize::MAX,
{
    let bytes = byte_length(text);
    proof {
        lemma_byte_offset(text@, text@.len() as int);
    }
    bytes
}

} // verus!
