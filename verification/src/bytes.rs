//! Verified operations on bytes and their text.

use vstd::prelude::*;
use vstd::utf8::{decode_utf8, valid_utf8};

verus! {

/// Whether no byte is NUL, so that the bytes can be the contents of a C string.
pub open spec fn no_nul(bytes: Seq<u8>) -> bool {
    forall|i: int| 0 <= i < bytes.len() ==> bytes[i] != 0
}

/// Whether no byte is NUL.
pub fn is_free_of_nul(bytes: &[u8]) -> (free: bool)
    ensures
        free == no_nul(bytes@),
{
    let mut i: usize = 0;
    while i < bytes.len()
        invariant
            i <= bytes@.len(),
            forall|j: int| 0 <= j < i ==> bytes@[j] != 0,
        decreases bytes@.len() - i,
    {
        if bytes[i] == 0 {
            return false;
        }
        i += 1;
    }
    true
}

/// Whether two byte strings are equal.
pub fn same_bytes(a: &[u8], b: &[u8]) -> (same: bool)
    ensures
        same == (a@ == b@),
{
    if a.len() != b.len() {
        return false;
    }
    let mut i: usize = 0;
    while i < a.len()
        invariant
            i <= a@.len() == b@.len(),
            forall|j: int| 0 <= j < i ==> a@[j] == b@[j],
        decreases a@.len() - i,
    {
        if a[i] != b[i] {
            return false;
        }
        i += 1;
    }
    assert(a@ =~= b@);
    true
}

/// A copy of a byte string.
pub fn copy_bytes(bytes: &[u8]) -> (copy: Vec<u8>)
    ensures
        copy@ == bytes@,
{
    vstd::slice::slice_to_vec(bytes)
}

/// How often `byte` occurs.
pub open spec fn occurrences(bytes: Seq<u8>, byte: u8) -> nat
    decreases bytes.len(),
{
    if bytes.len() == 0 {
        0
    } else {
        occurrences(bytes.drop_last(), byte) + if bytes.last() == byte {
            1nat
        } else {
            0nat
        }
    }
}

/// Counts how often `byte` occurs.
pub fn count(bytes: &[u8], byte: u8) -> (n: usize)
    ensures
        n == occurrences(bytes@, byte),
        n <= bytes@.len(),
{
    let mut n: usize = 0;
    let mut i: usize = 0;
    assert(bytes@.take(0) =~= Seq::<u8>::empty());
    while i < bytes.len()
        invariant
            n <= i <= bytes@.len(),
            n == occurrences(bytes@.take(i as int), byte),
        decreases bytes@.len() - i,
    {
        assert(bytes@.take(i + 1).drop_last() =~= bytes@.take(i as int));
        if bytes[i] == byte {
            n += 1;
        }
        i += 1;
    }
    assert(bytes@.take(i as int) =~= bytes@);
    n
}

/// Occurrences add up over a concatenation.
pub proof fn occurrences_add_up(a: Seq<u8>, b: Seq<u8>, byte: u8)
    ensures
        occurrences(a + b, byte) == occurrences(a, byte) + occurrences(b, byte),
    decreases b.len(),
{
    if b.len() == 0 {
        assert(a + b =~= a);
    } else {
        assert((a + b).drop_last() =~= a + b.drop_last());
        occurrences_add_up(a, b.drop_last(), byte);
    }
}

/// What `String::from_utf8_lossy` makes of bytes.
pub uninterp spec fn lossy(bytes: Seq<u8>) -> Seq<char>;

/// The replacement character.
pub const REPLACEMENT: char = '\u{FFFD}';

/// What is known of `text` as a lossy reading of bytes: it is what they encode where they are
/// UTF-8, holds a replacement character where they are not, and nothing else is lost where a
/// single byte is in the way.
pub open spec fn is_lossy_text(bytes: Seq<u8>, text: Seq<char>) -> bool {
    &&& valid_utf8(bytes) ==> text == decode_utf8(bytes)
    &&& !valid_utf8(bytes) ==> text.contains(REPLACEMENT)
    &&& bytes.len() == 1 && bytes[0] >= 0x80 ==> text == seq![REPLACEMENT]
    &&& forall|i: int|
        0 <= i < bytes.len() && #[trigger] bytes[i] >= 0x80 && valid_utf8(bytes.take(i))
            && valid_utf8(bytes.skip(i + 1)) ==> text == decode_utf8(bytes.take(i)).push(
            REPLACEMENT,
        ) + decode_utf8(bytes.skip(i + 1))
}

/// Calls `String::from_utf8_lossy`, which puts replacement characters where bytes are not
/// UTF-8. Claimed of it: the text depends on the bytes alone, is what they encode where they
/// are UTF-8, and holds a replacement character where they are not; a single byte that is not
/// ASCII, with UTF-8 before and after it, becomes one replacement character.
#[verifier::external_body]
pub(crate) fn lossy_text(bytes: &[u8]) -> (text: String)
    ensures
        text@ == lossy(bytes@),
        is_lossy_text(bytes@, text@),
{
    String::from_utf8_lossy(bytes).into_owned()
}

/// Calls `std::str::from_utf8`. Claimed of it: it succeeds for UTF-8 and nothing else, and
/// gives the text that the bytes encode.
#[verifier::external_body]
pub(crate) fn utf8_text(bytes: &[u8]) -> (text: Option<String>)
    ensures
        text is Some <==> valid_utf8(bytes@),
        text matches Some(t) ==> t@ == decode_utf8(bytes@),
{
    match std::str::from_utf8(bytes) {
        Ok(text) => Some(text.to_string()),
        Err(_) => None,
    }
}

/// The digit for a value below sixteen.
pub open spec fn hex_digit(value: int) -> char {
    if value < 10 {
        (value + '0' as u32) as char
    } else {
        (value - 10 + 'a' as u32) as char
    }
}

/// The digit for a value below sixteen.
fn digit(value: u8) -> (c: char)
    requires
        value < 16,
    ensures
        c == hex_digit(value as int),
{
    match value {
        0 => '0',
        1 => '1',
        2 => '2',
        3 => '3',
        4 => '4',
        5 => '5',
        6 => '6',
        7 => '7',
        8 => '8',
        9 => '9',
        10 => 'a',
        11 => 'b',
        12 => 'c',
        13 => 'd',
        14 => 'e',
        _ => 'f',
    }
}

/// The hexadecimal digits of a number, without leading zeros.
pub open spec fn hex(value: nat) -> Seq<char>
    decreases value,
{
    if value < 16 {
        seq![hex_digit(value as int)]
    } else {
        hex(value / 16).push(hex_digit(value as int % 16))
    }
}

/// Appends the hexadecimal digits of a number.
pub fn push_hex(text: &mut String, value: u64)
    ensures
        final(text)@ == old(text)@ + hex(value as nat),
    decreases value,
{
    if value >= 16 {
        push_hex(text, value / 16);
    }
    text.push(digit((value % 16) as u8));
    assert(text@ =~= old(text)@ + hex(value as nat));
}

/// The decimal digits of a number, without leading zeros.
pub open spec fn decimal(value: nat) -> Seq<char>
    decreases value,
{
    if value < 10 {
        seq![hex_digit(value as int)]
    } else {
        decimal(value / 10).push(hex_digit(value as int % 10))
    }
}

/// A number in decimal, with a minus sign where it is negative.
pub open spec fn signed_decimal(value: int) -> Seq<char> {
    if value < 0 {
        seq!['-'] + decimal((-value) as nat)
    } else {
        decimal(value as nat)
    }
}

/// Appends the decimal digits of a number.
pub fn push_decimal(text: &mut String, value: u64)
    ensures
        final(text)@ == old(text)@ + decimal(value as nat),
    decreases value,
{
    if value >= 10 {
        push_decimal(text, value / 10);
    }
    text.push(digit((value % 10) as u8));
    assert(text@ =~= old(text)@ + decimal(value as nat));
}

/// Appends a number in decimal, with a minus sign where it is negative.
pub fn push_signed(text: &mut String, value: i64)
    ensures
        final(text)@ == old(text)@ + signed_decimal(value as int),
{
    if value < 0 {
        text.push('-');
        let size: u64 = if value == i64::MIN {
            0x8000_0000_0000_0000
        } else {
            (-value) as u64
        };
        push_decimal(text, size);
        assert(text@ =~= old(text)@ + signed_decimal(value as int));
    } else {
        push_decimal(text, value as u64);
    }
}

/// How a byte is written between the quotes of a C string literal: printable ASCII as it is,
/// quotes and backslashes behind a backslash, the rest as an escape.
pub open spec fn escaped_byte(byte: u8) -> Seq<char> {
    if byte == 9 {
        seq!['\\', 't']
    } else if byte == 10 {
        seq!['\\', 'n']
    } else if byte == 13 {
        seq!['\\', 'r']
    } else if byte == 34 || byte == 39 || byte == 92 {
        seq!['\\', byte as char]
    } else if 32 <= byte < 127 {
        seq![byte as char]
    } else {
        seq!['\\', 'x', hex_digit(byte as int / 16), hex_digit(byte as int % 16)]
    }
}

/// How bytes are written between the quotes of a C string literal.
pub open spec fn escaped(bytes: Seq<u8>) -> Seq<char>
    decreases bytes.len(),
{
    if bytes.len() == 0 {
        Seq::empty()
    } else {
        escaped(bytes.drop_last()) + escaped_byte(bytes.last())
    }
}

/// Appends bytes as they are written between the quotes of a C string literal.
pub fn push_escaped(text: &mut String, bytes: &[u8])
    ensures
        final(text)@ == old(text)@ + escaped(bytes@),
{
    let mut i: usize = 0;
    assert(bytes@.take(0) =~= Seq::<u8>::empty());
    assert(text@ =~= old(text)@ + escaped(bytes@.take(0)));
    while i < bytes.len()
        invariant
            i <= bytes@.len(),
            text@ == old(text)@ + escaped(bytes@.take(i as int)),
        decreases bytes@.len() - i,
    {
        let byte = bytes[i];
        assert(bytes@.take(i + 1).drop_last() =~= bytes@.take(i as int));
        if byte == 9 {
            text.push('\\');
            text.push('t');
        } else if byte == 10 {
            text.push('\\');
            text.push('n');
        } else if byte == 13 {
            text.push('\\');
            text.push('r');
        } else if byte == 34 || byte == 39 || byte == 92 {
            text.push('\\');
            text.push(byte as char);
        } else if 32 <= byte && byte < 127 {
            text.push(byte as char);
        } else {
            text.push('\\');
            text.push('x');
            text.push(digit(byte / 16));
            text.push(digit(byte % 16));
        }
        assert(text@ =~= old(text)@ + escaped(bytes@.take(i + 1)));
        i += 1;
    }
    assert(bytes@.take(i as int) =~= bytes@);
}

/// A byte occurs once in itself, and not in another one.
pub proof fn occurrence_of_one(b: u8, byte: u8)
    ensures
        occurrences(Seq::empty(), byte) == 0,
        occurrences(seq![b], byte) == if b == byte {
            1nat
        } else {
            0nat
        },
{
    assert(seq![b].drop_last() =~= Seq::<u8>::empty());
    assert(seq![b].last() == b);
    reveal_with_fuel(occurrences, 2);
}

/// Bytes are escaped one by one, in their order.
pub proof fn escapes_add_up(a: Seq<u8>, b: Seq<u8>)
    ensures
        escaped(a + b) == escaped(a) + escaped(b),
    decreases b.len(),
{
    if b.len() == 0 {
        assert(a + b =~= a);
        assert(escaped(a) + escaped(b) =~= escaped(a));
    } else {
        assert((a + b).drop_last() =~= a + b.drop_last());
        escapes_add_up(a, b.drop_last());
        assert(escaped(a + b) =~= escaped(a) + escaped(b));
    }
}

/// Printable ASCII is written as it is, quotes and backslashes behind a backslash, and every
/// other byte as an escape of its own.
pub proof fn escape_of_one(byte: u8)
    ensures
        32 <= byte < 127 && byte != 34 && byte != 39 && byte != 92 ==> escaped(seq![byte]) == seq![
            byte as char,
        ],
        byte == 34 || byte == 39 || byte == 92 ==> escaped(seq![byte]) == seq![
            '\\',
            byte as char,
        ],
        byte == 9 ==> escaped(seq![byte]) == seq!['\\', 't'],
        byte == 10 ==> escaped(seq![byte]) == seq!['\\', 'n'],
        byte == 13 ==> escaped(seq![byte]) == seq!['\\', 'r'],
        (byte < 32 && byte != 9 && byte != 10 && byte != 13) || byte >= 127 ==> escaped(
            seq![byte],
        ) == seq![
            '\\',
            'x',
            "0123456789abcdef"@[byte as int / 16],
            "0123456789abcdef"@[byte as int % 16],
        ],
{
    assert(seq![byte].drop_last() =~= Seq::<u8>::empty());
    assert(seq![byte].last() == byte);
    reveal_with_fuel(escaped, 2);
    assert(escaped(seq![byte]) =~= escaped_byte(byte));
    digits_are_digits(byte as int / 16);
    digits_are_digits(byte as int % 16);
}

/// The digits are the usual ones.
pub proof fn digits_are_digits(value: int)
    requires
        0 <= value < 16,
    ensures
        hex_digit(value) == "0123456789abcdef"@[value],
{
    reveal_strlit("0123456789abcdef");
}

/// A number is written digit by digit, the last one for what is below the base.
pub proof fn numbers_are_written_digit_by_digit(high: nat, digit: nat)
    ensures
        digit < 16 ==> hex(digit) == seq!["0123456789abcdef"@[digit as int]],
        digit < 16 && high > 0 ==> hex(high * 16 + digit) == hex(high).push(
            "0123456789abcdef"@[digit as int],
        ),
        digit < 10 ==> decimal(digit) == seq!["0123456789abcdef"@[digit as int]],
        digit < 10 && high > 0 ==> decimal(high * 10 + digit) == decimal(high).push(
            "0123456789abcdef"@[digit as int],
        ),
{
    if digit < 16 {
        digits_are_digits(digit as int);
        assert((high * 16 + digit) / 16 == high && (high * 16 + digit) % 16 == digit);
    }
    if digit < 10 {
        assert((high * 10 + digit) / 10 == high && (high * 10 + digit) % 10 == digit);
    }
}

/// A negative number is written as its opposite behind a minus sign, another one as it is.
pub proof fn negative_numbers_have_a_sign(value: nat)
    ensures
        signed_decimal(value as int) == decimal(value),
        value > 0 ==> signed_decimal(-(value as int)) == seq!['-'] + decimal(value),
{
}

} // verus!
