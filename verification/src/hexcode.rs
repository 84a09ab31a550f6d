//! Bytes as hexadecimal text, and account addresses in that form.

use vstd::prelude::*;

verus! {

/// Bytes of an account address.
pub const ADDRESS_LEN: usize = 20;

/// The lower-case hexadecimal digit of `n`, for `n` below sixteen.
pub open spec fn hex_digit(n: int) -> char {
    if n < 10 {
        ('0' as int + n) as char
    } else {
        ('a' as int + n - 10) as char
    }
}

/// `bytes` in lower-case hexadecimal, two digits a byte, the high one first.
#[verifier::opaque]
pub open spec fn hex_text(bytes: Seq<u8>) -> Seq<char> {
    Seq::new(
        2 * bytes.len(),
        |i: int|
            if i % 2 == 0 {
                hex_digit(bytes[i / 2] as int / 16)
            } else {
                hex_digit(bytes[i / 2] as int % 16)
            },
    )
}

/// `bytes` in lower-case hexadecimal behind `0x`.
pub open spec fn prefixed_hex(bytes: Seq<u8>) -> Seq<char> {
    seq!['0', 'x'] + hex_text(bytes)
}

/// The value of a hexadecimal digit of either case; nothing for another character.
pub open spec fn hex_value(c: char) -> Option<int> {
    if '0' <= c <= '9' {
        Some(c as int - '0' as int)
    } else if 'a' <= c <= 'f' {
        Some(c as int - 'a' as int + 10)
    } else if 'A' <= c <= 'F' {
        Some(c as int - 'A' as int + 10)
    } else {
        None
    }
}

/// The characters that an address may be broken up with.
pub open spec fn is_blank(c: char) -> bool {
    c == ' ' || c == '\r' || c == '\n' || c == '\t'
}

/// `text` without its blanks.
pub open spec fn without_blanks(text: Seq<char>) -> Seq<char>
    decreases text.len(),
{
    if text.len() == 0 {
        text
    } else if is_blank(text.last()) {
        without_blanks(text.drop_last())
    } else {
        without_blanks(text.drop_last()).push(text.last())
    }
}

/// `text` without a leading `0x`.
pub open spec fn without_prefix(text: Seq<char>) -> Seq<char> {
    if text.len() >= 2 && text[0] == '0' && text[1] == 'x' {
        text.skip(2)
    } else {
        text
    }
}

/// Whether `digits` are hexadecimal digits throughout.
pub open spec fn all_hex(digits: Seq<char>) -> bool {
    forall|i: int| 0 <= i < digits.len() ==> hex_value(#[trigger] digits[i]) is Some
}

/// The bytes that an even number of hexadecimal digits spell.
pub open spec fn hex_bytes(digits: Seq<char>) -> Seq<u8> {
    Seq::new(
        digits.len() / 2,
        |i: int| (hex_value(digits[2 * i])->0 * 16 + hex_value(digits[2 * i + 1])->0) as u8,
    )
}

/// The address that `text` spells: forty hexadecimal digits of either case, behind
/// an optional `0x`, blanks not counted.
pub open spec fn address_of(text: Seq<char>) -> Option<Seq<u8>> {
    let digits = without_blanks(without_prefix(text));
    if digits.len() == 2 * ADDRESS_LEN && all_hex(digits) {
        Some(hex_bytes(digits))
    } else {
        None
    }
}

/// Where `text` has its first character that is neither a hexadecimal digit nor blank;
/// its length where it has none.
pub open spec fn first_stray(text: Seq<char>) -> nat
    decreases text.len(),
{
    if text.len() == 0 || !(hex_value(text[0]) is Some || is_blank(text[0])) {
        0
    } else {
        1 + first_stray(text.skip(1))
    }
}

/// The message on a `text` that spells no address: it tells of the first stray
/// character, if that comes before the fortieth digit, and else of the length.
pub open spec fn address_error(text: Seq<char>) -> Seq<char> {
    let rest = without_prefix(text);
    let stray = first_stray(rest);
    if stray < rest.len() && without_blanks(rest.take(stray as int)).len() < 2 * ADDRESS_LEN {
        "Invalid character '"@ + seq![rest[stray as int]] + "' at position "@
            + crate::text::decimal_text(stray)
    } else {
        "Invalid input length"@
    }
}

/// Whether `text` is `0x` and forty hexadecimal digits of either case.
pub open spec fn is_plain_address(text: Seq<char>) -> bool {
    &&& text.len() == 2 + 2 * ADDRESS_LEN
    &&& text[0] == '0'
    &&& text[1] == 'x'
    &&& all_hex(text.skip(2))
}

proof fn lemma_no_blanks(text: Seq<char>)
    requires
        forall|i: int| 0 <= i < text.len() ==> !is_blank(#[trigger] text[i]),
    ensures
        without_blanks(text) == text,
    decreases text.len(),
{
    if text.len() > 0 {
        lemma_no_blanks(text.drop_last());
        assert(text.drop_last().push(text.last()) == text);
    }
}

/// Digits have no blanks among them.
proof fn lemma_digits_solid(digits: Seq<char>)
    requires
        all_hex(digits),
    ensures
        without_blanks(digits) == digits,
{
    lemma_no_blanks(digits);
}

/// The hexadecimal text of bytes is made of digits, spells the bytes, and is in lower
/// case.
pub proof fn lemma_hex_text_shape(bytes: Seq<u8>)
    ensures
        hex_text(bytes).len() == 2 * bytes.len(),
        all_hex(hex_text(bytes)),
        hex_bytes(hex_text(bytes)) == bytes,
        prefixed_hex(bytes).skip(2) == hex_text(bytes),
        vstd::utf8::is_ascii_chars(prefixed_hex(bytes)),
        crate::text::lower(prefixed_hex(bytes)) == prefixed_hex(bytes),
{
    reveal(hex_text);
    let digits = hex_text(bytes);
    assert(prefixed_hex(bytes).skip(2) =~= digits);
    assert forall|i: int| 0 <= i < bytes.len() implies #[trigger] hex_bytes(digits)[i] == bytes[i] by {
        assert((2 * i) / 2 == i && (2 * i) % 2 == 0);
        assert((2 * i + 1) / 2 == i && (2 * i + 1) % 2 == 1);
        assert(digits[2 * i] == hex_digit(bytes[i] as int / 16));
        assert(digits[2 * i + 1] == hex_digit(bytes[i] as int % 16));
    }
    assert(hex_bytes(digits) =~= bytes);
    assert(crate::text::lower(prefixed_hex(bytes)) =~= prefixed_hex(bytes));
}

/// The two digits of one byte, and what they are worth.
pub proof fn lemma_hex_at(bytes: Seq<u8>, i: int)
    requires
        0 <= i < bytes.len(),
    ensures
        hex_text(bytes)[2 * i] == hex_digit(bytes[i] as int / 16),
        hex_text(bytes)[2 * i + 1] == hex_digit(bytes[i] as int % 16),
        bytes[i] == hex_value(hex_text(bytes)[2 * i])->0 * 16 + hex_value(
            hex_text(bytes)[2 * i + 1],
        )->0,
{
    reveal(hex_text);
    assert((2 * i) / 2 == i && (2 * i) % 2 == 0);
    assert((2 * i + 1) / 2 == i && (2 * i + 1) % 2 == 1);
}

/// A stretch of bytes has the matching stretch of digits.
pub proof fn lemma_hex_stretch(bytes: Seq<u8>, from: int, to: int)
    requires
        0 <= from <= to <= bytes.len(),
    ensures
        hex_text(bytes).subrange(2 * from, 2 * to) == hex_text(bytes.subrange(from, to)),
{
    reveal(hex_text);
    let whole = hex_text(bytes).subrange(2 * from, 2 * to);
    let part = hex_text(bytes.subrange(from, to));
    assert forall|i: int| 0 <= i < part.len() implies #[trigger] whole[i] == part[i] by {
        assert((2 * from + i) / 2 == from + i / 2 && (2 * from + i) % 2 == i % 2);
    }
    assert(whole =~= part);
}

/// An address read back from its own text is the same address.
pub proof fn law_address_round_trip(bytes: Seq<u8>)
    requires
        bytes.len() == ADDRESS_LEN,
    ensures
        address_of(prefixed_hex(bytes)) == Some(bytes),
{
    let text = prefixed_hex(bytes);
    let digits = hex_text(bytes);
    assert(without_prefix(text) == digits && without_blanks(digits) == digits && all_hex(digits)
        && digits.len() == 40 && hex_bytes(digits) == bytes) by {
        lemma_hex_text_shape(bytes);
        lemma_digits_solid(digits);
        assert(text[0] == '0' && text[1] == 'x');
    }
}

/// `0x` and forty hexadecimal digits always parse.
pub proof fn law_plain_address_parses(text: Seq<char>)
    requires
        is_plain_address(text),
    ensures
        address_of(text) == Some(hex_bytes(text.skip(2))),
{
    lemma_digits_solid(text.skip(2));
}

/// The text of an address is in lower case already.
pub proof fn law_address_text_is_lower(bytes: Seq<u8>)
    ensures
        crate::text::lower(prefixed_hex(bytes)) == prefixed_hex(bytes),
{
    lemma_hex_text_shape(bytes);
}

/// A plain address stays as long as it is in lower case.
pub proof fn lemma_plain_address_lower_len(text: Seq<char>)
    requires
        is_plain_address(text),
    ensures
        crate::text::lower(text).len() == text.len(),
{
    assert forall|i: int| 0 <= i < text.len() implies '\0' <= #[trigger] text[i] <= '\u{7f}' by {
        if i >= 2 {
            assert(text[i] == text.skip(2)[i - 2]);
            assert(hex_value(text.skip(2)[i - 2]) is Some);
        }
    }
}

/// The digit of the value of a digit is that digit in lower case.
proof fn lemma_digit_of_value(c: char)
    requires
        hex_value(c) is Some,
    ensures
        0 <= hex_value(c)->0 < 16,
        hex_digit(hex_value(c)->0) == crate::text::ascii_lower(c),
        '\0' <= c <= '\u{7f}',
{
}

/// The text of the bytes that digits spell are these digits in lower case.
proof fn lemma_text_of_bytes(digits: Seq<char>, i: int)
    requires
        all_hex(digits),
        digits.len() % 2 == 0,
        0 <= i < digits.len(),
    ensures
        hex_bytes(digits).len() == digits.len() / 2,
        hex_text(hex_bytes(digits)).len() == digits.len(),
        hex_text(hex_bytes(digits))[i] == crate::text::ascii_lower(digits[i]),
{
    let found = hex_bytes(digits);
    let j = i / 2;
    assert(hex_value(digits[2 * j]) is Some && hex_value(digits[2 * j + 1]) is Some);
    lemma_digit_of_value(digits[2 * j]);
    lemma_digit_of_value(digits[2 * j + 1]);
    let high = hex_value(digits[2 * j])->0;
    let low = hex_value(digits[2 * j + 1])->0;
    assert(found[j] == high * 16 + low);
    assert(found[j] as int / 16 == high && found[j] as int % 16 == low);
    lemma_hex_at(found, j);
    lemma_hex_text_shape(found);
    assert(i == 2 * j || i == 2 * j + 1);
}

/// A plain address in lower case is the text of the bytes that it spells.
proof fn lemma_lower_address(written: Seq<char>)
    requires
        is_plain_address(written),
    ensures
        crate::text::lower(written) == prefixed_hex(hex_bytes(written.skip(2))),
{
    let digits = written.skip(2);
    let found = hex_bytes(digits);
    assert forall|i: int| 0 <= i < written.len() implies '\0' <= #[trigger] written[i] <= '\u{7f}' by {
        if i >= 2 {
            assert(written[i] == digits[i - 2]);
            lemma_digit_of_value(digits[i - 2]);
        }
    }
    lemma_text_of_bytes(digits, 0);
    assert forall|i: int| 0 <= i < written.len() implies #[trigger] crate::text::lower(written)[i]
        == prefixed_hex(found)[i] by {
        if i >= 2 {
            assert(written[i] == digits[i - 2]);
            lemma_text_of_bytes(digits, i - 2);
        }
    }
    assert(crate::text::lower(written) =~= prefixed_hex(found));
}

/// Comparing a written address in lower case with the text of some bytes compares the
/// bytes: the case in which the address was written does not matter.
pub proof fn law_lower_text_compares_bytes(written: Seq<char>, bytes: Seq<u8>)
    requires
        is_plain_address(written),
        bytes.len() == ADDRESS_LEN,
    ensures
        crate::text::lower(written) == prefixed_hex(bytes) <==> address_of(written) == Some(bytes),
{
    let found = hex_bytes(written.skip(2));
    law_plain_address_parses(written);
    lemma_lower_address(written);
    law_address_round_trip(found);
    law_address_round_trip(bytes);
}

/// Calls `hex::encode`: the bytes in lower-case hexadecimal, two digits a byte.
#[verifier::external_body]
pub(crate) fn encode(bytes: &[u8]) -> (text: String)
    requires
        2 * bytes@.len() <= isize::MAX,
    ensures
        text@ == hex_text(bytes@),
{
    hex::encode(bytes)
}

/// Calls the `FromStr` of `ethers::types::Address`.
///
/// It takes off one leading `0x`, skips blanks, and accepts forty hexadecimal digits
/// of either case and nothing else. Otherwise its error names the first other
/// character and its position behind the prefix, or, where forty digits come first or
/// there is none, the length.
#[verifier::external_body]
fn read_address(text: &str) -> (res: Result<[u8; 20], String>)
    ensures
        match res {
            Ok(bytes) => address_of(text@) == Some(bytes@),
            Err(message) => address_of(text@) is None && message@ == address_error(text@),
        },
{
    match text.parse::<ethers::types::Address>() {
        Ok(address) => Ok(address.0),
        Err(error) => Err(error.to_string()),
    }
}

/// Calls the `Debug` formatting of `ethers::types::Address`: `0x` and the bytes in
/// lower-case hexadecimal.
#[verifier::external_body]
pub(crate) fn show_address(bytes: &[u8; 20]) -> (text: String)
    ensures
        text@ == prefixed_hex(bytes@),
{
    format!("{:?}", ethers::types::Address::from(*bytes))
}

/// Calls the `Debug` formatting of `ethers::types::H256`: `0x` and the bytes in
/// lower-case hexadecimal.
#[verifier::external_body]
pub(crate) fn show_hash(bytes: &[u8; 32]) -> (text: String)
    ensures
        text@ == prefixed_hex(bytes@),
{
    format!("{:?}", ethers::types::H256::from(*bytes))
}

/// The address that `text` spells, or the message of the parser's error.
pub fn parse_address(text: &str) -> (res: Result<[u8; 20], String>)
    ensures
        match res {
            Ok(bytes) => address_of(text@) == Some(bytes@),
            Err(message) => address_of(text@) is None && message@ == address_error(text@),
        },
{
    read_address(text)
}

} // verus!
