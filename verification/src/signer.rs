//! Private keys, as far as it matters whether a text is one.

use vstd::prelude::*;

verus! {

/// Whether `text` starts with `0` and `x`.
pub open spec fn starts_with_zero(text: Seq<char>, x: char) -> bool {
    text.len() >= 2 && text[0] == '0' && text[1] == x
}

/// The digits of a written key: what is left after one `0X`, and after one more `0x`
/// or `0X`, where they are there.
pub open spec fn key_digits(text: Seq<char>) -> Seq<char> {
    let once = if starts_with_zero(text, 'X') {
        text.skip(2)
    } else {
        text
    };
    if starts_with_zero(once, 'x') || starts_with_zero(once, 'X') {
        once.skip(2)
    } else {
        once
    }
}

/// The number that hexadecimal digits spell.
pub open spec fn hex_number(digits: Seq<char>) -> int
    decreases digits.len(),
{
    if digits.len() == 0 {
        0
    } else {
        hex_number(digits.drop_last()) * 16 + crate::hexcode::hex_value(digits.last())->0
    }
}

/// The order of the curve secp256k1.
pub open spec fn curve_order() -> int {
    0xffff_ffff_ffff_ffff_ffff_ffff_ffff_fffe_baae_dce6_af48_a03b_bfd2_5e8c_d036_4141int
}

/// Whether `text` is a private key: sixty-four hexadecimal digits that spell a number
/// above zero and below the order of the curve.
pub open spec fn is_private_key(text: Seq<char>) -> bool {
    let digits = key_digits(text);
    &&& digits.len() == 64
    &&& crate::hexcode::all_hex(digits)
    &&& 0 < hex_number(digits) < curve_order()
}

/// The message of the error that reading `text` as a private key ends in.
pub uninterp spec fn key_error(text: Seq<char>) -> Seq<char>;

/// Calls the `FromStr` of `ethers::signers::LocalWallet` and tells whether it fails,
/// and with which message.
///
/// It succeeds on sixty-four hexadecimal digits that spell a number above zero and
/// below the order of the curve; before them it skips a `0X`, then a `0x` or `0X`. The
/// message of its error depends on the text alone and is not spelled out.
#[verifier::external_body]
pub(crate) fn check_key(text: &str) -> (failure: Option<String>)
    ensures
        match failure {
            Some(message) => !is_private_key(text@) && message@ == key_error(text@),
            None => is_private_key(text@),
        },
{
    match text.parse::<ethers::signers::LocalWallet>() {
        Ok(_) => None,
        Err(error) => Some(error.to_string()),
    }
}

} // verus!
