//! Numbers in decimal and letter case.

use vstd::prelude::*;
use vstd::string::*;

verus! {

/// The decimal digit of `n`, for `n` below ten.
pub open spec fn digit(n: nat) -> char {
    ('0' as int + n) as char
}

/// `n` in decimal, without leading zeros.
pub open spec fn decimal_text(n: nat) -> Seq<char>
    decreases n,
{
    if n < 10 {
        seq![digit(n)]
    } else {
        decimal_text(n / 10).push(digit(n % 10))
    }
}

/// `text` filled up with zeros on the left to at least `width` characters.
pub open spec fn zero_padded(text: Seq<char>, width: nat) -> Seq<char> {
    if text.len() < width {
        Seq::new((width - text.len()) as nat, |i: int| '0') + text
    } else {
        text
    }
}

fn digit_str(n: u128) -> (s: &'static str)
    requires
        n < 10,
    ensures
        s@ == seq![digit(n as nat)],
{
    proof {
        reveal_strlit("0");
        reveal_strlit("1");
        reveal_strlit("2");
        reveal_strlit("3");
        reveal_strlit("4");
        reveal_strlit("5");
        reveal_strlit("6");
        reveal_strlit("7");
        reveal_strlit("8");
        reveal_strlit("9");
    }
    match n {
        0 => "0",
        1 => "1",
        2 => "2",
        3 => "3",
        4 => "4",
        5 => "5",
        6 => "6",
        7 => "7",
        8 => "8",
        _ => "9",
    }
}

/// `n` in decimal.
pub fn decimal(n: u128) -> (text: String)
    ensures
        text@ == decimal_text(n as nat),
    decreases n,
{
    if n < 10 {
        String::from_str(digit_str(n))
    } else {
        let mut text = decimal(n / 10);
        text.append(digit_str(n % 10));
        text
    }
}

/// An ASCII letter in lower case; any other character unchanged.
pub open spec fn ascii_lower(c: char) -> char {
    if 'A' <= c <= 'Z' {
        (c as int + 32) as char
    } else {
        c
    }
}

/// An ASCII letter in upper case; any other character unchanged.
pub open spec fn ascii_upper(c: char) -> char {
    if 'a' <= c <= 'z' {
        (c as int - 32) as char
    } else {
        c
    }
}

/// What `str::to_lowercase` makes of a text that is not all ASCII.
pub uninterp spec fn unicode_lower(text: Seq<char>) -> Seq<char>;

/// What `str::to_uppercase` makes of a text that is not all ASCII.
pub uninterp spec fn unicode_upper(text: Seq<char>) -> Seq<char>;

/// `text` in lower case.
pub open spec fn lower(text: Seq<char>) -> Seq<char> {
    if vstd::utf8::is_ascii_chars(text) {
        text.map_values(|c: char| ascii_lower(c))
    } else {
        unicode_lower(text)
    }
}

/// `text` in upper case.
pub open spec fn upper(text: Seq<char>) -> Seq<char> {
    if vstd::utf8::is_ascii_chars(text) {
        text.map_values(|c: char| ascii_upper(c))
    } else {
        unicode_upper(text)
    }
}

/// Calls `str::to_lowercase`.
///
/// On ASCII text it maps the letters `A` to `Z` to `a` to `z` and leaves the other
/// characters; on other text it follows the Unicode mapping, which depends on the
/// text alone and is not spelled out.
#[verifier::external_body]
pub(crate) fn lowercase(text: &str) -> (res: String)
    ensures
        vstd::utf8::is_ascii_chars(text@) ==> res@ == text@.map_values(|c: char| ascii_lower(c)),
        !vstd::utf8::is_ascii_chars(text@) ==> res@ == unicode_lower(text@),
{
    text.to_lowercase()
}

/// Calls `str::to_uppercase`.
///
/// On ASCII text it maps the letters `a` to `z` to `A` to `Z` and leaves the other
/// characters; on other text it follows the Unicode mapping, which depends on the
/// text alone and is not spelled out.
#[verifier::external_body]
pub(crate) fn uppercase(text: &str) -> (res: String)
    ensures
        vstd::utf8::is_ascii_chars(text@) ==> res@ == text@.map_values(|c: char| ascii_upper(c)),
        !vstd::utf8::is_ascii_chars(text@) ==> res@ == unicode_upper(text@),
{
    text.to_uppercase()
}

/// The number that decimal digits spell.
pub open spec fn number_in(digits: Seq<char>) -> nat
    decreases digits.len(),
{
    if digits.len() == 0 {
        0
    } else {
        (number_in(digits.drop_last()) * 10 + (digits.last() as int - '0' as int)) as nat
    }
}

/// Whether a text is made of decimal digits.
pub open spec fn all_decimal(text: Seq<char>) -> bool {
    forall|i: int| 0 <= i < text.len() ==> '0' <= #[trigger] text[i] <= '9'
}

/// A number written in decimal is read back as itself: it is made of digits, at least
/// one, and does not start with a zero unless it is zero.
pub proof fn law_decimal_reads_back(n: nat)
    ensures
        number_in(decimal_text(n)) == n,
        all_decimal(decimal_text(n)),
        decimal_text(n).len() > 0,
        decimal_text(n)[0] == '0' ==> n == 0 && decimal_text(n).len() == 1,
    decreases n,
{
    let text = decimal_text(n);
    if n < 10 {
        assert(text.drop_last() =~= Seq::empty());
        assert(number_in(Seq::empty()) == 0);
    } else {
        law_decimal_reads_back(n / 10);
        assert(text.drop_last() =~= decimal_text(n / 10));
        assert(text[0] == decimal_text(n / 10)[0]);
    }
}

/// A number below a power of ten has no more digits than the power has zeros.
pub proof fn lemma_decimal_width(n: nat, width: nat)
    requires
        width > 0,
        n < vstd::arithmetic::power::pow(10, width),
    ensures
        decimal_text(n).len() <= width,
    decreases width,
{
    if n >= 10 {
        reveal(vstd::arithmetic::power::pow);
        reveal_with_fuel(vstd::arithmetic::power::pow, 2);
        assert(width > 1);
        lemma_decimal_width(n / 10, (width - 1) as nat);
    }
}

/// Zeros on the left do not change a number.
pub proof fn lemma_padding_keeps_number(text: Seq<char>, width: nat)
    requires
        all_decimal(text),
    ensures
        number_in(zero_padded(text, width)) == number_in(text),
        all_decimal(zero_padded(text, width)),
        zero_padded(text, width).len() >= width,
        text.len() <= width ==> zero_padded(text, width).len() == width,
{
    if text.len() < width {
        let zeros = Seq::new((width - text.len()) as nat, |i: int| '0');
        lemma_zeros(zeros);
        lemma_number_joined(zeros, text);
        assert(0 * vstd::arithmetic::power::pow(10, text.len()) == 0) by (nonlinear_arith);
    }
}

proof fn lemma_zeros(zeros: Seq<char>)
    requires
        forall|i: int| 0 <= i < zeros.len() ==> #[trigger] zeros[i] == '0',
    ensures
        number_in(zeros) == 0,
    decreases zeros.len(),
{
    if zeros.len() > 0 {
        lemma_zeros(zeros.drop_last());
    }
}

/// Two runs of digits, one behind the other.
pub proof fn lemma_number_joined(high: Seq<char>, low: Seq<char>)
    requires
        all_decimal(low),
    ensures
        number_in(high + low) == number_in(high) * vstd::arithmetic::power::pow(10, low.len())
            + number_in(low),
    decreases low.len(),
{
    reveal(vstd::arithmetic::power::pow);
    if low.len() == 0 {
        assert(high + low =~= high);
        let h = number_in(high) as int;
        let p = vstd::arithmetic::power::pow(10, 0);
        assert(h * p == h) by (nonlinear_arith)
            requires
                p == 1,
        ;
    } else {
        let shorter = low.drop_last();
        assert forall|i: int| 0 <= i < shorter.len() implies '0' <= #[trigger] shorter[i] <= '9' by {
            assert(shorter[i] == low[i]);
        }
        lemma_number_joined(high, shorter);
        assert((high + low).drop_last() =~= high + shorter);
        assert((high + low).last() == low.last());
        let h = number_in(high) as int;
        let p = vstd::arithmetic::power::pow(10, shorter.len());
        let s = number_in(shorter) as int;
        let d = low.last() as int - '0' as int;
        assert('0' <= low[low.len() - 1] <= '9');
        assert(vstd::arithmetic::power::pow(10, low.len()) == 10 * p);
        vstd::arithmetic::power::lemma_pow_positive(10, shorter.len());
        assert(h * p >= 0) by (nonlinear_arith)
            requires
                h >= 0,
                p > 0,
        ;
        assert(number_in(low) == s * 10 + d);
        assert(number_in(high + low) == (h * p + s) * 10 + d);
        assert((h * p + s) * 10 + d == h * (10 * p) + (s * 10 + d)) by (nonlinear_arith);
    }
}

/// On ASCII text, changing the case goes letter by letter: it keeps the length and
/// every other character, takes `A` to `a` and so on and back, and does nothing more
/// the second time. Other text is mapped by the Unicode tables.
pub proof fn law_case_goes_by_letter(text: Seq<char>, i: int)
    ensures
        vstd::utf8::is_ascii_chars(text) ==> {
            &&& lower(text).len() == text.len()
            &&& upper(text).len() == text.len()
            &&& lower(lower(text)) == lower(text)
            &&& upper(upper(text)) == upper(text)
            &&& upper(lower(text)) == upper(text)
            &&& lower(upper(text)) == lower(text)
        },
        vstd::utf8::is_ascii_chars(text) && 0 <= i < text.len() ==> {
            &&& lower(text)[i] as int == if 'A' <= text[i] <= 'Z' {
                text[i] as int + ('a' as int - 'A' as int)
            } else {
                text[i] as int
            }
            &&& upper(text)[i] as int == if 'a' <= text[i] <= 'z' {
                text[i] as int - ('a' as int - 'A' as int)
            } else {
                text[i] as int
            }
        },
        !vstd::utf8::is_ascii_chars(text) ==> lower(text) == unicode_lower(text) && upper(text)
            == unicode_upper(text),
{
    if vstd::utf8::is_ascii_chars(text) {
        assert(vstd::utf8::is_ascii_chars(lower(text)));
        assert(vstd::utf8::is_ascii_chars(upper(text)));
        assert(lower(lower(text)) =~= lower(text));
        assert(upper(upper(text)) =~= upper(text));
        assert(upper(lower(text)) =~= upper(text));
        assert(lower(upper(text)) =~= lower(text));
    }
}

} // verus!
