//! Amounts of a chain's coin, in its smallest unit.

use vstd::prelude::*;

verus! {

/// Wei in one coin.
pub const COIN: u64 = 1_000_000_000_000_000_000;

/// A 256-bit amount, as four 64-bit limbs, the lowest first.
#[derive(Clone, Copy, Debug)]
pub struct Wei {
    pub limbs: [u64; 4],
}

impl View for Wei {
    type V = nat;

    open spec fn view(&self) -> nat {
        (self.limbs[0] + self.limbs[1] * 0x1_0000_0000_0000_0000 + self.limbs[2]
            * 0x1_0000_0000_0000_0000_0000_0000_0000_0000 + self.limbs[3]
            * 0x1_0000_0000_0000_0000_0000_0000_0000_0000_0000_0000_0000_0000) as nat
    }
}

/// `amount` wei written in coins: the whole coins, a point, and eighteen decimals.
pub open spec fn coin_text(amount: nat) -> Seq<char> {
    crate::text::decimal_text(amount / COIN as nat) + seq!['.'] + crate::text::zero_padded(
        crate::text::decimal_text(amount % COIN as nat),
        18,
    )
}

impl Wei {
    /// The amount of `n` wei.
    pub fn from_u128(n: u128) -> (wei: Wei)
        ensures
            wei@ == n,
    {
        let low: u64 = (n % 0x1_0000_0000_0000_0000) as u64;
        let high: u64 = (n / 0x1_0000_0000_0000_0000) as u64;
        Wei { limbs: [low, high, 0, 0] }
    }

    /// The amount in 128 bits, if it fits there.
    pub fn to_u128(&self) -> (n: Option<u128>)
        ensures
            match n {
                Some(n) => n == self@,
                None => self@ > u128::MAX,
            },
    {
        if self.limbs[2] == 0 && self.limbs[3] == 0 {
            Some(self.limbs[0] as u128 + self.limbs[1] as u128 * 0x1_0000_0000_0000_0000)
        } else {
            None
        }
    }

    /// Whether the amount is enough to pay `cost`.
    pub fn covers(&self, cost: u128) -> (enough: bool)
        ensures
            enough == (self@ >= cost),
    {
        match self.to_u128() {
            Some(n) => n >= cost,
            None => true,
        }
    }

    /// The amount written in coins.
    pub fn in_coins(&self) -> (text: String)
        ensures
            text@ == coin_text(self@),
    {
        format_coins(self)
    }
}

/// Calls `ethers::utils::format_ether`: the whole coins in decimal, a point, and the
/// rest as eighteen decimals.
#[verifier::external_body]
fn format_coins(amount: &Wei) -> (text: String)
    ensures
        text@ == coin_text(amount@),
{
    ethers::utils::format_ether(ethers::types::U256(amount.limbs))
}

/// An amount in coins is read back as itself: there is one point with eighteen digits
/// behind it and at least one before it, none of them a needless zero, and without the
/// point the digits spell the amount.
pub proof fn law_coins_read_back(amount: nat)
    ensures
        ({
            let text = coin_text(amount);
            let point = text.len() - 19;
            &&& point >= 1
            &&& text[point] == '.'
            &&& crate::text::all_decimal(text.take(point) + text.skip(point + 1))
            &&& crate::text::number_in(text.take(point) + text.skip(point + 1)) == amount
            &&& text[0] == '0' ==> point == 1 && amount < 1_000_000_000_000_000_000
        }),
{
    let whole = crate::text::decimal_text(amount / COIN as nat);
    let part = crate::text::decimal_text(amount % COIN as nat);
    let rest = crate::text::zero_padded(part, 18);
    let text = coin_text(amount);
    assert(vstd::arithmetic::power::pow(10, 18) == 1_000_000_000_000_000_000) by {
        reveal(vstd::arithmetic::power::pow);
        reveal_with_fuel(vstd::arithmetic::power::pow, 19);
    }
    crate::text::law_decimal_reads_back(amount / COIN as nat);
    crate::text::law_decimal_reads_back(amount % COIN as nat);
    crate::text::lemma_decimal_width(amount % COIN as nat, 18);
    crate::text::lemma_padding_keeps_number(part, 18);
    let point = text.len() - 19;
    assert(text.take(point) =~= whole);
    assert(text.skip(point + 1) =~= rest);
    crate::text::lemma_number_joined(whole, rest);
    vstd::arithmetic::div_mod::lemma_fundamental_div_mod(amount as int, COIN as int);
}

/// A limb is worth 2^64 times the limb below it.
pub proof fn law_limbs_are_worth(amount: Wei)
    ensures
        amount@ == amount.limbs[0] + 0x1_0000_0000_0000_0000 * (amount.limbs[1]
            + 0x1_0000_0000_0000_0000 * (amount.limbs[2] + 0x1_0000_0000_0000_0000
            * amount.limbs[3])),
{
}

} // verus!
