//! Purchases of others seen before they are mined.

use vstd::prelude::*;
use vstd::slice::slice_subrange;
use vstd::string::*;

use crate::chain::{Chain, ChainView};
use crate::console::{Line, Tint};
use crate::hexcode::{encode, show_address};
use crate::order::{Fired, Order, OrderView, Source};
use crate::text::{lowercase, uppercase};

verus! {

/// The selector of `buyShares(address,address,uint256)`, in hexadecimal.
pub const BUY_SELECTOR: &'static str = "dd06f6bd";

/// The bytes of a call's selector and of its first argument.
pub const HEAD_LEN: usize = 36;

/// The selector of `buyShares(address,address,uint256)`.
pub open spec fn buy_selector() -> Seq<u8> {
    seq![0xddu8, 0x06u8, 0xf6u8, 0xbdu8]
}

/// The text of a transaction's target; empty for one that creates a contract.
pub open spec fn target_text(to: Option<Seq<u8>>) -> Seq<char> {
    match to {
        Some(target) => crate::hexcode::prefixed_hex(target),
        None => Seq::empty(),
    }
}

/// The share subject that a transaction buys, where it is a purchase at the chain's
/// contract: the last twenty bytes of the first argument.
pub open spec fn bought_subject(chain: ChainView, to: Option<Seq<u8>>, input: Seq<u8>) -> Option<
    Seq<u8>,
> {
    if target_text(to) == crate::text::lower(chain.contract) && input.len() >= HEAD_LEN
        && input.take(4) == buy_selector() {
        Some(input.subrange(16, 36))
    } else {
        None
    }
}

/// The order to buy `subject` too.
pub open spec fn follow_up(chain: ChainView, subject: Seq<u8>) -> OrderView {
    let wallet = crate::hexcode::prefixed_hex(subject);
    OrderView { username: wallet.take(10), wallet, chain, source: Source::Mempool }
}

/// The line that reports `subject`.
pub open spec fn sighting_line(chain: ChainView, subject: Seq<u8>) -> Seq<(Tint, Seq<char>)> {
    crate::console::signed(
        Tint::Yellow,
        "🔭"@,
        " ["@ + crate::text::upper(chain.name) + "] Mempool: "@ + crate::hexcode::prefixed_hex(
            subject,
        ).take(12),
    )
}

/// A purchase that was seen: the line to show, and the order that it leads to.
pub struct Sighting {
    pub line: Line,
    pub order: Order,
}

/// The bytes of an address that may be missing.
pub open spec fn target_bytes(to: Option<[u8; 20]>) -> Option<Seq<u8>> {
    match to {
        Some(target) => Some(target@),
        None => None,
    }
}

proof fn lemma_selector(bytes: Seq<u8>)
    requires
        bytes.len() >= 4,
    ensures
        crate::hexcode::hex_text(bytes).take(8) == BUY_SELECTOR@ <==> bytes.take(4)
            == buy_selector(),
{
    reveal_strlit("dd06f6bd");
    let whole = crate::hexcode::hex_text(bytes);
    let text = whole.take(8);
    crate::hexcode::lemma_hex_text_shape(bytes);
    crate::hexcode::lemma_hex_at(bytes, 0);
    crate::hexcode::lemma_hex_at(bytes, 1);
    crate::hexcode::lemma_hex_at(bytes, 2);
    crate::hexcode::lemma_hex_at(bytes, 3);
    if text == BUY_SELECTOR@ {
        assert(whole[0] == text[0] && whole[1] == text[1] && whole[2] == text[2] && whole[3]
            == text[3]);
        assert(whole[4] == text[4] && whole[5] == text[5] && whole[6] == text[6] && whole[7]
            == text[7]);
        assert(bytes.take(4) =~= buy_selector());
    }
    if bytes.take(4) == buy_selector() {
        assert(bytes[0] == bytes.take(4)[0] && bytes[1] == bytes.take(4)[1] && bytes[2]
            == bytes.take(4)[2] && bytes[3] == bytes.take(4)[3]);
        assert(text =~= BUY_SELECTOR@);
    }
}

/// On a chain whose contract is written as a plain address, in any case, a
/// transaction is followed exactly when it goes to that address and starts with the
/// purchase selector and a whole first argument.
pub proof fn law_sighting_compares_addresses(
    chain: ChainView,
    to: Option<Seq<u8>>,
    input: Seq<u8>,
)
    requires
        crate::hexcode::is_plain_address(chain.contract),
        to is Some ==> to->0.len() == crate::hexcode::ADDRESS_LEN,
    ensures
        bought_subject(chain, to, input) is Some <==> (to is Some && crate::hexcode::address_of(
            chain.contract,
        ) == to && input.len() >= HEAD_LEN && input.take(4) == buy_selector()),
{
    match to {
        Some(target) => {
            crate::hexcode::law_lower_text_compares_bytes(chain.contract, target);
        },
        None => {
            crate::hexcode::lemma_plain_address_lower_len(chain.contract);
        },
    }
}

/// The wallet of a followed purchase is the very address that the purchase names: an
/// order from the mempool always has an address to buy.
pub proof fn law_followed_wallet_is_subject(chain: ChainView, to: Option<Seq<u8>>, input: Seq<u8>)
    requires
        bought_subject(chain, to, input) is Some,
    ensures
        ({
            let subject = bought_subject(chain, to, input)->0;
            &&& subject == input.subrange(16, 36)
            &&& crate::hexcode::address_of(follow_up(chain, subject).wallet) == Some(subject)
        }),
{
    crate::hexcode::law_address_round_trip(input.subrange(16, 36));
}

/// A call laid out as selector, padded subject and further arguments is followed with
/// that subject.
pub proof fn law_call_layout(
    chain: ChainView,
    target: Seq<u8>,
    padding: Seq<u8>,
    subject: Seq<u8>,
    rest: Seq<u8>,
)
    requires
        crate::hexcode::prefixed_hex(target) == crate::text::lower(chain.contract),
        padding.len() == 12,
        subject.len() == crate::hexcode::ADDRESS_LEN,
    ensures
        bought_subject(chain, Some(target), buy_selector() + padding + subject + rest) == Some(
            subject,
        ),
{
    let input = buy_selector() + padding + subject + rest;
    assert(input.take(4) =~= buy_selector());
    assert(input.subrange(16, 36) =~= subject);
}

/// Looks at a pending transaction: if it buys shares at the chain's contract, its
/// subject is to be bought too.
pub fn sight(chain: &Chain, to: Option<[u8; 20]>, input: &[u8]) -> (seen: Option<Sighting>)
    ensures
        match bought_subject(chain@, target_bytes(to), input@) {
            Some(subject) => {
                &&& seen is Some
                &&& seen->0.order@ == follow_up(chain@, subject)
                &&& seen->0.line@ == sighting_line(chain@, subject)
            },
            None => seen is None,
        },
{
    let text = match to {
        Some(target) => {
            proof {
                crate::hexcode::law_address_text_is_lower(target@);
            }
            lowercase(show_address(&target).as_str())
        },
        None => String::new(),
    };
    let contract = lowercase(chain.contract);
    assert(text@ == target_text(target_bytes(to)));
    if !(text == contract) || input.len() < HEAD_LEN {
        return None;
    }
    let head = encode(slice_subrange(input, 0, HEAD_LEN));
    let ghost bytes = input@.subrange(0, 36);
    proof {
        crate::hexcode::lemma_hex_text_shape(bytes);
        lemma_selector(bytes);
        assert(bytes.take(4) =~= input@.take(4));
    }
    let selector = String::from_str(head.as_str().substring_ascii(0, 8));
    assert(head@.subrange(0, 8) =~= head@.take(8));
    if !(selector == String::from_str(BUY_SELECTOR)) {
        return None;
    }
    let ghost subject = input@.subrange(16, 36);
    proof {
        crate::hexcode::lemma_hex_text_shape(subject);
        crate::hexcode::lemma_hex_stretch(bytes, 16, 36);
        assert(bytes.subrange(16, 36) =~= subject);
        reveal_strlit("0x");
        assert("0x"@ =~= seq!['0', 'x']);
    }
    let mut wallet = String::from_str("0x");
    wallet.append(head.as_str().substring_ascii(32, 72));
    assert(wallet@ == crate::hexcode::prefixed_hex(subject));

    let mut report = String::from_str(" [");
    report.append(uppercase(chain.name).as_str());
    report.append("] Mempool: ");
    report.append(wallet.as_str().substring_ascii(0, 12));
    let username = String::from_str(wallet.as_str().substring_ascii(0, 10));
    proof {
        assert(wallet@.subrange(0, 12) =~= wallet@.take(12));
        assert(wallet@.subrange(0, 10) =~= wallet@.take(10));
    }
    let line = Line::signed(Tint::Yellow, "🔭", report);
    Some(Sighting { line, order: Order { username, wallet, chain: *chain, source: Source::Mempool } })
}

/// Takes a sighting up: its order is to be carried out where its wallet was not taken
/// on yet, and the wallet is taken on from now.
pub fn follow(fired: &mut Fired, seen: Sighting) -> (order: Option<Order>)
    ensures
        order is Some <==> !old(fired)@.contains(crate::text::lower(seen.order.wallet@)),
        order is Some ==> order->0 == seen.order,
        final(fired)@ == old(fired)@.insert(crate::text::lower(seen.order.wallet@)),
        ({
            let taken = crate::order::taken_up(old(fired)@, seen.order@);
            &&& final(fired)@ == taken.0
            &&& match order {
                Some(order) => taken.1 == Some(order@),
                None => taken.1 is None,
            }
        }),
{
    if fired.claim(seen.order.wallet.as_str()) {
        Some(seen.order)
    } else {
        None
    }
}

/// A transaction is followed exactly when its target is written as the chain's contract
/// is in lower case, or there is no target and no contract, and its input starts with
/// the bytes `dd 06 f6 bd` and holds a whole first argument. What is followed are the
/// last twenty bytes of that argument.
pub proof fn law_subject_is_read_from_the_call(
    chain: ChainView,
    to: Option<Seq<u8>>,
    input: Seq<u8>,
)
    ensures
        bought_subject(chain, to, input) is Some <==> {
            &&& match to {
                Some(target) => crate::hexcode::prefixed_hex(target) == crate::text::lower(
                    chain.contract,
                ),
                None => crate::text::lower(chain.contract).len() == 0,
            }
            &&& input.len() >= 4 + 32
            &&& input[0] == 0xdd
            &&& input[1] == 0x06
            &&& input[2] == 0xf6
            &&& input[3] == 0xbd
        },
        bought_subject(chain, to, input) matches Some(subject) ==> {
            &&& subject.len() == 20
            &&& forall|i: int| 0 <= i < 20 ==> #[trigger] subject[i] == input[4 + 12 + i]
        },
{
    if to is None && crate::text::lower(chain.contract).len() == 0 {
        assert(target_text(to) =~= crate::text::lower(chain.contract));
    }
    if input.len() >= HEAD_LEN {
        let head = input.take(4);
        assert(head[0] == input[0] && head[1] == input[1] && head[2] == input[2] && head[3]
            == input[3]);
        assert(head == buy_selector() <==> head =~= buy_selector());
    }
}

/// The order that follows a purchase is on the very chain that was watched, for the
/// wallet that was bought, written in lower case behind `0x`, and goes by the first ten
/// characters of it.
pub proof fn law_order_is_on_the_watched_chain(chain: ChainView, subject: Seq<u8>)
    requires
        subject.len() == crate::hexcode::ADDRESS_LEN,
    ensures
        follow_up(chain, subject).chain == chain,
        follow_up(chain, subject).source == Source::Mempool,
        crate::hexcode::address_of(follow_up(chain, subject).wallet) == Some(subject),
        crate::hexcode::is_plain_address(follow_up(chain, subject).wallet),
        crate::text::lower(follow_up(chain, subject).wallet) == follow_up(chain, subject).wallet,
        follow_up(chain, subject).username.len() == 10,
        follow_up(chain, subject).username.is_prefix_of(follow_up(chain, subject).wallet),
{
    crate::hexcode::law_address_round_trip(subject);
    crate::hexcode::lemma_hex_text_shape(subject);
}

/// The line on a sighting names the watched chain and the first twelve characters of
/// the wallet that is then ordered.
pub proof fn law_sighting_is_shown(chain: ChainView, subject: Seq<u8>)
    ensures
        sighting_line(chain, subject) == seq![
            (Tint::Yellow, "🔭"@),
            (
                Tint::Plain,
                " ["@ + crate::text::upper(chain.name) + "] Mempool: "@ + follow_up(
                    chain,
                    subject,
                ).wallet.take(12),
            ),
        ],
{
}

} // verus!
