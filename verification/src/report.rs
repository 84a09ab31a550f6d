//! What a whole purchase shows and says, whatever the outside world answers.

use vstd::prelude::*;

use crate::console::Tint;
use crate::order::{OrderView, Source};
use crate::purchase::{EventView, RequestView, SettlementView};

verus! {

/// What a purchase of `order` with `key` shows after `n` of `events`.
pub open spec fn shows(order: OrderView, key: Seq<char>, events: Seq<EventView>, n: int) -> Seq<
    Seq<(Tint, Seq<char>)>,
> {
    crate::run::run(order, key, events).outcomes[n].lines
}

/// What a purchase of `order` with `key` writes to the operator after `n` of `events`.
pub open spec fn writes(order: OrderView, key: Seq<char>, events: Seq<EventView>, n: int) -> Option<
    Seq<char>,
> {
    crate::run::run(order, key, events).outcomes[n].message
}

/// A purchase opens with one line that names its source, its user and its chain.
pub proof fn law_opening_names_the_order(order: OrderView, key: Seq<char>, events: Seq<EventView>)
    requires
        crate::run::answered(order, key, events),
    ensures
        shows(order, key, events, 0) == seq![
            seq![
                (Tint::Yellow, "⚡"@),
                (
                    Tint::Plain,
                    " ["@ + (if order.source == Source::Mempool {
                        "MEMPOOL"@
                    } else {
                        "API"@
                    }) + "] @"@ + order.username + " on "@,
                ),
                (Tint::Cyan, crate::text::upper(order.chain.name)),
                (Tint::Plain, " — firing!"@),
            ],
        ],
{
    crate::run::law_connection_is_to_own_chain(order, key, events, 0);
    crate::run::lemma_prefix(order, key, events, 0);
    assert(events.take(0) =~= Seq::empty());
}

proof fn lemma_failure_texts(message: Seq<char>)
    ensures
        " "@ + "Provider"@ + " error: "@ + message == " Provider error: "@ + message,
        " "@ + "Wallet"@ + " error: "@ + message == " Wallet error: "@ + message,
        " "@ + "Address"@ + " error: "@ + message == " Address error: "@ + message,
        " "@ + "Price"@ + " error: "@ + message == " Price error: "@ + message,
        " "@ + "Balance"@ + " error: "@ + message == " Balance error: "@ + message,
        " "@ + "Send"@ + " error: "@ + message == " Send error: "@ + message,
{
    reveal_strlit(" ");
    reveal_strlit(" error: ");
    reveal_strlit("Provider");
    reveal_strlit("Wallet");
    reveal_strlit("Address");
    reveal_strlit("Price");
    reveal_strlit("Balance");
    reveal_strlit("Send");
    reveal_strlit(" Provider error: ");
    reveal_strlit(" Wallet error: ");
    reveal_strlit(" Address error: ");
    reveal_strlit(" Price error: ");
    reveal_strlit(" Balance error: ");
    reveal_strlit(" Send error: ");
    assert(" "@ + "Provider"@ + " error: "@ =~= " Provider error: "@);
    assert(" "@ + "Wallet"@ + " error: "@ =~= " Wallet error: "@);
    assert(" "@ + "Address"@ + " error: "@ =~= " Address error: "@);
    assert(" "@ + "Price"@ + " error: "@ =~= " Price error: "@);
    assert(" "@ + "Balance"@ + " error: "@ =~= " Balance error: "@);
    assert(" "@ + "Send"@ + " error: "@ =~= " Send error: "@);
}

/// What is wrong after `event`, with the reason: a step of the outside world failed, or
/// else the key cannot be read, or else the wallet.
pub open spec fn failure(order: OrderView, key: Seq<char>, event: EventView) -> Option<Seq<char>> {
    match event {
        EventView::Connected(Err(message)) => Some(" Provider error: "@ + message),
        EventView::Connected(Ok(_)) => if !crate::signer::is_private_key(key) {
            Some(" Wallet error: "@ + crate::signer::key_error(key))
        } else if crate::hexcode::address_of(order.wallet) is None {
            Some(" Address error: "@ + crate::hexcode::address_error(order.wallet))
        } else {
            None
        },
        EventView::Quoted(Err(message)) => Some(" Price error: "@ + message),
        EventView::Funded(Err(message)) => Some(" Balance error: "@ + message),
        EventView::Sent(Err(message)) => Some(" Send error: "@ + message),
        _ => None,
    }
}

/// Whatever fails, one red line says what and why, nothing is written to the operator,
/// and nothing more is asked for.
pub proof fn law_failure_ends_with_its_reason(
    order: OrderView,
    key: Seq<char>,
    events: Seq<EventView>,
    n: int,
)
    requires
        crate::run::answered(order, key, events),
        1 <= n <= events.len(),
        failure(order, key, events[n - 1]) is Some,
    ensures
        n == events.len(),
        shows(order, key, events, n) == seq![
            seq![(Tint::Red, "❌"@), (Tint::Plain, failure(order, key, events[n - 1])->0)],
        ],
        writes(order, key, events, n) is None,
        crate::run::run(order, key, events).outcomes[n].request is None,
{
    crate::run::lemma_step(order, key, events, n);
    match events[n - 1] {
        EventView::Connected(Err(message)) => lemma_failure_texts(message),
        EventView::Connected(Ok(_)) => {
            lemma_failure_texts(crate::signer::key_error(key));
            lemma_failure_texts(crate::hexcode::address_error(order.wallet));
        },
        EventView::Quoted(Err(message)) => lemma_failure_texts(message),
        EventView::Funded(Err(message)) => lemma_failure_texts(message),
        EventView::Sent(Err(message)) => lemma_failure_texts(message),
        _ => {},
    }
    lemma_over(order, key, events, n);
}

/// Once nothing more is asked for, no event follows.
proof fn lemma_over(order: OrderView, key: Seq<char>, events: Seq<EventView>, n: int)
    requires
        crate::run::answered(order, key, events),
        0 <= n <= events.len(),
        crate::run::run(order, key, events).outcomes[n].request is None,
    ensures
        n == events.len(),
{
    if n < events.len() {
        crate::run::lemma_prefix(order, key, events, n);
        crate::run::lemma_step(order, key, events, n + 1);
        crate::run::law_request_until_closed(order, key, events.take(n));
    }
}

/// A quoted price is shown in coins with the chain's symbol.
pub proof fn law_price_is_shown(order: OrderView, key: Seq<char>, events: Seq<EventView>, price: nat)
    requires
        crate::run::answered(order, key, events),
        events.len() >= 3,
        events[2] == EventView::Quoted(Ok(price)),
    ensures
        shows(order, key, events, 3) == seq![
            seq![
                (Tint::Green, "💰"@),
                (
                    Tint::Plain,
                    " Price: "@ + (crate::wei::coin_text(price) + " "@ + order.chain.symbol),
                ),
            ],
        ],
{
    crate::run::lemma_step(order, key, events, 3);
}

/// A balance below the cap is shown, and written to the operator with the price that
/// was quoted; a balance at or above it is passed over in silence.
pub proof fn law_low_balance_is_told(
    order: OrderView,
    key: Seq<char>,
    events: Seq<EventView>,
    price: nat,
    balance: nat,
)
    requires
        crate::run::answered(order, key, events),
        events.len() >= 4,
        events[2] == EventView::Quoted(Ok(price)),
        events[3] == EventView::Funded(Ok(balance)),
    ensures
        balance < crate::slippage::slipped(price) ==> {
            &&& shows(order, key, events, 4) == seq![
                seq![
                    (Tint::Red, "❌"@),
                    (
                        Tint::Plain,
                        " Insufficient balance: "@ + (crate::wei::coin_text(balance) + " "@
                            + order.chain.symbol),
                    ),
                ],
            ]
            &&& writes(order, key, events, 4) == Some(
                "❌ Low balance on "@ + crate::text::upper(order.chain.name) + "!\nNeed: "@ + (
                crate::wei::coin_text(price) + " "@ + order.chain.symbol) + "\nHave: "@ + (
                crate::wei::coin_text(balance) + " "@ + order.chain.symbol),
            )
        },
        balance >= crate::slippage::slipped(price) ==> {
            &&& shows(order, key, events, 4) == Seq::<Seq<(Tint, Seq<char>)>>::empty()
            &&& writes(order, key, events, 4) is None
        },
{
    crate::run::lemma_step(order, key, events, 4);
}

/// A transaction that is out is shown with its link on the order's chain.
pub proof fn law_transaction_is_linked(
    order: OrderView,
    key: Seq<char>,
    events: Seq<EventView>,
    tx_hash: Seq<u8>,
)
    requires
        crate::run::answered(order, key, events),
        events.len() >= 5,
        events[4] == EventView::Sent(Ok(tx_hash)),
    ensures
        shows(order, key, events, 5) == seq![
            seq![
                (Tint::Blue, "📡"@),
                (
                    Tint::Plain,
                    " TX: "@ + (order.chain.explorer + crate::hexcode::prefixed_hex(tx_hash)),
                ),
            ],
        ],
{
    crate::run::lemma_step(order, key, events, 5);
}

/// A mined transaction is told of as a success if and only if its status is one, for
/// every order and source: by the line, and by how the message to the operator begins.
pub proof fn law_status_decides_what_is_told(
    order: OrderView,
    key: Seq<char>,
    events: Seq<EventView>,
    status: Option<u64>,
    elapsed_ms: nat,
    now: Seq<char>,
)
    requires
        crate::run::answered(order, key, events),
        events.len() > 0,
        events.last() == EventView::Settled(SettlementView::Mined { status, elapsed_ms, now }),
    ensures
        ({
            let n = events.len() as int;
            let message = writes(order, key, events, n);
            let sniped = "🎯 <b>Sniped @"@ + order.username;
            let reverted = "❌ <b>Reverted @"@ + order.username;
            &&& n == 6
            &&& message is Some
            &&& sniped.is_prefix_of(message->0) <==> status == Some(1u64)
            &&& reverted.is_prefix_of(message->0) <==> status != Some(1u64)
            &&& shows(order, key, events, n).len() == 1
            &&& shows(order, key, events, n)[0] == seq![
                (
                    if status == Some(1u64) {
                        (Tint::Green, "✅"@)
                    } else {
                        (Tint::Red, "❌"@)
                    }
                ),
                (
                    if status == Some(1u64) {
                        (
                            Tint::Plain,
                            " Sniped @"@ + order.username + " on "@ + crate::text::upper(
                                order.chain.name,
                            ) + "! "@ + crate::text::decimal_text(elapsed_ms) + "ms"@,
                        )
                    } else {
                        (Tint::Plain, " TX reverted for @"@ + order.username)
                    }
                ),
            ]
        }),
{
    let n = events.len() as int;
    crate::run::lemma_step(order, key, events, n);
    let message = writes(order, key, events, n)->0;
    let sniped = "🎯 <b>Sniped @"@ + order.username;
    let reverted = "❌ <b>Reverted @"@ + order.username;
    reveal_strlit("🎯 <b>Sniped @");
    reveal_strlit("❌ <b>Reverted @");
    if status == Some(1u64) {
        assert(message.take(sniped.len() as int) =~= sniped);
        assert(message[0] == '🎯');
        assert(reverted[0] == '❌');
        assert(shows(order, key, events, n)[0] =~= seq![
            (Tint::Green, "✅"@),
            (
                Tint::Plain,
                " Sniped @"@ + order.username + " on "@ + crate::text::upper(order.chain.name)
                    + "! "@ + crate::text::decimal_text(elapsed_ms) + "ms"@,
            ),
        ]);
    } else {
        assert(message.take(reverted.len() as int) =~= reverted);
        assert(message[0] == '❌');
        assert(sniped[0] == '🎯');
        assert(shows(order, key, events, n)[0] =~= seq![
            (Tint::Red, "❌"@),
            (Tint::Plain, " TX reverted for @"@ + order.username),
        ]);
    }
}

/// The message on a success names the user, the chain, the source, the price that was
/// quoted, the time it took and the time it was, and links the transaction that was
/// sent; the message on a failure names the user and the chain, and links it too.
pub proof fn law_closing_message_tells_all(
    order: OrderView,
    key: Seq<char>,
    events: Seq<EventView>,
    price: nat,
    tx_hash: Seq<u8>,
    status: Option<u64>,
    elapsed_ms: nat,
    now: Seq<char>,
)
    requires
        crate::run::answered(order, key, events),
        events.len() == 6,
        events[2] == EventView::Quoted(Ok(price)),
        events[4] == EventView::Sent(Ok(tx_hash)),
        events[5] == EventView::Settled(SettlementView::Mined { status, elapsed_ms, now }),
    ensures
        status == Some(1u64) ==> writes(order, key, events, 6) == Some(
            "🎯 <b>Sniped @"@ + order.username + "!</b>\n\n⛓️ "@ + crate::text::upper(
                order.chain.name,
            ) + "\n📡 Source: "@ + (if order.source == Source::Mempool {
                "MEMPOOL"@
            } else {
                "API"@
            }) + "\n💰 Paid: "@ + (crate::wei::coin_text(price) + " "@ + order.chain.symbol)
                + "\n⚡ "@ + crate::text::decimal_text(elapsed_ms) + "ms\n🕐 "@ + now + "\n🔗 "@ + (
            order.chain.explorer + crate::hexcode::prefixed_hex(tx_hash)),
        ),
        status != Some(1u64) ==> writes(order, key, events, 6) == Some(
            "❌ <b>Reverted @"@ + order.username + "</b>\n⛓️ "@ + crate::text::upper(
                order.chain.name,
            ) + "\n🔗 "@ + (order.chain.explorer + crate::hexcode::prefixed_hex(tx_hash)),
        ),
{
    crate::run::lemma_step(order, key, events, 6);
}

/// A receipt that does not come is shown, and not written to the operator.
pub proof fn law_missing_receipt_is_shown(order: OrderView, key: Seq<char>, events: Seq<EventView>)
    requires
        crate::run::answered(order, key, events),
        events.len() > 0,
        events.last() == EventView::Settled(SettlementView::Missing),
    ensures
        shows(order, key, events, events.len() as int) == seq![
            seq![
                (Tint::Yellow, "⚠️"@),
                (Tint::Plain, " Receipt timeout for @"@ + order.username),
            ],
        ],
        writes(order, key, events, events.len() as int) is None,
{
    crate::run::lemma_step(order, key, events, events.len() as int);
}

/// The operator is written to exactly when a known balance falls short of the cap or a
/// transaction was mined.
pub proof fn law_operator_is_written_to_at_the_end(
    order: OrderView,
    key: Seq<char>,
    events: Seq<EventView>,
    n: int,
)
    requires
        crate::run::answered(order, key, events),
        0 <= n <= events.len(),
    ensures
        writes(order, key, events, n) is Some <==> {
            ||| {
                &&& n == 4
                &&& events[2] matches EventView::Quoted(Ok(price))
                &&& events[3] matches EventView::Funded(Ok(balance))
                &&& balance < crate::slippage::slipped(price)
            }
            ||| n == 6 && (events[5] matches EventView::Settled(SettlementView::Mined { .. }))
        },
{
    if n == 0 {
        crate::run::lemma_prefix(order, key, events, 0);
        assert(events.take(0) =~= Seq::empty());
    } else {
        crate::run::lemma_step(order, key, events, n);
    }
}

/// At every step at most one line is shown, and none exactly where a signer, a price or
/// a transaction is asked for.
pub proof fn law_quiet_steps(order: OrderView, key: Seq<char>, events: Seq<EventView>, n: int)
    requires
        crate::run::answered(order, key, events),
        0 <= n <= events.len(),
    ensures
        shows(order, key, events, n).len() <= 1,
        shows(order, key, events, n).len() == 0 <==> match crate::run::run(
            order,
            key,
            events,
        ).outcomes[n].request {
            Some(RequestView::Prepare { .. }) => true,
            Some(RequestView::Quote { .. }) => true,
            Some(RequestView::Send { .. }) => true,
            _ => false,
        },
{
    if n == 0 {
        crate::run::lemma_prefix(order, key, events, 0);
        assert(events.take(0) =~= Seq::empty());
    } else {
        crate::run::lemma_step(order, key, events, n);
    }
}

} // verus!
