//! What holds of a whole purchase, whatever the outside world answers.

use vstd::prelude::*;

use crate::order::OrderView;
use crate::purchase::{EventView, OutcomeView, RequestView, StageView};

verus! {

/// A purchase after some events: where it stands, and everything it did, the opening
/// first.
pub struct Run {
    pub stage: StageView,
    pub outcomes: Seq<OutcomeView>,
}

/// The purchase of `order` with `key` after `events`.
pub open spec fn run(order: OrderView, key: Seq<char>, events: Seq<EventView>) -> Run
    decreases events.len(),
{
    if events.len() == 0 {
        Run { stage: StageView::Connecting, outcomes: seq![crate::purchase::opening(order)] }
    } else {
        let before = run(order, key, events.drop_last());
        let (stage, outcome) = crate::purchase::next(order, key, before.stage, events.last());
        Run { stage, outcomes: before.outcomes.push(outcome) }
    }
}

/// Whether every event answers the request before it.
pub open spec fn answered(order: OrderView, key: Seq<char>, events: Seq<EventView>) -> bool
    decreases events.len(),
{
    events.len() > 0 ==> {
        &&& answered(order, key, events.drop_last())
        &&& crate::purchase::answers(run(order, key, events.drop_last()).stage, events.last())
    }
}

/// What the stage tells about the events so far.
pub open spec fn explains(order: OrderView, key: Seq<char>, events: Seq<EventView>, stage: StageView) -> bool {
    let read = crate::signer::is_private_key(key) && crate::hexcode::address_of(order.wallet) is Some;
    match stage {
        StageView::Connecting => events.len() == 0,
        StageView::Preparing { subject } => {
            &&& events.len() == 1
            &&& read && crate::hexcode::address_of(order.wallet) == Some(subject)
        },
        StageView::Quoting { subject, holder } => {
            &&& events.len() == 2
            &&& read && crate::hexcode::address_of(order.wallet) == Some(subject)
            &&& events[1] == EventView::Prepared(holder)
        },
        StageView::Funding { subject, holder, price } => {
            &&& events.len() == 3
            &&& read && crate::hexcode::address_of(order.wallet) == Some(subject)
            &&& events[1] == EventView::Prepared(holder)
            &&& events[2] == EventView::Quoted(Ok(price))
            &&& price <= u128::MAX
        },
        StageView::Sending { price } => {
            &&& events.len() == 4
            &&& events[2] == EventView::Quoted(Ok(price))
        },
        StageView::Settling { price, tx_hash } => {
            &&& events.len() == 5
            &&& events[2] == EventView::Quoted(Ok(price))
            &&& events[4] == EventView::Sent(Ok(tx_hash))
        },
        StageView::Closed => 1 <= events.len() <= 6,
    }
}

proof fn lemma_run(order: OrderView, key: Seq<char>, events: Seq<EventView>)
    requires
        answered(order, key, events),
    ensures
        explains(order, key, events, run(order, key, events).stage),
        run(order, key, events).outcomes.len() == events.len() + 1,
    decreases events.len(),
{
    if events.len() > 0 {
        let before = events.drop_last();
        lemma_run(order, key, before);
        assert forall|i: int| 0 <= i < before.len() implies before[i] == events[i] by {}
    }
}

/// What was done at some point is what the events up to there led to.
pub proof fn lemma_prefix(order: OrderView, key: Seq<char>, events: Seq<EventView>, n: int)
    requires
        answered(order, key, events),
        0 <= n <= events.len(),
    ensures
        answered(order, key, events.take(n)),
        run(order, key, events).outcomes.len() == events.len() + 1,
        run(order, key, events.take(n)).outcomes.len() == n + 1,
        run(order, key, events).outcomes[n] == run(order, key, events.take(n)).outcomes[n],
    decreases events.len(),
{
    lemma_run(order, key, events);
    if n == events.len() {
        assert(events.take(n) =~= events);
    } else {
        let before = events.drop_last();
        lemma_prefix(order, key, before, n);
        assert(before.take(n) =~= events.take(n));
        lemma_run(order, key, before);
    }
}

/// A purchase is over after at most six answers.
pub proof fn law_purchase_ends(order: OrderView, key: Seq<char>, events: Seq<EventView>)
    requires
        answered(order, key, events),
    ensures
        events.len() <= 6,
        events.len() == 6 ==> run(order, key, events).stage == StageView::Closed,
{
    lemma_run(order, key, events);
}

/// A purchase asks for something if and only if it is not over.
pub proof fn law_request_until_closed(order: OrderView, key: Seq<char>, events: Seq<EventView>)
    requires
        answered(order, key, events),
    ensures
        run(order, key, events).outcomes.last().request is None <==> run(order, key, events).stage
            == StageView::Closed,
{
    lemma_run(order, key, events);
    if events.len() > 0 {
        lemma_run(order, key, events.drop_last());
    }
}

/// A message to the operator goes out at most once, and only as the last thing that a
/// purchase does.
pub proof fn law_message_comes_last(order: OrderView, key: Seq<char>, events: Seq<EventView>, n: int)
    requires
        answered(order, key, events),
        0 <= n <= events.len(),
        run(order, key, events).outcomes[n].message is Some,
    ensures
        n == events.len(),
        run(order, key, events).stage == StageView::Closed,
{
    lemma_prefix(order, key, events, n);
    let sofar = events.take(n);
    lemma_run(order, key, sofar);
    assert(run(order, key, sofar).stage == StageView::Closed);
    if n < events.len() {
        lemma_prefix(order, key, events, n + 1);
        assert(events.take(n + 1).drop_last() =~= sofar);
        assert(answered(order, key, events.take(n + 1)));
    } else {
        assert(sofar =~= events);
    }
}

/// A transaction goes out only for a readable key and wallet, after a quote and a
/// balance: it buys the ordered wallet's shares for the address that pays, at the
/// chain's contract, and its value is the cap on the quoted price, which is not below
/// the quote and not above the balance.
pub proof fn law_transaction_is_backed(
    order: OrderView,
    key: Seq<char>,
    events: Seq<EventView>,
    n: int,
)
    requires
        answered(order, key, events),
        0 <= n <= events.len(),
        run(order, key, events).outcomes[n].request is Some,
        run(order, key, events).outcomes[n].request->0 is Send,
    ensures
        ({
            let request = run(order, key, events).outcomes[n].request->0;
            &&& n == 4
            &&& crate::signer::is_private_key(key)
            &&& crate::hexcode::address_of(order.wallet) == Some(request->Send_subject)
            &&& request->Send_contract == crate::hexcode::address_of(order.chain.contract)->0
            &&& events[1] == EventView::Prepared(request->Send_holder)
            &&& request->Send_amount == 100
            &&& request->gas == 250_000
            &&& events[2] matches EventView::Quoted(Ok(price))
            &&& events[3] matches EventView::Funded(Ok(balance))
            &&& request->value == crate::slippage::slipped(price)
            &&& price <= request->value <= balance
        }),
{
    lemma_prefix(order, key, events, n);
    let sofar = events.take(n);
    assert(n > 0);
    let before = sofar.drop_last();
    lemma_run(order, key, before);
    assert forall|i: int| 0 <= i < before.len() implies before[i] == events[i] by {}
    let stage = run(order, key, before).stage;
    assert(stage is Funding);
    let price = stage->Funding_price;
    let balance = sofar.last()->Funded_0->Ok_0;
    crate::slippage::law_cap_covers_quote(price);
    assert(events[2] == EventView::Quoted(Ok(price)));
    assert(events[3] == EventView::Funded(Ok(balance)));
}

/// The address that a purchase was prepared with pays and gets the shares: no other
/// balance is asked for, and no transaction buys for another address.
pub proof fn law_prepared_address_pays(
    order: OrderView,
    key: Seq<char>,
    events: Seq<EventView>,
    n: int,
)
    requires
        answered(order, key, events),
        0 <= n <= events.len(),
    ensures
        run(order, key, events).outcomes[n].request matches Some(RequestView::Balance { holder })
            ==> n == 3 && events[1] == EventView::Prepared(holder),
        run(order, key, events).outcomes[n].request matches Some(RequestView::Send { holder, .. })
            ==> n == 4 && events[1] == EventView::Prepared(holder),
{
    lemma_prefix(order, key, events, n);
    if run(order, key, events).outcomes[n].request matches Some(RequestView::Send { .. }) {
        law_transaction_is_backed(order, key, events, n);
    }
    if n > 0 {
        let sofar = events.take(n);
        let before = sofar.drop_last();
        lemma_run(order, key, before);
        assert forall|i: int| 0 <= i < before.len() implies before[i] == events[i] by {}
    }
}

/// Where everything goes well and the balance covers the cap, the transaction goes
/// out.
pub proof fn law_backed_purchase_is_sent(
    order: OrderView,
    key: Seq<char>,
    holder: Seq<u8>,
    price: nat,
    balance: nat,
)
    requires
        crate::signer::is_private_key(key),
        crate::hexcode::address_of(order.wallet) is Some,
        price <= u128::MAX,
        balance >= crate::slippage::slipped(price),
    ensures
        ({
            let events = seq![
                EventView::Connected(Ok(())),
                EventView::Prepared(holder),
                EventView::Quoted(Ok(price)),
                EventView::Funded(Ok(balance)),
            ];
            &&& answered(order, key, events)
            &&& run(order, key, events).stage == (StageView::Sending { price })
            &&& run(order, key, events).outcomes.last().request == Some(
                RequestView::Send {
                    contract: crate::hexcode::address_of(order.chain.contract)->0,
                    subject: crate::hexcode::address_of(order.wallet)->0,
                    holder,
                    amount: 100,
                    value: crate::slippage::slipped(price),
                    gas: 250_000,
                },
            )
        }),
{
    let none: Seq<EventView> = Seq::empty();
    let one = none.push(EventView::Connected(Ok(())));
    let two = one.push(EventView::Prepared(holder));
    let three = two.push(EventView::Quoted(Ok(price)));
    let four = three.push(EventView::Funded(Ok(balance)));
    assert(one.drop_last() =~= none);
    assert(two.drop_last() =~= one);
    assert(three.drop_last() =~= two);
    assert(four.drop_last() =~= three);
    let subject = crate::hexcode::address_of(order.wallet)->0;
    assert(answered(order, key, none));
    assert(answered(order, key, one));
    assert(run(order, key, one).stage == StageView::Preparing { subject });
    assert(answered(order, key, two));
    assert(run(order, key, two).stage == StageView::Quoting { subject, holder });
    assert(answered(order, key, three));
    assert(run(order, key, three).stage == StageView::Funding { subject, holder, price });
    assert(answered(order, key, four));
    assert(seq![
        EventView::Connected(Ok(())),
        EventView::Prepared(holder),
        EventView::Quoted(Ok(price)),
        EventView::Funded(Ok(balance)),
    ] =~= four);
}

/// An order that follows a spotted purchase always names an address: with a readable
/// key its purchase goes on to the very subject that was spotted.
pub proof fn law_followed_order_has_subject(
    chain: crate::chain::ChainView,
    key: Seq<char>,
    subject: Seq<u8>,
)
    requires
        crate::signer::is_private_key(key),
        subject.len() == crate::hexcode::ADDRESS_LEN,
    ensures
        run(
            crate::mempool::follow_up(chain, subject),
            key,
            seq![EventView::Connected(Ok(()))],
        ).stage == (StageView::Preparing { subject }),
{
    crate::hexcode::law_address_round_trip(subject);
    let order = crate::mempool::follow_up(chain, subject);
    let events = seq![EventView::Connected(Ok(()))];
    assert(events.drop_last() =~= Seq::empty());
    assert(run(order, key, Seq::empty()).stage == StageView::Connecting);
}

/// At most one transaction goes out.
pub proof fn law_single_transaction(
    order: OrderView,
    key: Seq<char>,
    events: Seq<EventView>,
    m: int,
    n: int,
)
    requires
        answered(order, key, events),
        0 <= m <= events.len(),
        0 <= n <= events.len(),
        run(order, key, events).outcomes[m].request matches Some(RequestView::Send { .. }),
        run(order, key, events).outcomes[n].request matches Some(RequestView::Send { .. }),
    ensures
        m == n,
{
    law_transaction_is_backed(order, key, events, m);
    law_transaction_is_backed(order, key, events, n);
}

/// What was done on the event at `n - 1` is what the purchase does where the events
/// before it had led.
pub proof fn lemma_step(order: OrderView, key: Seq<char>, events: Seq<EventView>, n: int)
    requires
        answered(order, key, events),
        1 <= n <= events.len(),
    ensures
        ({
            let stage = run(order, key, events.take(n - 1)).stage;
            &&& explains(order, key, events.take(n - 1), stage)
            &&& crate::purchase::answers(stage, events[n - 1])
            &&& run(order, key, events).outcomes.len() == events.len() + 1
            &&& run(order, key, events).outcomes[n] == crate::purchase::next(
                order,
                key,
                stage,
                events[n - 1],
            ).1
        }),
        forall|i: int| 0 <= i < n - 1 ==> #[trigger] events.take(n - 1)[i] == events[i],
{
    lemma_prefix(order, key, events, n);
    let sofar = events.take(n);
    assert(sofar.drop_last() =~= events.take(n - 1));
    lemma_run(order, key, events.take(n - 1));
}

/// A purchase first connects to its own chain, at the address for requests, and never
/// connects to anything else.
pub proof fn law_connection_is_to_own_chain(
    order: OrderView,
    key: Seq<char>,
    events: Seq<EventView>,
    n: int,
)
    requires
        answered(order, key, events),
        0 <= n <= events.len(),
    ensures
        n == 0 <==> run(order, key, events).outcomes[n].request is Some
            && run(order, key, events).outcomes[n].request->0 is Connect,
        run(order, key, events).outcomes[n].request matches Some(RequestView::Connect { url })
            ==> url == order.chain.http,
{
    if n == 0 {
        lemma_prefix(order, key, events, 0);
        assert(events.take(0) =~= Seq::empty());
    } else {
        lemma_step(order, key, events, n);
    }
}

/// A signer is asked for exactly once the chain is connected, for a readable key and
/// wallet, and it is for the chain of the order.
pub proof fn law_signer_is_for_own_chain(
    order: OrderView,
    key: Seq<char>,
    events: Seq<EventView>,
    n: int,
)
    requires
        answered(order, key, events),
        0 <= n <= events.len(),
    ensures
        run(order, key, events).outcomes[n].request matches Some(RequestView::Prepare { chain_id })
            ==> chain_id == order.chain.chain_id,
        run(order, key, events).outcomes[n].request is Some && run(
            order,
            key,
            events,
        ).outcomes[n].request->0 is Prepare <==> {
            &&& n == 1
            &&& events[0] == EventView::Connected(Ok(()))
            &&& crate::signer::is_private_key(key)
            &&& crate::hexcode::address_of(order.wallet) is Some
        },
{
    if n == 0 {
        law_connection_is_to_own_chain(order, key, events, n);
    } else {
        lemma_step(order, key, events, n);
        if let EventView::Connected(Ok(unit)) = events[n - 1] {
            assert(unit == ());
        }
    }
}

/// Orders on chains with different ids never ask for the same signer.
pub proof fn law_chains_have_their_own_signers(
    order: OrderView,
    key: Seq<char>,
    events: Seq<EventView>,
    n: int,
    other: OrderView,
    other_key: Seq<char>,
    other_events: Seq<EventView>,
    m: int,
)
    requires
        answered(order, key, events),
        answered(other, other_key, other_events),
        0 <= n <= events.len(),
        0 <= m <= other_events.len(),
        order.chain.chain_id != other.chain.chain_id,
        run(order, key, events).outcomes[n].request matches Some(RequestView::Prepare { .. }),
    ensures
        run(other, other_key, other_events).outcomes[m].request != run(
            order,
            key,
            events,
        ).outcomes[n].request,
{
    law_signer_is_for_own_chain(order, key, events, n);
    law_signer_is_for_own_chain(other, other_key, other_events, m);
}

/// A price is asked for once it is known who pays, whatever the order's source: at the
/// contract of the order's chain, for the shares of the order's wallet, one hundred of
/// them.
pub proof fn law_quote_is_for_the_order(
    order: OrderView,
    key: Seq<char>,
    events: Seq<EventView>,
    n: int,
)
    requires
        answered(order, key, events),
        0 <= n <= events.len(),
        order.chain.valid(),
    ensures
        n == 2 <==> run(order, key, events).outcomes[n].request is Some
            && run(order, key, events).outcomes[n].request->0 is Quote,
        run(order, key, events).outcomes[n].request matches Some(
            RequestView::Quote { contract, subject, amount },
        ) ==> {
            &&& crate::hexcode::address_of(order.chain.contract) == Some(contract)
            &&& crate::hexcode::address_of(order.wallet) == Some(subject)
            &&& amount == 100
        },
{
    if n == 0 {
        law_connection_is_to_own_chain(order, key, events, n);
    } else {
        lemma_step(order, key, events, n);
    }
}

/// What is bought is what was quoted: the transaction names the contract, the subject
/// and the number of shares that the price was asked for, and its value is worked out
/// from the answer to that very request.
pub proof fn law_bought_is_what_was_quoted(
    order: OrderView,
    key: Seq<char>,
    events: Seq<EventView>,
    n: int,
)
    requires
        answered(order, key, events),
        0 <= n <= events.len(),
        run(order, key, events).outcomes[n].request matches Some(RequestView::Send { .. }),
    ensures
        ({
            let send = run(order, key, events).outcomes[n].request->0;
            let quote = run(order, key, events).outcomes[2].request;
            &&& n == 4
            &&& quote == Some(
                RequestView::Quote {
                    contract: send->Send_contract,
                    subject: send->Send_subject,
                    amount: send->Send_amount,
                },
            )
            &&& events[2] matches EventView::Quoted(Ok(price))
            &&& send->value == crate::slippage::slipped(price)
        }),
{
    law_transaction_is_backed(order, key, events, n);
    lemma_step(order, key, events, 2);
}

/// A balance is asked for exactly when there is a price, and it is that of the address
/// that pays.
pub proof fn law_balance_is_asked_for_once_quoted(
    order: OrderView,
    key: Seq<char>,
    events: Seq<EventView>,
    n: int,
)
    requires
        answered(order, key, events),
        0 <= n <= events.len(),
    ensures
        run(order, key, events).outcomes[n].request is Some && run(
            order,
            key,
            events,
        ).outcomes[n].request->0 is Balance <==> n == 3 && events[2] matches EventView::Quoted(
            Ok(_),
        ),
        run(order, key, events).outcomes[n].request matches Some(RequestView::Balance { holder })
            ==> events[1] == EventView::Prepared(holder),
{
    if n == 0 {
        law_connection_is_to_own_chain(order, key, events, n);
    } else {
        lemma_step(order, key, events, n);
    }
}

/// A transaction goes out exactly when the balance is known and covers the cap on the
/// quoted price; it is addressed to the contract of the order's chain.
pub proof fn law_transaction_goes_out_when_covered(
    order: OrderView,
    key: Seq<char>,
    events: Seq<EventView>,
    n: int,
)
    requires
        answered(order, key, events),
        0 <= n <= events.len(),
        order.chain.valid(),
    ensures
        run(order, key, events).outcomes[n].request is Some && run(
            order,
            key,
            events,
        ).outcomes[n].request->0 is Send <==> {
            &&& n == 4
            &&& events[2] matches EventView::Quoted(Ok(price))
            &&& events[3] matches EventView::Funded(Ok(balance))
            &&& balance >= crate::slippage::slipped(price)
        },
        run(order, key, events).outcomes[n].request matches Some(
            RequestView::Send { contract, subject, holder, amount, value, gas },
        ) ==> {
            &&& crate::hexcode::address_of(order.chain.contract) == Some(contract)
            &&& crate::hexcode::address_of(order.wallet) == Some(subject)
            &&& events[1] == EventView::Prepared(holder)
            &&& amount == 100
            &&& events[2] matches EventView::Quoted(Ok(price))
            &&& value == crate::slippage::slipped(price)
            &&& gas == 250_000
        },
{
    if n == 0 {
        law_connection_is_to_own_chain(order, key, events, n);
    } else {
        lemma_step(order, key, events, n);
    }
}

/// A receipt is waited for exactly when the transaction is out.
pub proof fn law_receipt_is_waited_for_once_sent(
    order: OrderView,
    key: Seq<char>,
    events: Seq<EventView>,
    n: int,
)
    requires
        answered(order, key, events),
        0 <= n <= events.len(),
    ensures
        run(order, key, events).outcomes[n].request == Some(RequestView::Settle) <==> n == 5
            && events[4] matches EventView::Sent(Ok(_)),
{
    if n == 0 {
        law_connection_is_to_own_chain(order, key, events, n);
    } else {
        lemma_step(order, key, events, n);
    }
}

/// A purchase that has not ended takes every answer to what it asks for: any failure,
/// any address, any balance, any hash, any end of the wait, and any price of up to 128
/// bits.
pub proof fn law_every_answer_is_taken(
    order: OrderView,
    key: Seq<char>,
    events: Seq<EventView>,
    event: EventView,
)
    requires
        answered(order, key, events),
        ({
            let request = run(order, key, events).outcomes.last().request;
            ||| request matches Some(RequestView::Connect { .. }) && event is Connected
            ||| request matches Some(RequestView::Prepare { .. }) && event is Prepared
            ||| request matches Some(RequestView::Quote { .. }) && event matches EventView::Quoted(
                Ok(price),
            ) && price <= 0xffff_ffff_ffff_ffff_ffff_ffff_ffff_ffff
            ||| request matches Some(RequestView::Quote { .. }) && event matches EventView::Quoted(
                Err(_),
            )
            ||| request matches Some(RequestView::Balance { .. }) && event is Funded
            ||| request matches Some(RequestView::Send { .. }) && event is Sent
            ||| request == Some(RequestView::Settle) && event is Settled
        }),
    ensures
        answered(order, key, events.push(event)),
{
    assert(events.push(event).drop_last() =~= events);
    lemma_run(order, key, events);
    if events.len() > 0 {
        lemma_step(order, key, events, events.len() as int);
        assert(events.take(events.len() - 1) =~= events.drop_last());
    }
}

} // verus!
