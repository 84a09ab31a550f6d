//! A view shows every part of its value as it is: nothing is left out, mixed up or
//! taken for something else.

use vstd::prelude::*;

use crate::chain::Chain;
use crate::console::Line;
use crate::order::Order;
use crate::poller::User;
use crate::purchase::{
    Event, EventView, Outcome, Request, RequestView, Settlement, SettlementView, Stage, StageView,
};
use crate::watcher::{WatchEvent, WatchEventView, WatchRequest, WatchRequestView};

verus! {

/// A chain is seen with all of its settings.
pub proof fn law_chain_is_seen(chain: Chain)
    ensures
        chain@.name == chain.name@,
        chain@.http == chain.http@,
        chain@.ws == chain.ws@,
        chain@.contract == chain.contract@,
        chain@.chain_id == chain.chain_id,
        chain@.symbol == chain.symbol@,
        chain@.explorer == chain.explorer@,
{
}

/// An order is seen with all that it says, and a list of them in its order.
pub proof fn law_orders_are_seen(orders: Seq<Order>, i: int)
    requires
        0 <= i < orders.len(),
    ensures
        crate::order::ordered(orders).len() == orders.len(),
        crate::order::ordered(orders)[i].username == orders[i].username@,
        crate::order::ordered(orders)[i].wallet == orders[i].wallet@,
        crate::order::ordered(orders)[i].chain == orders[i].chain@,
        crate::order::ordered(orders)[i].source == orders[i].source,
        crate::order::ordered(orders)[i] == orders[i]@,
{
}

/// A user is seen with all that is reported, and a list of them in its order.
pub proof fn law_users_are_seen(users: Seq<User>, i: int)
    requires
        0 <= i < users.len(),
    ensures
        crate::poller::reported(users).len() == users.len(),
        crate::poller::reported(users)[i].id == users[i].id@,
        crate::poller::reported(users)[i].username == users[i].username@,
        crate::poller::reported(users)[i].wallet_address == (match users[i].wallet_address {
            Some(wallet) => Some(wallet@),
            None => None,
        }),
        crate::poller::reported(users)[i].selected_chain == (match users[i].selected_chain {
            Some(chain) => Some(chain@),
            None => None,
        }),
        crate::poller::reported(users)[i] == users[i]@,
{
}

/// A line is seen with the colour and the text of every piece, and a list of lines in
/// its order.
pub proof fn law_lines_are_seen(lines: Seq<Line>, i: int, j: int)
    requires
        0 <= i < lines.len(),
        0 <= j < lines[i].spans@.len(),
    ensures
        crate::console::shown(lines).len() == lines.len(),
        crate::console::shown(lines)[i] == lines[i]@,
        lines[i]@.len() == lines[i].spans@.len(),
        lines[i]@[j].0 == lines[i].spans@[j].tint,
        lines[i]@[j].1 == lines[i].spans@[j].text@,
{
}

/// A stage is seen with all that is known in it.
pub proof fn law_stage_is_seen(stage: Stage)
    ensures
        match stage {
            Stage::Connecting => stage@ is Connecting,
            Stage::Preparing { subject } => stage@ == (StageView::Preparing { subject: subject@ }),
            Stage::Quoting { subject, holder } => stage@ matches StageView::Quoting {
                subject: s,
                holder: h,
            } && s == subject@ && h == holder@,
            Stage::Funding { subject, holder, price } => stage@ matches StageView::Funding {
                subject: s,
                holder: h,
                price: p,
            } && s == subject@ && h == holder@ && p == price,
            Stage::Sending { price } => stage@ matches StageView::Sending { price: p } && p == price,
            Stage::Settling { price, tx_hash } => stage@ matches StageView::Settling {
                price: p,
                tx_hash: t,
            } && p == price && t == tx_hash@,
            Stage::Closed => stage@ is Closed,
        },
{
}

/// An event is seen with how it went.
pub proof fn law_event_is_seen(event: Event)
    ensures
        match event {
            Event::Connected(Ok(_)) => event@ == EventView::Connected(Ok(())),
            Event::Connected(Err(message)) => event@ == EventView::Connected(Err(message@)),
            Event::Prepared(holder) => event@ == EventView::Prepared(holder@),
            Event::Quoted(Ok(price)) => event@ == EventView::Quoted(Ok(price@)),
            Event::Quoted(Err(message)) => event@ == EventView::Quoted(Err(message@)),
            Event::Funded(Ok(balance)) => event@ == EventView::Funded(Ok(balance@)),
            Event::Funded(Err(message)) => event@ == EventView::Funded(Err(message@)),
            Event::Sent(Ok(tx_hash)) => event@ == EventView::Sent(Ok(tx_hash@)),
            Event::Sent(Err(message)) => event@ == EventView::Sent(Err(message@)),
            Event::Settled(Settlement::Missing) => event@ == EventView::Settled(
                SettlementView::Missing,
            ),
            Event::Settled(Settlement::Mined { status, elapsed_ms, now }) => event@
                == EventView::Settled(
                SettlementView::Mined { status, elapsed_ms: elapsed_ms as nat, now: now@ },
            ),
        },
{
}

/// A request is seen with all that it names.
pub proof fn law_request_is_seen(request: Request)
    ensures
        match request {
            Request::Connect { url } => request@ == (RequestView::Connect { url: url@ }),
            Request::Prepare { chain_id } => request@ == (RequestView::Prepare { chain_id }),
            Request::Quote { contract, subject, amount } => request@ matches RequestView::Quote {
                contract: c,
                subject: s,
                amount: a,
            } && c == contract@ && s == subject@ && a == amount,
            Request::Balance { holder } => request@ == (RequestView::Balance { holder: holder@ }),
            Request::Send { contract, subject, holder, amount, value, gas } => {
                &&& request@ matches RequestView::Send {
                    contract: c,
                    subject: s,
                    holder: h,
                    amount: a,
                    value: v,
                    gas: g,
                }
                &&& c == contract@ && s == subject@ && h == holder@
                &&& a == amount && v == value && g == gas
            },
            Request::Settle => request@ is Settle,
        },
{
}

/// An outcome is seen with its lines, its message and its request.
pub proof fn law_outcome_is_seen(outcome: Outcome)
    ensures
        outcome@.lines == crate::console::shown(outcome.lines@),
        outcome.message is Some <==> outcome@.message is Some,
        outcome.message matches Some(message) ==> outcome@.message == Some(message@),
        outcome.request is Some <==> outcome@.request is Some,
        outcome.request matches Some(request) ==> outcome@.request == Some(request@),
{
}

/// An event of a watcher is seen with how it went.
pub proof fn law_watch_event_is_seen(event: WatchEvent)
    ensures
        match event {
            WatchEvent::Begun => event@ is Begun,
            WatchEvent::Connected(Ok(_)) => event@ == WatchEventView::Connected(Ok(())),
            WatchEvent::Connected(Err(message)) => event@ == WatchEventView::Connected(
                Err(message@),
            ),
            WatchEvent::Subscribed(Ok(_)) => event@ == WatchEventView::Subscribed(Ok(())),
            WatchEvent::Subscribed(Err(message)) => event@ == WatchEventView::Subscribed(
                Err(message@),
            ),
            WatchEvent::Ended => event@ is Ended,
            WatchEvent::Rested => event@ is Rested,
        },
{
}

/// A request of a watcher is seen with all that it names.
pub proof fn law_watch_request_is_seen(request: WatchRequest)
    ensures
        match request {
            WatchRequest::Connect { url } => request@ == (WatchRequestView::Connect { url: url@ }),
            WatchRequest::Subscribe => request@ is Subscribe,
            WatchRequest::Read => request@ is Read,
            WatchRequest::Pause { seconds } => request@ matches WatchRequestView::Pause {
                seconds: s,
            } && s == seconds,
        },
{
}

/// A target is seen byte for byte, and a missing one as missing.
pub proof fn law_target_is_seen(to: Option<[u8; 20]>)
    ensures
        to is Some <==> crate::mempool::target_bytes(to) is Some,
        to matches Some(target) ==> crate::mempool::target_bytes(to) == Some(target@),
{
}

} // verus!
