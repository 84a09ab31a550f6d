//! One purchase, from the order to the mined transaction.
//!
//! A purchase asks for something of the outside world, is told how that went, and
//! asks for the next thing, until there is nothing left to ask for.

use vstd::prelude::*;
use vstd::string::*;

use crate::console::{Line, Span, Tint};
use crate::hexcode::{parse_address, show_hash};
use crate::order::{Order, OrderView};
use crate::slippage::with_slippage;
use crate::text::{decimal, uppercase};
use crate::wei::Wei;

verus! {

/// Shares bought in one purchase.
pub const SHARE_AMOUNT: u64 = 100;

/// The gas limit of a purchase.
pub const GAS_LIMIT: u64 = 250_000;

/// What a purchase is waiting for.
#[derive(Clone, Copy, Debug)]
pub enum Stage {
    /// The connection to the chain.
    Connecting,
    /// The signer, and the address that pays.
    Preparing { subject: [u8; 20] },
    /// The price.
    Quoting { subject: [u8; 20], holder: [u8; 20] },
    /// The balance of the address that pays.
    Funding { subject: [u8; 20], holder: [u8; 20], price: u128 },
    /// The transaction's hash.
    Sending { price: u128 },
    /// The receipt.
    Settling { price: u128, tx_hash: [u8; 32] },
    /// Nothing: the purchase is over.
    Closed,
}

/// What a [`Stage`] says.
pub enum StageView {
    Connecting,
    Preparing { subject: Seq<u8> },
    Quoting { subject: Seq<u8>, holder: Seq<u8> },
    Funding { subject: Seq<u8>, holder: Seq<u8>, price: nat },
    Sending { price: nat },
    Settling { price: nat, tx_hash: Seq<u8> },
    Closed,
}

impl View for Stage {
    type V = StageView;

    open spec fn view(&self) -> StageView {
        match *self {
            Stage::Connecting => StageView::Connecting,
            Stage::Preparing { subject } => StageView::Preparing { subject: subject@ },
            Stage::Quoting { subject, holder } => StageView::Quoting {
                subject: subject@,
                holder: holder@,
            },
            Stage::Funding { subject, holder, price } => StageView::Funding {
                subject: subject@,
                holder: holder@,
                price: price as nat,
            },
            Stage::Sending { price } => StageView::Sending { price: price as nat },
            Stage::Settling { price, tx_hash } => StageView::Settling {
                price: price as nat,
                tx_hash: tx_hash@,
            },
            Stage::Closed => StageView::Closed,
        }
    }
}

/// How waiting for the receipt ended.
#[derive(Debug)]
pub enum Settlement {
    /// The transaction was mined.
    Mined { status: Option<u64>, elapsed_ms: u128, now: String },
    /// No receipt came.
    Missing,
}

/// What a [`Settlement`] says.
pub enum SettlementView {
    Mined { status: Option<u64>, elapsed_ms: nat, now: Seq<char> },
    Missing,
}

impl View for Settlement {
    type V = SettlementView;

    open spec fn view(&self) -> SettlementView {
        match *self {
            Settlement::Mined { status, elapsed_ms, now } => SettlementView::Mined {
                status,
                elapsed_ms: elapsed_ms as nat,
                now: now@,
            },
            Settlement::Missing => SettlementView::Missing,
        }
    }
}

/// How a request went; a failure comes with its message.
#[derive(Debug)]
pub enum Event {
    Connected(Result<(), String>),
    Prepared([u8; 20]),
    Quoted(Result<Wei, String>),
    Funded(Result<Wei, String>),
    Sent(Result<[u8; 32], String>),
    Settled(Settlement),
}

/// What an [`Event`] says.
pub enum EventView {
    Connected(Result<(), Seq<char>>),
    Prepared(Seq<u8>),
    Quoted(Result<nat, Seq<char>>),
    Funded(Result<nat, Seq<char>>),
    Sent(Result<Seq<u8>, Seq<char>>),
    Settled(SettlementView),
}

impl View for Event {
    type V = EventView;

    open spec fn view(&self) -> EventView {
        match *self {
            Event::Connected(result) => EventView::Connected(
                match result {
                    Ok(_) => Ok(()),
                    Err(message) => Err(message@),
                },
            ),
            Event::Prepared(holder) => EventView::Prepared(holder@),
            Event::Quoted(result) => EventView::Quoted(
                match result {
                    Ok(price) => Ok(price@),
                    Err(message) => Err(message@),
                },
            ),
            Event::Funded(result) => EventView::Funded(
                match result {
                    Ok(balance) => Ok(balance@),
                    Err(message) => Err(message@),
                },
            ),
            Event::Sent(result) => EventView::Sent(
                match result {
                    Ok(tx_hash) => Ok(tx_hash@),
                    Err(message) => Err(message@),
                },
            ),
            Event::Settled(settlement) => EventView::Settled(settlement@),
        }
    }
}

/// What a purchase asks for.
#[derive(Debug)]
pub enum Request {
    /// A connection to the chain at `url`.
    Connect { url: &'static str },
    /// The signer for the chain, and the address that pays.
    Prepare { chain_id: u64 },
    /// The price of `amount` shares, fees included.
    Quote { contract: [u8; 20], subject: [u8; 20], amount: u64 },
    /// The balance of `holder`.
    Balance { holder: [u8; 20] },
    /// A transaction that buys `amount` shares for `holder` with at most `value`.
    Send {
        contract: [u8; 20],
        subject: [u8; 20],
        holder: [u8; 20],
        amount: u64,
        value: u128,
        gas: u64,
    },
    /// The receipt of the transaction.
    Settle,
}

/// What a [`Request`] says.
pub enum RequestView {
    Connect { url: Seq<char> },
    Prepare { chain_id: u64 },
    Quote { contract: Seq<u8>, subject: Seq<u8>, amount: nat },
    Balance { holder: Seq<u8> },
    Send {
        contract: Seq<u8>,
        subject: Seq<u8>,
        holder: Seq<u8>,
        amount: nat,
        value: nat,
        gas: nat,
    },
    Settle,
}

impl View for Request {
    type V = RequestView;

    open spec fn view(&self) -> RequestView {
        match *self {
            Request::Connect { url } => RequestView::Connect { url: url@ },
            Request::Prepare { chain_id } => RequestView::Prepare { chain_id },
            Request::Quote { contract, subject, amount } => RequestView::Quote {
                contract: contract@,
                subject: subject@,
                amount: amount as nat,
            },
            Request::Balance { holder } => RequestView::Balance { holder: holder@ },
            Request::Send { contract, subject, holder, amount, value, gas } => RequestView::Send {
                contract: contract@,
                subject: subject@,
                holder: holder@,
                amount: amount as nat,
                value: value as nat,
                gas: gas as nat,
            },
            Request::Settle => RequestView::Settle,
        }
    }
}

/// What a purchase does on an event: lines for the console, then perhaps a message to
/// the operator, then perhaps a request. Without a request it is over.
#[derive(Debug)]
pub struct Outcome {
    pub lines: Vec<Line>,
    pub message: Option<String>,
    pub request: Option<Request>,
}

/// What an [`Outcome`] says.
pub struct OutcomeView {
    pub lines: Seq<Seq<(Tint, Seq<char>)>>,
    pub message: Option<Seq<char>>,
    pub request: Option<RequestView>,
}

impl View for Outcome {
    type V = OutcomeView;

    open spec fn view(&self) -> OutcomeView {
        OutcomeView {
            lines: crate::console::shown(self.lines@),
            message: match self.message {
                Some(message) => Some(message@),
                None => None,
            },
            request: match self.request {
                Some(request) => Some(request@),
                None => None,
            },
        }
    }
}

/// An outcome that ends the purchase with one line and perhaps a message.
pub open spec fn ended(line: Seq<(Tint, Seq<char>)>, message: Option<Seq<char>>) -> (
    StageView,
    OutcomeView,
) {
    (StageView::Closed, OutcomeView { lines: seq![line], message, request: None })
}

/// The end of a purchase on which `what` failed.
pub open spec fn failed(what: Seq<char>, message: Seq<char>) -> (StageView, OutcomeView) {
    ended(
        crate::console::signed(Tint::Red, "❌"@, " "@ + what + " error: "@ + message),
        None,
    )
}

/// A request without a line or a message.
pub open spec fn asked(request: RequestView) -> OutcomeView {
    OutcomeView { lines: Seq::empty(), message: None, request: Some(request) }
}

/// A line and a request.
pub open spec fn told(line: Seq<(Tint, Seq<char>)>, request: RequestView) -> OutcomeView {
    OutcomeView { lines: seq![line], message: None, request: Some(request) }
}

/// The line that opens a purchase.
pub open spec fn firing_line(order: OrderView) -> Seq<(Tint, Seq<char>)> {
    seq![
        (Tint::Yellow, "⚡"@),
        (Tint::Plain, " ["@ + order.source.label() + "] @"@ + order.username + " on "@),
        (Tint::Cyan, crate::text::upper(order.chain.name)),
        (Tint::Plain, " — firing!"@),
    ]
}

/// A price with the chain's symbol behind it.
pub open spec fn amount_text(order: OrderView, amount: nat) -> Seq<char> {
    crate::wei::coin_text(amount) + " "@ + order.chain.symbol
}

/// The message on a balance below the cap.
pub open spec fn low_balance_message(order: OrderView, price: nat, balance: nat) -> Seq<char> {
    "❌ Low balance on "@ + crate::text::upper(order.chain.name) + "!\nNeed: "@ + amount_text(
        order,
        price,
    ) + "\nHave: "@ + amount_text(order, balance)
}

/// The link to a transaction.
pub open spec fn link_text(order: OrderView, tx_hash: Seq<u8>) -> Seq<char> {
    order.chain.explorer + crate::hexcode::prefixed_hex(tx_hash)
}

/// The message on a purchase that succeeded.
pub open spec fn sniped_message(
    order: OrderView,
    price: nat,
    tx_hash: Seq<u8>,
    elapsed_ms: nat,
    now: Seq<char>,
) -> Seq<char> {
    "🎯 <b>Sniped @"@ + order.username + "!</b>\n\n⛓️ "@ + crate::text::upper(
        order.chain.name,
    ) + "\n📡 Source: "@ + order.source.label() + "\n💰 Paid: "@ + amount_text(order, price)
        + "\n⚡ "@ + crate::text::decimal_text(elapsed_ms) + "ms\n🕐 "@ + now + "\n🔗 "@ + link_text(
        order,
        tx_hash,
    )
}

/// The message on a purchase whose transaction failed.
pub open spec fn reverted_message(order: OrderView, tx_hash: Seq<u8>) -> Seq<char> {
    "❌ <b>Reverted @"@ + order.username + "</b>\n⛓️ "@ + crate::text::upper(order.chain.name)
        + "\n🔗 "@ + link_text(order, tx_hash)
}

/// Once the chain is connected: the key is read, then the wallet.
pub open spec fn on_connected(order: OrderView, key: Seq<char>, result: Result<(), Seq<char>>) -> (
    StageView,
    OutcomeView,
) {
    match result {
        Err(message) => failed("Provider"@, message),
        Ok(_) => if !crate::signer::is_private_key(key) {
            failed("Wallet"@, crate::signer::key_error(key))
        } else {
            match crate::hexcode::address_of(order.wallet) {
                None => failed("Address"@, crate::hexcode::address_error(order.wallet)),
                Some(subject) => (
                    StageView::Preparing { subject },
                    asked(RequestView::Prepare { chain_id: order.chain.chain_id }),
                ),
            }
        },
    }
}

/// Once it is known who pays: the price is asked for.
pub open spec fn on_prepared(order: OrderView, subject: Seq<u8>, holder: Seq<u8>) -> (
    StageView,
    OutcomeView,
) {
    (
        StageView::Quoting { subject, holder },
        asked(
            RequestView::Quote {
                contract: crate::hexcode::address_of(order.chain.contract)->0,
                subject,
                amount: SHARE_AMOUNT as nat,
            },
        ),
    )
}

/// Once the price is known: the balance is asked for.
pub open spec fn on_quoted(
    order: OrderView,
    subject: Seq<u8>,
    holder: Seq<u8>,
    result: Result<nat, Seq<char>>,
) -> (StageView, OutcomeView) {
    match result {
        Err(message) => failed("Price"@, message),
        Ok(price) => (
            StageView::Funding { subject, holder, price },
            told(
                crate::console::signed(Tint::Green, "💰"@, " Price: "@ + amount_text(order, price)),
                RequestView::Balance { holder },
            ),
        ),
    }
}

/// Once the balance is known: the transaction is sent if the balance covers the cap.
pub open spec fn on_funded(
    order: OrderView,
    subject: Seq<u8>,
    holder: Seq<u8>,
    price: nat,
    result: Result<nat, Seq<char>>,
) -> (StageView, OutcomeView) {
    let value = crate::slippage::slipped(price);
    match result {
        Err(message) => failed("Balance"@, message),
        Ok(balance) => if balance < value {
            ended(
                crate::console::signed(
                    Tint::Red,
                    "❌"@,
                    " Insufficient balance: "@ + amount_text(order, balance),
                ),
                Some(low_balance_message(order, price, balance)),
            )
        } else {
            (
                StageView::Sending { price },
                asked(
                    RequestView::Send {
                        contract: crate::hexcode::address_of(order.chain.contract)->0,
                        subject,
                        holder,
                        amount: SHARE_AMOUNT as nat,
                        value,
                        gas: GAS_LIMIT as nat,
                    },
                ),
            )
        },
    }
}

/// Once the transaction is out: its receipt is waited for.
pub open spec fn on_sent(order: OrderView, price: nat, result: Result<Seq<u8>, Seq<char>>) -> (
    StageView,
    OutcomeView,
) {
    match result {
        Err(message) => failed("Send"@, message),
        Ok(tx_hash) => (
            StageView::Settling { price, tx_hash },
            told(
                crate::console::signed(Tint::Blue, "📡"@, " TX: "@ + link_text(order, tx_hash)),
                RequestView::Settle,
            ),
        ),
    }
}

/// Once the wait is over: the end is reported.
pub open spec fn on_settled(
    order: OrderView,
    price: nat,
    tx_hash: Seq<u8>,
    settlement: SettlementView,
) -> (StageView, OutcomeView) {
    match settlement {
        SettlementView::Missing => ended(
            crate::console::signed(
                Tint::Yellow,
                "⚠️"@,
                " Receipt timeout for @"@ + order.username,
            ),
            None,
        ),
        SettlementView::Mined { status, elapsed_ms, now } => if status == Some(1u64) {
            ended(
                crate::console::signed(
                    Tint::Green,
                    "✅"@,
                    " Sniped @"@ + order.username + " on "@ + crate::text::upper(order.chain.name)
                        + "! "@ + crate::text::decimal_text(elapsed_ms) + "ms"@,
                ),
                Some(sniped_message(order, price, tx_hash, elapsed_ms, now)),
            )
        } else {
            ended(
                crate::console::signed(
                    Tint::Red,
                    "❌"@,
                    " TX reverted for @"@ + order.username,
                ),
                Some(reverted_message(order, tx_hash)),
            )
        },
    }
}

/// Whether `event` is how the request of `stage` may have gone. A price is counted in
/// 128 bits.
pub open spec fn answers(stage: StageView, event: EventView) -> bool {
    match stage {
        StageView::Connecting => event is Connected,
        StageView::Preparing { .. } => event is Prepared,
        StageView::Quoting { .. } => match event {
            EventView::Quoted(Ok(price)) => price <= u128::MAX,
            EventView::Quoted(Err(_)) => true,
            _ => false,
        },
        StageView::Funding { .. } => event is Funded,
        StageView::Sending { .. } => event is Sent,
        StageView::Settling { .. } => event is Settled,
        StageView::Closed => false,
    }
}

/// Whether the chain's contract is read on `event`: it is as soon as there is a
/// connection and the key is readable.
pub open spec fn reads_contract(key: Seq<char>, stage: StageView, event: EventView) -> bool {
    &&& stage is Connecting
    &&& event == EventView::Connected(Ok(()))
    &&& crate::signer::is_private_key(key)
}

/// Where an event leads, and what is done on it.
pub open spec fn next(order: OrderView, key: Seq<char>, stage: StageView, event: EventView) -> (
    StageView,
    OutcomeView,
) {
    match (stage, event) {
        (StageView::Connecting, EventView::Connected(result)) => on_connected(order, key, result),
        (StageView::Preparing { subject }, EventView::Prepared(holder)) => on_prepared(
            order,
            subject,
            holder,
        ),
        (StageView::Quoting { subject, holder }, EventView::Quoted(result)) => on_quoted(
            order,
            subject,
            holder,
            result,
        ),
        (StageView::Funding { subject, holder, price }, EventView::Funded(result)) => on_funded(
            order,
            subject,
            holder,
            price,
            result,
        ),
        (StageView::Sending { price }, EventView::Sent(result)) => on_sent(order, price, result),
        (StageView::Settling { price, tx_hash }, EventView::Settled(settlement)) => on_settled(
            order,
            price,
            tx_hash,
            settlement,
        ),
        _ => (StageView::Closed, OutcomeView { lines: Seq::empty(), message: None, request: None }),
    }
}

/// What a purchase does before any event.
pub open spec fn opening(order: OrderView) -> OutcomeView {
    told(firing_line(order), RequestView::Connect { url: order.chain.http })
}

impl Outcome {
    fn ask(request: Request) -> (outcome: Outcome)
        ensures
            outcome@ == asked(request@),
    {
        let outcome = Outcome { lines: Vec::new(), message: None, request: Some(request) };
        assert(outcome@.lines =~= asked(request@).lines);
        outcome
    }

    fn tell(line: Line, request: Request) -> (outcome: Outcome)
        ensures
            outcome@ == told(line@, request@),
    {
        let mut lines: Vec<Line> = Vec::new();
        lines.push(line);
        let outcome = Outcome { lines, message: None, request: Some(request) };
        assert(outcome@.lines =~= told(line@, request@).lines);
        outcome
    }

    fn end(line: Line, message: Option<String>) -> (outcome: Outcome)
        ensures
            outcome@ == ended(
                line@,
                match message {
                    Some(message) => Some(message@),
                    None => None,
                },
            ).1,
    {
        let mut lines: Vec<Line> = Vec::new();
        lines.push(line);
        let outcome = Outcome { lines, message, request: None };
        assert(outcome@.lines =~= seq![line@]);
        outcome
    }

    fn fail(what: &str, message: &str) -> (outcome: Outcome)
        ensures
            outcome@ == failed(what@, message@).1,
    {
        Outcome::end(Line::failure(Tint::Red, "❌", what, message), None)
    }
}

/// A purchase that is under way.
pub struct Purchase {
    pub order: Order,
    pub private_key: String,
    pub stage: Stage,
}

fn firing(order: &Order) -> (line: Line)
    ensures
        line@ == firing_line(order@),
{
    let mut who = String::from_str(" [");
    who.append(order.source.text());
    who.append("] @");
    who.append(order.username.as_str());
    who.append(" on ");
    let mut spans: Vec<Span> = Vec::new();
    spans.push(Span::new(Tint::Yellow, String::from_str("⚡")));
    spans.push(Span::new(Tint::Plain, who));
    spans.push(Span::new(Tint::Cyan, uppercase(order.chain.name)));
    spans.push(Span::new(Tint::Plain, String::from_str(" — firing!")));
    let line = Line { spans };
    assert(line@ =~= firing_line(order@));
    line
}

fn amount(order: &Order, price: &Wei) -> (text: String)
    ensures
        text@ == amount_text(order@, price@),
{
    let mut text = price.in_coins();
    text.append(" ");
    text.append(order.chain.symbol);
    text
}

fn link(order: &Order, tx_hash: &[u8; 32]) -> (text: String)
    ensures
        text@ == link_text(order@, tx_hash@),
{
    let mut text = String::from_str(order.chain.explorer);
    text.append(show_hash(tx_hash).as_str());
    text
}

fn low_balance(order: &Order, price: &Wei, balance: &Wei) -> (text: String)
    ensures
        text@ == low_balance_message(order@, price@, balance@),
{
    let mut text = String::from_str("❌ Low balance on ");
    text.append(uppercase(order.chain.name).as_str());
    text.append("!\nNeed: ");
    text.append(amount(order, price).as_str());
    text.append("\nHave: ");
    text.append(amount(order, balance).as_str());
    text
}

fn sniped(order: &Order, price: &Wei, tx_hash: &[u8; 32], elapsed_ms: u128, now: &str) -> (text:
    String)
    ensures
        text@ == sniped_message(order@, price@, tx_hash@, elapsed_ms as nat, now@),
{
    let mut text = String::from_str("🎯 <b>Sniped @");
    text.append(order.username.as_str());
    text.append("!</b>\n\n⛓️ ");
    text.append(uppercase(order.chain.name).as_str());
    text.append("\n📡 Source: ");
    text.append(order.source.text());
    text.append("\n💰 Paid: ");
    text.append(amount(order, price).as_str());
    text.append("\n⚡ ");
    text.append(decimal(elapsed_ms).as_str());
    text.append("ms\n🕐 ");
    text.append(now);
    text.append("\n🔗 ");
    text.append(link(order, tx_hash).as_str());
    text
}

fn reverted(order: &Order, tx_hash: &[u8; 32]) -> (text: String)
    ensures
        text@ == reverted_message(order@, tx_hash@),
{
    let mut text = String::from_str("❌ <b>Reverted @");
    text.append(order.username.as_str());
    text.append("</b>\n⛓️ ");
    text.append(uppercase(order.chain.name).as_str());
    text.append("\n🔗 ");
    text.append(link(order, tx_hash).as_str());
    text
}

impl Purchase {
    /// Whether the chain's contract is given by an address, as it must be while a
    /// purchase is past the reading of the key.
    pub open spec fn well_formed(self) -> bool {
        ||| self.stage@ is Connecting
        ||| self.stage@ is Closed
        ||| self.order@.chain.valid()
    }

    /// The contract that sells the shares.
    fn contract(&self) -> (contract: [u8; 20])
        requires
            self.order@.chain.valid(),
        ensures
            crate::hexcode::address_of(self.order@.chain.contract) == Some(contract@),
    {
        match parse_address(self.order.chain.contract) {
            Ok(contract) => contract,
            Err(_) => [0u8; 20],
        }
    }

    /// Starts a purchase: it is announced, and the chain is to be connected.
    pub fn open(order: Order, private_key: String) -> (started: (Purchase, Outcome))
        ensures
            started.0.order == order,
            started.0.private_key == private_key,
            started.0.stage@ == StageView::Connecting,
            started.0.well_formed(),
            started.1@ == opening(order@),
    {
        let outcome = Outcome::tell(firing(&order), Request::Connect { url: order.chain.http });
        (Purchase { order, private_key, stage: Stage::Connecting }, outcome)
    }

    fn connected(&mut self, result: Result<(), String>) -> (outcome: Outcome)
        ensures
            final(self).order == old(self).order,
            final(self).private_key == old(self).private_key,
            (final(self).stage@, outcome@) == on_connected(
                old(self).order@,
                old(self).private_key@,
                match result {
                    Ok(_) => Ok(()),
                    Err(message) => Err(message@),
                },
            ),
    {
        self.stage = Stage::Closed;
        match result {
            Err(message) => Outcome::fail("Provider", message.as_str()),
            Ok(_) => match crate::signer::check_key(self.private_key.as_str()) {
                Some(message) => Outcome::fail("Wallet", message.as_str()),
                None => match parse_address(self.order.wallet.as_str()) {
                    Err(message) => Outcome::fail("Address", message.as_str()),
                    Ok(subject) => {
                        self.stage = Stage::Preparing { subject };
                        Outcome::ask(Request::Prepare { chain_id: self.order.chain.chain_id })
                    },
                },
            },
        }
    }

    fn prepared(&mut self, subject: [u8; 20], holder: [u8; 20]) -> (outcome: Outcome)
        requires
            old(self).order@.chain.valid(),
        ensures
            final(self).order == old(self).order,
            final(self).private_key == old(self).private_key,
            (final(self).stage@, outcome@) == on_prepared(old(self).order@, subject@, holder@),
    {
        let contract = self.contract();
        self.stage = Stage::Quoting { subject, holder };
        Outcome::ask(Request::Quote { contract, subject, amount: SHARE_AMOUNT })
    }

    fn quoted(&mut self, subject: [u8; 20], holder: [u8; 20], result: Result<Wei, String>) -> (outcome:
        Outcome)
        requires
            result is Ok ==> result->Ok_0@ <= u128::MAX,
        ensures
            final(self).order == old(self).order,
            final(self).private_key == old(self).private_key,
            (final(self).stage@, outcome@) == on_quoted(
                old(self).order@,
                subject@,
                holder@,
                match result {
                    Ok(price) => Ok(price@),
                    Err(message) => Err(message@),
                },
            ),
    {
        self.stage = Stage::Closed;
        match result {
            Err(message) => Outcome::fail("Price", message.as_str()),
            Ok(quote) => {
                let price: u128 = match quote.to_u128() {
                    Some(price) => price,
                    None => 0,
                };
                self.stage = Stage::Funding { subject, holder, price };
                let mut text = String::from_str(" Price: ");
                text.append(amount(&self.order, &quote).as_str());
                Outcome::tell(Line::signed(Tint::Green, "💰", text), Request::Balance { holder })
            },
        }
    }

    fn funded(
        &mut self,
        subject: [u8; 20],
        holder: [u8; 20],
        price: u128,
        result: Result<Wei, String>,
    ) -> (outcome: Outcome)
        requires
            old(self).order@.chain.valid(),
        ensures
            final(self).order == old(self).order,
            final(self).private_key == old(self).private_key,
            (final(self).stage@, outcome@) == on_funded(
                old(self).order@,
                subject@,
                holder@,
                price as nat,
                match result {
                    Ok(balance) => Ok(balance@),
                    Err(message) => Err(message@),
                },
            ),
    {
        let contract = self.contract();
        self.stage = Stage::Closed;
        let balance = match result {
            Err(message) => {
                return Outcome::fail("Balance", message.as_str());
            },
            Ok(balance) => balance,
        };
        let value: u128 = with_slippage(price);
        if !balance.covers(value) {
            let mut text = String::from_str(" Insufficient balance: ");
            text.append(amount(&self.order, &balance).as_str());
            let message = low_balance(&self.order, &Wei::from_u128(price), &balance);
            Outcome::end(Line::signed(Tint::Red, "❌", text), Some(message))
        } else {
            self.stage = Stage::Sending { price };
            Outcome::ask(
                Request::Send {
                    contract,
                    subject,
                    holder,
                    amount: SHARE_AMOUNT,
                    value,
                    gas: GAS_LIMIT,
                },
            )
        }
    }

    fn sent(&mut self, price: u128, result: Result<[u8; 32], String>) -> (outcome: Outcome)
        ensures
            final(self).order == old(self).order,
            final(self).private_key == old(self).private_key,
            (final(self).stage@, outcome@) == on_sent(
                old(self).order@,
                price as nat,
                match result {
                    Ok(tx_hash) => Ok(tx_hash@),
                    Err(message) => Err(message@),
                },
            ),
    {
        self.stage = Stage::Closed;
        match result {
            Err(message) => Outcome::fail("Send", message.as_str()),
            Ok(tx_hash) => {
                self.stage = Stage::Settling { price, tx_hash };
                let mut text = String::from_str(" TX: ");
                text.append(link(&self.order, &tx_hash).as_str());
                Outcome::tell(Line::signed(Tint::Blue, "📡", text), Request::Settle)
            },
        }
    }

    fn settled(&mut self, price: u128, tx_hash: [u8; 32], settlement: Settlement) -> (outcome:
        Outcome)
        ensures
            final(self).order == old(self).order,
            final(self).private_key == old(self).private_key,
            (final(self).stage@, outcome@) == on_settled(
                old(self).order@,
                price as nat,
                tx_hash@,
                settlement@,
            ),
    {
        self.stage = Stage::Closed;
        match settlement {
            Settlement::Missing => {
                let mut text = String::from_str(" Receipt timeout for @");
                text.append(self.order.username.as_str());
                Outcome::end(Line::signed(Tint::Yellow, "⚠️", text), None)
            },
            Settlement::Mined { status, elapsed_ms, now } => {
                let success = match status {
                    Some(code) => code == 1,
                    None => false,
                };
                if success {
                    let mut text = String::from_str(" Sniped @");
                    text.append(self.order.username.as_str());
                    text.append(" on ");
                    text.append(uppercase(self.order.chain.name).as_str());
                    text.append("! ");
                    text.append(decimal(elapsed_ms).as_str());
                    text.append("ms");
                    let message = sniped(
                        &self.order,
                        &Wei::from_u128(price),
                        &tx_hash,
                        elapsed_ms,
                        now.as_str(),
                    );
                    Outcome::end(Line::signed(Tint::Green, "✅", text), Some(message))
                } else {
                    let mut text = String::from_str(" TX reverted for @");
                    text.append(self.order.username.as_str());
                    let message = reverted(&self.order, &tx_hash);
                    Outcome::end(Line::signed(Tint::Red, "❌", text), Some(message))
                }
            },
        }
    }

    /// Takes note of how the last request went, and says what is to be done now.
    pub fn advance(&mut self, event: Event) -> (outcome: Outcome)
        requires
            old(self).well_formed(),
            answers(old(self).stage@, event@),
            reads_contract(old(self).private_key@, old(self).stage@, event@)
                ==> old(self).order@.chain.valid(),
        ensures
            final(self).well_formed(),
            final(self).order == old(self).order,
            final(self).private_key == old(self).private_key,
            (final(self).stage@, outcome@) == next(
                old(self).order@,
                old(self).private_key@,
                old(self).stage@,
                event@,
            ),
    {
        match (self.stage, event) {
            (Stage::Connecting, Event::Connected(result)) => self.connected(result),
            (Stage::Preparing { subject }, Event::Prepared(holder)) => self.prepared(
                subject,
                holder,
            ),
            (Stage::Quoting { subject, holder }, Event::Quoted(result)) => self.quoted(
                subject,
                holder,
                result,
            ),
            (Stage::Funding { subject, holder, price }, Event::Funded(result)) => self.funded(
                subject,
                holder,
                price,
                result,
            ),
            (Stage::Sending { price }, Event::Sent(result)) => self.sent(price, result),
            (Stage::Settling { price, tx_hash }, Event::Settled(settlement)) => self.settled(
                price,
                tx_hash,
                settlement,
            ),
            _ => Outcome { lines: Vec::new(), message: None, request: None },
        }
    }

    /// Goes on with the address that `my_wallet` spells: it pays, and it gets the
    /// shares.
    pub fn prepare(&mut self, my_wallet: &str) -> (outcome: Outcome)
        requires
            old(self).well_formed(),
            old(self).stage@ is Preparing,
            crate::hexcode::address_of(my_wallet@) is Some,
        ensures
            final(self).well_formed(),
            final(self).order == old(self).order,
            final(self).private_key == old(self).private_key,
            (final(self).stage@, outcome@) == next(
                old(self).order@,
                old(self).private_key@,
                old(self).stage@,
                EventView::Prepared(crate::hexcode::address_of(my_wallet@)->0),
            ),
    {
        let holder = match parse_address(my_wallet) {
            Ok(holder) => holder,
            Err(_) => [0u8; 20],
        };
        self.advance(Event::Prepared(holder))
    }
}

} // verus!
