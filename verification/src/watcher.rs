//! Keeping a mempool subscription alive.

use vstd::prelude::*;
use vstd::string::*;

use crate::chain::{Chain, ChainView};
use crate::console::{Line, Tint};
use crate::text::uppercase;

verus! {

/// Seconds between losing a connection and the next attempt.
pub const RETRY_SECONDS: u64 = 5;

/// What happens to the watcher of a chain; a failure comes with its message.
#[derive(Debug)]
pub enum WatchEvent {
    /// The watcher starts.
    Begun,
    Connected(Result<(), String>),
    Subscribed(Result<(), String>),
    /// The subscription gave its last transaction.
    Ended,
    /// The pause is over.
    Rested,
}

/// What a [`WatchEvent`] says.
pub enum WatchEventView {
    Begun,
    Connected(Result<(), Seq<char>>),
    Subscribed(Result<(), Seq<char>>),
    Ended,
    Rested,
}

impl View for WatchEvent {
    type V = WatchEventView;

    open spec fn view(&self) -> WatchEventView {
        match *self {
            WatchEvent::Begun => WatchEventView::Begun,
            WatchEvent::Connected(result) => WatchEventView::Connected(
                match result {
                    Ok(_) => Ok(()),
                    Err(message) => Err(message@),
                },
            ),
            WatchEvent::Subscribed(result) => WatchEventView::Subscribed(
                match result {
                    Ok(_) => Ok(()),
                    Err(message) => Err(message@),
                },
            ),
            WatchEvent::Ended => WatchEventView::Ended,
            WatchEvent::Rested => WatchEventView::Rested,
        }
    }
}

/// What the watcher asks for.
#[derive(Debug)]
pub enum WatchRequest {
    /// A connection to the chain at `url`.
    Connect { url: &'static str },
    /// A subscription to the pending transactions.
    Subscribe,
    /// The transactions, until the subscription ends.
    Read,
    /// A pause before the next attempt.
    Pause { seconds: u64 },
}

/// What a [`WatchRequest`] says.
pub enum WatchRequestView {
    Connect { url: Seq<char> },
    Subscribe,
    Read,
    Pause { seconds: nat },
}

impl View for WatchRequest {
    type V = WatchRequestView;

    open spec fn view(&self) -> WatchRequestView {
        match *self {
            WatchRequest::Connect { url } => WatchRequestView::Connect { url: url@ },
            WatchRequest::Subscribe => WatchRequestView::Subscribe,
            WatchRequest::Read => WatchRequestView::Read,
            WatchRequest::Pause { seconds } => WatchRequestView::Pause { seconds: seconds as nat },
        }
    }
}

/// Lines for the console, then a request.
#[derive(Debug)]
pub struct WatchStep {
    pub lines: Vec<Line>,
    pub request: WatchRequest,
}

/// A line about the chain's connection.
pub open spec fn status_line(
    tint: Tint,
    sign: Seq<char>,
    chain: ChainView,
    status: Seq<char>,
) -> Seq<(Tint, Seq<char>)> {
    crate::console::signed(tint, sign, " ["@ + crate::text::upper(chain.name) + "] "@ + status)
}

/// A warning about something that failed.
pub open spec fn warning(what: Seq<char>, message: Seq<char>) -> Seq<(Tint, Seq<char>)> {
    crate::console::signed(Tint::Yellow, "⚠️"@, " "@ + what + " error: "@ + message)
}

/// The line on a connection that is gone.
pub open spec fn lost_line(chain: ChainView) -> Seq<(Tint, Seq<char>)> {
    status_line(Tint::Yellow, "🔌"@, chain, "WS disconnected — retry in 5s"@)
}

/// What the watcher of `chain` shows and asks for on `event`. A start and the end of a
/// pause ask for a connection; an attempt that fails or ends asks for a pause.
pub open spec fn watched(chain: ChainView, event: WatchEventView) -> (
    Seq<Seq<(Tint, Seq<char>)>>,
    WatchRequestView,
) {
    let pause = WatchRequestView::Pause { seconds: RETRY_SECONDS as nat };
    match event {
        WatchEventView::Begun | WatchEventView::Rested => (
            seq![status_line(Tint::Yellow, "🔌"@, chain, "Connecting mempool WS..."@)],
            WatchRequestView::Connect { url: chain.ws },
        ),
        WatchEventView::Connected(Ok(_)) => (
            seq![status_line(Tint::Green, "✅"@, chain, "Mempool live!"@)],
            WatchRequestView::Subscribe,
        ),
        WatchEventView::Connected(Err(message)) => (
            seq![warning("WS connect"@, message), lost_line(chain)],
            pause,
        ),
        WatchEventView::Subscribed(Ok(_)) => (Seq::empty(), WatchRequestView::Read),
        WatchEventView::Subscribed(Err(message)) => (
            seq![warning("Subscribe"@, message), lost_line(chain)],
            pause,
        ),
        WatchEventView::Ended => (seq![lost_line(chain)], pause),
    }
}

/// Whether `event` is how `request` may have gone.
pub open spec fn meets(request: WatchRequestView, event: WatchEventView) -> bool {
    match request {
        WatchRequestView::Connect { .. } => event is Connected,
        WatchRequestView::Subscribe => event is Subscribed,
        WatchRequestView::Read => event is Ended,
        WatchRequestView::Pause { .. } => event is Rested,
    }
}

/// What the watcher of `chain` asks for after it began and `events` happened. It always
/// asks for something.
pub open spec fn asks(chain: ChainView, events: Seq<WatchEventView>) -> WatchRequestView {
    watched(
        chain,
        if events.len() == 0 {
            WatchEventView::Begun
        } else {
            events.last()
        },
    ).1
}

/// Whether every event is how the request before it went.
pub open spec fn watch_met(chain: ChainView, events: Seq<WatchEventView>) -> bool {
    forall|n: int|
        0 <= n < events.len() ==> meets(asks(chain, events.take(n)), #[trigger] events[n])
}

/// Whether an attempt failed or ended with `event`.
pub open spec fn is_loss(event: WatchEventView) -> bool {
    match event {
        WatchEventView::Connected(result) => result is Err,
        WatchEventView::Subscribed(result) => result is Err,
        WatchEventView::Ended => true,
        WatchEventView::Begun | WatchEventView::Rested => false,
    }
}

/// However an attempt fails or ends, the last line says that the connection is gone,
/// and a pause of five seconds is asked for.
pub proof fn law_loss_asks_for_pause(chain: ChainView, event: WatchEventView)
    requires
        is_loss(event),
    ensures
        watched(chain, event).0.last() == lost_line(chain),
        watched(chain, event).1 == (WatchRequestView::Pause { seconds: 5 }),
{
}

/// In whatever way connecting, subscribing and reading go, a loss is followed by a pause
/// of five seconds, the pause by nothing but its end, and that by connecting to the
/// chain again.
pub proof fn law_lost_connection_is_retried(
    chain: ChainView,
    events: Seq<WatchEventView>,
    n: int,
)
    requires
        watch_met(chain, events),
        0 <= n < events.len(),
        is_loss(events[n]),
    ensures
        asks(chain, events.take(n + 1)) == (WatchRequestView::Pause { seconds: 5 }),
        n + 1 < events.len() ==> {
            &&& events[n + 1] == WatchEventView::Rested
            &&& asks(chain, events.take(n + 2)) == (WatchRequestView::Connect { url: chain.ws })
        },
{
    assert(events.take(n + 1).last() == events[n]);
    if n + 1 < events.len() {
        assert(meets(asks(chain, events.take(n + 1)), events[n + 1]));
        assert(events.take(n + 2).last() == events[n + 1]);
    }
}

/// The watcher goes through its steps in order and never stops: it connects first and
/// after every pause, subscribes after every connection that came about, reads after
/// every subscription, and pauses after everything else.
pub proof fn law_watcher_never_stops(chain: ChainView, events: Seq<WatchEventView>)
    requires
        watch_met(chain, events),
    ensures
        events.len() == 0 || events.last() is Rested ==> asks(chain, events) == (
        WatchRequestView::Connect { url: chain.ws }),
        events.len() > 0 && events.last() == WatchEventView::Connected(Ok(())) ==> asks(
            chain,
            events,
        ) == WatchRequestView::Subscribe,
        events.len() > 0 && events.last() == WatchEventView::Subscribed(Ok(())) ==> asks(
            chain,
            events,
        ) == WatchRequestView::Read,
        events.len() > 0 && is_loss(events.last()) ==> asks(chain, events) == (
        WatchRequestView::Pause { seconds: 5 }),
        events.len() > 0 ==> events.last() !is Begun,
{
    if events.len() > 0 {
        let n = events.len() - 1;
        assert(meets(asks(chain, events.take(n)), events[n]));
    }
}

fn status(tint: Tint, sign: &str, chain: &Chain, text: &str) -> (line: Line)
    ensures
        line@ == status_line(tint, sign@, chain@, text@),
{
    let mut report = String::from_str(" [");
    report.append(uppercase(chain.name).as_str());
    report.append("] ");
    report.append(text);
    Line::signed(tint, sign, report)
}

fn lost(chain: &Chain) -> (line: Line)
    ensures
        line@ == lost_line(chain@),
{
    status(Tint::Yellow, "🔌", chain, "WS disconnected — retry in 5s")
}

/// Takes note of what happened to the watcher of `chain`, and says what is to be done
/// now.
pub fn watch(chain: &Chain, event: WatchEvent) -> (step: WatchStep)
    ensures
        (crate::console::shown(step.lines@), step.request@) == watched(chain@, event@),
{
    let mut lines: Vec<Line> = Vec::new();
    let request = match event {
        WatchEvent::Begun | WatchEvent::Rested => {
            lines.push(status(Tint::Yellow, "🔌", chain, "Connecting mempool WS..."));
            WatchRequest::Connect { url: chain.ws }
        },
        WatchEvent::Connected(Ok(_)) => {
            lines.push(status(Tint::Green, "✅", chain, "Mempool live!"));
            WatchRequest::Subscribe
        },
        WatchEvent::Connected(Err(message)) => {
            lines.push(Line::failure(Tint::Yellow, "⚠️", "WS connect", message.as_str()));
            lines.push(lost(chain));
            WatchRequest::Pause { seconds: RETRY_SECONDS }
        },
        WatchEvent::Subscribed(Ok(_)) => WatchRequest::Read,
        WatchEvent::Subscribed(Err(message)) => {
            lines.push(Line::failure(Tint::Yellow, "⚠️", "Subscribe", message.as_str()));
            lines.push(lost(chain));
            WatchRequest::Pause { seconds: RETRY_SECONDS }
        },
        WatchEvent::Ended => {
            lines.push(lost(chain));
            WatchRequest::Pause { seconds: RETRY_SECONDS }
        },
    };
    assert(crate::console::shown(lines@) =~= watched(chain@, event@).0);
    WatchStep { lines, request }
}

/// What is shown on each event: every line names the chain or the reason, and a loss
/// always ends with the line on it.
pub proof fn law_watcher_tells_what_happened(chain: ChainView, event: WatchEventView)
    ensures
        ({
            let lines = watched(chain, event).0;
            let connecting = seq![
                (Tint::Yellow, "🔌"@),
                (
                    Tint::Plain,
                    " ["@ + crate::text::upper(chain.name) + "] "@ + "Connecting mempool WS..."@,
                ),
            ];
            let live = seq![
                (Tint::Green, "✅"@),
                (Tint::Plain, " ["@ + crate::text::upper(chain.name) + "] "@ + "Mempool live!"@),
            ];
            let lost = seq![
                (Tint::Yellow, "🔌"@),
                (
                    Tint::Plain,
                    " ["@ + crate::text::upper(chain.name) + "] "@
                        + "WS disconnected — retry in 5s"@,
                ),
            ];
            match event {
                WatchEventView::Begun | WatchEventView::Rested => lines == seq![connecting],
                WatchEventView::Connected(Ok(_)) => lines == seq![live],
                WatchEventView::Connected(Err(message)) => lines == seq![
                    seq![(Tint::Yellow, "⚠️"@), (Tint::Plain, " WS connect error: "@ + message)],
                    lost,
                ],
                WatchEventView::Subscribed(Ok(_)) => lines.len() == 0,
                WatchEventView::Subscribed(Err(message)) => lines == seq![
                    seq![(Tint::Yellow, "⚠️"@), (Tint::Plain, " Subscribe error: "@ + message)],
                    lost,
                ],
                WatchEventView::Ended => lines == seq![lost],
            }
        }),
{
    reveal_strlit(" ");
    reveal_strlit(" error: ");
    reveal_strlit("WS connect");
    reveal_strlit("Subscribe");
    reveal_strlit(" WS connect error: ");
    reveal_strlit(" Subscribe error: ");
    assert(" "@ + "WS connect"@ + " error: "@ =~= " WS connect error: "@);
    assert(" "@ + "Subscribe"@ + " error: "@ =~= " Subscribe error: "@);
}

} // verus!
