use boi_sniper::announce::{
    arrivals_headers, banner, heartbeat_line, poller_line, startup_message, telegram, title,
};
use boi_sniper::chain::{find_chain, Chain};
use boi_sniper::console::{Line, Tint};
use boi_sniper::hexcode::parse_address;
use boi_sniper::order::{Order, Source};
use boi_sniper::purchase::{Event, Outcome, Purchase, Request, Settlement, Stage};
use boi_sniper::wei::Wei;

const KEY: &str = "4c0883a69102937d6231471b5dbb6204fe5129617082792ae468d01a3f362318";
const WALLET: &str = "0xdeadbeef00112233445566778899aabbccddeeff";
const COIN: u128 = 1_000_000_000_000_000_000;
const HOLDER: [u8; 20] = [9; 20];

fn text(line: &Line) -> String {
    line.spans.iter().map(|span| span.text.as_str()).collect()
}

fn texts(lines: &[Line]) -> Vec<String> {
    lines.iter().map(text).collect()
}

fn order(wallet: &str) -> Order {
    Order {
        username: "bear".to_string(),
        wallet: wallet.to_string(),
        chain: find_chain("avalanche").unwrap(),
        source: Source::Api,
    }
}

fn opened(wallet: &str, key: &str) -> Purchase {
    Purchase::open(order(wallet), key.to_string()).0
}

fn quoting() -> Purchase {
    let mut purchase = opened(WALLET, KEY);
    purchase.advance(Event::Connected(Ok(())));
    purchase.advance(Event::Prepared(HOLDER));
    purchase
}

fn funding(price: u128) -> Purchase {
    let mut purchase = quoting();
    purchase.advance(Event::Quoted(Ok(Wei::from_u128(price))));
    purchase
}

fn settling(price: u128) -> Purchase {
    let mut purchase = funding(price);
    purchase.advance(Event::Funded(Ok(Wei { limbs: [0, 0, 1, 0] })));
    purchase.advance(Event::Sent(Ok([0xab; 32])));
    purchase
}

fn assert_over(purchase: &Purchase, outcome: &Outcome, line: &str) {
    assert!(matches!(purchase.stage, Stage::Closed));
    assert!(outcome.request.is_none());
    assert_eq!(texts(&outcome.lines), [line]);
}

#[test]
fn opening_announces_and_connects() {
    let (purchase, outcome) = Purchase::open(order(WALLET), KEY.to_string());
    assert!(matches!(purchase.stage, Stage::Connecting));
    assert_eq!(texts(&outcome.lines), ["⚡ [API] @bear on AVALANCHE — firing!"]);
    let spans = &outcome.lines[0].spans;
    assert_eq!(spans[0].tint, Tint::Yellow);
    assert_eq!(spans[2].tint, Tint::Cyan);
    assert_eq!(spans[2].text, "AVALANCHE");
    assert!(outcome.message.is_none());
    assert!(matches!(
        outcome.request,
        Some(Request::Connect { url: "https://api.avax.network/ext/bc/C/rpc" })
    ));
}

#[test]
fn provider_error_ends_it() {
    let mut purchase = opened(WALLET, KEY);
    let outcome = purchase.advance(Event::Connected(Err("bad url".to_string())));
    assert_over(&purchase, &outcome, "❌ Provider error: bad url");
    assert!(outcome.message.is_none());
    assert_eq!(outcome.lines[0].spans[0].tint, Tint::Red);
}

#[test]
fn unreadable_keys_end_it() {
    let order_of_curve = "fffffffffffffffffffffffffffffffebaaedce6af48a03bbfd25e8cd0364141";
    let zero = "0000000000000000000000000000000000000000000000000000000000000000";
    for key in ["", "xyz", &KEY[1..], &KEY[2..], order_of_curve, zero, &format!("{KEY}00")] {
        let mut purchase = opened(WALLET, key);
        let outcome = purchase.advance(Event::Connected(Ok(())));
        assert!(matches!(purchase.stage, Stage::Closed), "{key}");
        assert!(text(&outcome.lines[0]).starts_with("❌ Wallet error: "), "{key}");
        assert!(text(&outcome.lines[0]).len() > "❌ Wallet error: ".len(), "{key}");
    }
}

#[test]
fn readable_keys_go_on() {
    let below_order = "fffffffffffffffffffffffffffffffebaaedce6af48a03bbfd25e8cd0364140";
    let keys = [
        KEY.to_string(),
        KEY.to_uppercase(),
        format!("0x{KEY}"),
        format!("0X{KEY}"),
        format!("0X0x{KEY}"),
        format!("0X0X{KEY}"),
        below_order.to_string(),
    ];
    for key in &keys {
        let mut purchase = opened(WALLET, key);
        let outcome = purchase.advance(Event::Connected(Ok(())));
        assert!(outcome.lines.is_empty(), "{key}");
        assert!(matches!(outcome.request, Some(Request::Prepare { chain_id: 43114 })), "{key}");
    }
    for key in [format!("0x0x{KEY}"), format!("0x0X{KEY}")] {
        let mut purchase = opened(WALLET, &key);
        purchase.advance(Event::Connected(Ok(())));
        assert!(matches!(purchase.stage, Stage::Closed), "{key}");
    }
}

#[test]
fn unreadable_wallet_ends_it() {
    let mut purchase = opened("0x12", KEY);
    let outcome = purchase.advance(Event::Connected(Ok(())));
    assert_over(&purchase, &outcome, "❌ Address error: Invalid input length");
}

#[test]
fn key_is_read_before_the_wallet() {
    let mut purchase = opened("0x12", "no key");
    let outcome = purchase.advance(Event::Connected(Ok(())));
    assert!(text(&outcome.lines[0]).starts_with("❌ Wallet error: "));
}

#[test]
fn price_is_asked_for() {
    let mut purchase = opened(WALLET, KEY);
    purchase.advance(Event::Connected(Ok(())));
    let outcome = purchase.advance(Event::Prepared(HOLDER));
    assert!(outcome.lines.is_empty());
    match outcome.request {
        Some(Request::Quote { contract, subject, amount }) => {
            assert_eq!(contract, parse_address(purchase.order.chain.contract).unwrap());
            assert_eq!(subject, parse_address(WALLET).unwrap());
            assert_eq!(amount, 100);
        }
        other => panic!("{other:?}"),
    }
}

#[test]
fn written_wallet_pays() {
    let mine = "0x0909090909090909090909090909090909090909";
    for text in [mine, &mine[2..]] {
        let mut purchase = opened(WALLET, KEY);
        purchase.advance(Event::Connected(Ok(())));
        let outcome = purchase.prepare(text);
        assert!(outcome.lines.is_empty() && outcome.message.is_none());
        let subject = parse_address(WALLET).unwrap();
        match outcome.request {
            Some(Request::Quote { subject: asked, amount, .. }) => {
                assert_eq!(asked, subject);
                assert_eq!(amount, 100);
            }
            other => panic!("{other:?}"),
        }
        assert!(matches!(
            purchase.stage,
            Stage::Quoting { subject: s, holder: HOLDER } if s == subject
        ));
        let outcome = purchase.advance(Event::Quoted(Ok(Wei::from_u128(COIN))));
        assert!(matches!(outcome.request, Some(Request::Balance { holder: HOLDER })));
        let outcome = purchase.advance(Event::Funded(Ok(Wei::from_u128(2 * COIN))));
        assert!(matches!(outcome.request, Some(Request::Send { holder: HOLDER, .. })));
    }
}

#[test]
fn contract_is_not_read_before_the_key() {
    let nowhere = Chain { contract: "nowhere", ..find_chain("bsc").unwrap() };
    let open = |key: &str| {
        let order = Order { chain: nowhere, ..order(WALLET) };
        Purchase::open(order, key.to_string()).0
    };
    let mut purchase = open(KEY);
    let outcome = purchase.advance(Event::Connected(Err("bad url".to_string())));
    assert_over(&purchase, &outcome, "❌ Provider error: bad url");
    let mut purchase = open("not a key");
    let outcome = purchase.advance(Event::Connected(Ok(())));
    assert!(matches!(purchase.stage, Stage::Closed));
    assert!(outcome.request.is_none());
    assert!(text(&outcome.lines[0]).starts_with("❌ Wallet error: "));
}

#[test]
fn price_error_ends_it() {
    let mut purchase = quoting();
    let outcome = purchase.advance(Event::Quoted(Err("reverted".to_string())));
    assert_over(&purchase, &outcome, "❌ Price error: reverted");
}

#[test]
fn price_is_shown() {
    let mut purchase = quoting();
    let outcome = purchase.advance(Event::Quoted(Ok(Wei::from_u128(COIN / 2))));
    assert_eq!(texts(&outcome.lines), ["💰 Price: 0.500000000000000000 AVAX"]);
    assert_eq!(outcome.lines[0].spans[0].tint, Tint::Green);
    assert!(matches!(outcome.request, Some(Request::Balance { holder: HOLDER })));
}

#[test]
fn balance_error_ends_it() {
    let mut purchase = funding(COIN);
    let outcome = purchase.advance(Event::Funded(Err("down".to_string())));
    assert_over(&purchase, &outcome, "❌ Balance error: down");
}

#[test]
fn low_balance_is_reported() {
    let mut purchase = funding(COIN);
    let outcome = purchase.advance(Event::Funded(Ok(Wei::from_u128(1_149_999_999_999_999_871))));
    assert_over(&purchase, &outcome, "❌ Insufficient balance: 1.149999999999999871 AVAX");
    assert_eq!(
        outcome.message.unwrap(),
        "❌ Low balance on AVALANCHE!\nNeed: 1.000000000000000000 AVAX\nHave: 1.149999999999999871 AVAX"
    );
}

#[test]
fn covered_purchase_is_sent() {
    for balance in [Wei::from_u128(1_149_999_999_999_999_872), Wei { limbs: [0, 0, 0, 1] }] {
        let mut purchase = funding(COIN);
        let outcome = purchase.advance(Event::Funded(Ok(balance)));
        assert!(outcome.lines.is_empty());
        assert!(outcome.message.is_none());
        match outcome.request {
            Some(Request::Send { contract, subject, holder, amount, value, gas }) => {
                assert_eq!(contract, parse_address(purchase.order.chain.contract).unwrap());
                assert_eq!(subject, parse_address(WALLET).unwrap());
                assert_eq!(holder, HOLDER);
                assert_eq!(amount, 100);
                assert_eq!(value, 1_149_999_999_999_999_872);
                assert_eq!(gas, 250_000);
            }
            other => panic!("{other:?}"),
        }
    }
}

#[test]
fn send_error_ends_it() {
    let mut purchase = funding(COIN);
    purchase.advance(Event::Funded(Ok(Wei::from_u128(2 * COIN))));
    let outcome = purchase.advance(Event::Sent(Err("nonce".to_string())));
    assert_over(&purchase, &outcome, "❌ Send error: nonce");
}

#[test]
fn transaction_is_linked() {
    let mut purchase = funding(COIN);
    purchase.advance(Event::Funded(Ok(Wei::from_u128(2 * COIN))));
    let mut hash = [0u8; 32];
    hash[0] = 0x0a;
    hash[31] = 0xf0;
    let outcome = purchase.advance(Event::Sent(Ok(hash)));
    assert_eq!(
        texts(&outcome.lines),
        ["📡 TX: https://snowtrace.io/tx/0x0a000000000000000000000000000000000000000000000000000000000000f0"]
    );
    assert_eq!(outcome.lines[0].spans[0].tint, Tint::Blue);
    assert!(matches!(outcome.request, Some(Request::Settle)));
}

#[test]
fn success_is_reported() {
    let mut purchase = settling(COIN);
    let outcome = purchase.advance(Event::Settled(Settlement::Mined {
        status: Some(1),
        elapsed_ms: 1234,
        now: "2026-01-02 03:04 PM".to_string(),
    }));
    assert_over(&purchase, &outcome, "✅ Sniped @bear on AVALANCHE! 1234ms");
    let hash = "ab".repeat(32);
    assert_eq!(
        outcome.message.unwrap(),
        format!(
            "🎯 <b>Sniped @bear!</b>\n\n\
             ⛓️ AVALANCHE\n\
             📡 Source: API\n\
             💰 Paid: 1.000000000000000000 AVAX\n\
             ⚡ 1234ms\n\
             🕐 2026-01-02 03:04 PM\n\
             🔗 https://snowtrace.io/tx/0x{hash}"
        )
    );
}

#[test]
fn revert_is_reported() {
    for status in [Some(0), None, Some(2)] {
        let mut purchase = settling(COIN);
        let outcome = purchase.advance(Event::Settled(Settlement::Mined {
            status,
            elapsed_ms: 1,
            now: String::new(),
        }));
        assert_over(&purchase, &outcome, "❌ TX reverted for @bear");
        let hash = "ab".repeat(32);
        assert_eq!(
            outcome.message.unwrap(),
            format!("❌ <b>Reverted @bear</b>\n⛓️ AVALANCHE\n🔗 https://snowtrace.io/tx/0x{hash}")
        );
    }
}

#[test]
fn missing_receipt_is_shown() {
    let mut purchase = settling(COIN);
    let outcome = purchase.advance(Event::Settled(Settlement::Missing));
    assert_over(&purchase, &outcome, "⚠️ Receipt timeout for @bear");
    assert!(outcome.message.is_none());
    assert_eq!(outcome.lines[0].spans[0].tint, Tint::Yellow);
}

#[test]
fn whole_purchase_sends_once_and_reports_last() {
    let (mut purchase, opening) = Purchase::open(order(WALLET), KEY.to_string());
    let events = vec![
        Event::Connected(Ok(())),
        Event::Prepared(HOLDER),
        Event::Quoted(Ok(Wei::from_u128(COIN))),
        Event::Funded(Ok(Wei::from_u128(2 * COIN))),
        Event::Sent(Ok([1; 32])),
        Event::Settled(Settlement::Mined { status: Some(1), elapsed_ms: 5, now: "now".to_string() }),
    ];
    let mut outcomes = vec![opening];
    for event in events {
        outcomes.push(purchase.advance(event));
    }
    let sends = outcomes.iter().filter(|o| matches!(o.request, Some(Request::Send { .. }))).count();
    assert_eq!(sends, 1);
    assert!(matches!(outcomes[4].request, Some(Request::Send { .. })));
    for outcome in &outcomes[..6] {
        assert!(outcome.message.is_none());
        assert!(outcome.request.is_some());
    }
    assert!(outcomes[6].message.is_some());
    assert!(outcomes[6].request.is_none());
    assert!(matches!(purchase.stage, Stage::Closed));
}

#[test]
fn source_labels() {
    assert_eq!(Source::Mempool.text(), "MEMPOOL");
    assert_eq!(Source::Api.text(), "API");
}

#[test]
fn telegram_is_addressed() {
    let message = telegram("42:abc", "-100", "hello");
    assert_eq!(message.url, "https://api.telegram.org/bot42:abc/sendMessage");
    assert_eq!(message.chat_id, "-100");
    assert_eq!(message.text, "hello");
    assert_eq!(message.parse_mode, "HTML");
}

#[test]
fn headers_of_the_poll() {
    let headers = arrivals_headers("a=b");
    assert_eq!(headers[0], ("cookie".to_string(), "a=b".to_string()));
    assert_eq!(headers[1], ("referer".to_string(), "https://www.boithebear.com/".to_string()));
    assert_eq!(headers[2], ("user-agent".to_string(), "Mozilla/5.0 Chrome/147.0.0.0".to_string()));
    assert_eq!(headers.len(), 3);
}

#[test]
fn startup() {
    assert_eq!(
        startup_message(WALLET),
        format!(
            "🦀 <b>BOI Rust Sniper v1.0 live!</b>\n\n\
             ⛓️ AVALANCHE + BSC\n\
             🔭 Mempool + API\n\
             💳 <code>{WALLET}</code>"
        )
    );
    assert_eq!(
        texts(&title()),
        [
            "╔═══════════════════════════════════════╗",
            "║   BOI THE BEAR — RUST SNIPER v1.0    ║",
            "╠═══════════════════════════════════════╣",
        ]
    );
    assert_eq!(title()[1].spans[0].tint, Tint::CyanBold);
    assert_eq!(
        texts(&banner(WALLET)),
        [
            "║  💳 0xdeadbeef0011223344",
            "║  ⛓️  AVALANCHE + BSC",
            "║  🔭 Mempool WS + API fallback",
            "║  💣 100 units per snipe",
            "║  🛡️  14% slippage",
            "╚═══════════════════════════════════════╝",
            "",
        ]
    );
    assert_eq!(text(&poller_line()), "🌐 API poller started");
    assert_eq!(text(&heartbeat_line()), "💓 alive");
}

#[test]
fn banner_cuts_at_twenty_bytes() {
    let lines = banner("ééééééééééxx");
    assert_eq!(text(&lines[0]), "║  💳 éééééééééé");
    let lines = banner("12345678901234567890");
    assert_eq!(text(&lines[0]), "║  💳 12345678901234567890");
}
