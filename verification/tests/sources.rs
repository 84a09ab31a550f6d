use boi_sniper::chain::{chains, find_chain, Chain};
use boi_sniper::console::{Line, Tint};
use boi_sniper::hexcode::parse_address;
use boi_sniper::mempool::{follow, sight, BUY_SELECTOR};
use boi_sniper::order::{Fired, Source};
use boi_sniper::poller::{Poller, User};
use boi_sniper::watcher::{watch, WatchEvent, WatchRequest};

fn text(line: &Line) -> String {
    line.spans.iter().map(|span| span.text.as_str()).collect()
}

fn texts(lines: &[Line]) -> Vec<String> {
    lines.iter().map(text).collect()
}

fn avalanche() -> Chain {
    find_chain("avalanche").unwrap()
}

fn contract_of(chain: &Chain) -> [u8; 20] {
    parse_address(chain.contract).unwrap()
}

fn call(selector: [u8; 4], subject: [u8; 20]) -> Vec<u8> {
    let mut input = selector.to_vec();
    input.extend([0u8; 12]);
    input.extend(subject);
    input.extend([7u8; 64]);
    input
}

fn user(id: &str, wallet: Option<&str>, chain: Option<&str>) -> User {
    User {
        id: id.to_string(),
        username: format!("user-{id}"),
        wallet_address: wallet.map(|w| w.to_string()),
        selected_chain: chain.map(|c| c.to_string()),
    }
}

const SUBJECT: [u8; 20] = [
    0xde, 0xad, 0xbe, 0xef, 0x00, 0x11, 0x22, 0x33, 0x44, 0x55, 0x66, 0x77, 0x88, 0x99, 0xaa, 0xbb,
    0xcc, 0xdd, 0xee, 0xff,
];
const SUBJECT_TEXT: &str = "0xdeadbeef00112233445566778899aabbccddeeff";
const SELECTOR: [u8; 4] = [0xdd, 0x06, 0xf6, 0xbd];

#[test]
fn supported_chains() {
    let list = chains();
    assert_eq!(list.len(), 2);
    assert_eq!(list[0].name, "avalanche");
    assert_eq!(list[0].chain_id, 43114);
    assert_eq!(list[0].symbol, "AVAX");
    assert_eq!(list[1].name, "bsc");
    assert_eq!(list[1].chain_id, 56);
    assert_eq!(list[1].http, "https://go.getblock.asia/d8ef98407a514636b4c0daad4fc714fd");
    assert_eq!(find_chain("bsc").unwrap().symbol, "BNB");
    assert!(find_chain("BSC").is_none());
    assert!(find_chain("").is_none());
    for chain in &list {
        assert!(parse_address(chain.contract).is_ok());
    }
}

#[test]
fn addresses() {
    assert_eq!(parse_address(SUBJECT_TEXT).unwrap(), SUBJECT);
    assert_eq!(parse_address(&SUBJECT_TEXT[2..]).unwrap(), SUBJECT);
    assert_eq!(parse_address("0xDEADBEEF00112233445566778899AABBCCDDEEFF").unwrap(), SUBJECT);
    assert_eq!(parse_address("0xdeadbeef 0011223344\t5566778899aabbccddeeff\r\n").unwrap(), SUBJECT);
    assert!(parse_address("0XDEADBEEF00112233445566778899AABBCCDDEEFF").is_err());
    assert!(parse_address(" 0xdeadbeef00112233445566778899aabbccddeeff").is_err());
    assert!(parse_address("").is_err());
    assert!(parse_address("é").is_err());
    assert_eq!(parse_address(&SUBJECT_TEXT[..41]).unwrap_err(), "Invalid input length");
    assert_eq!(parse_address(&format!("{SUBJECT_TEXT}0")).unwrap_err(), "Invalid input length");
    assert_eq!(
        parse_address("0xdeadbeeg00112233445566778899aabbccddeeff").unwrap_err(),
        "Invalid character 'g' at position 7"
    );
}

#[test]
fn unreadable_addresses_are_explained() {
    let digits = &SUBJECT_TEXT[2..];
    let length = "Invalid input length";
    for (text, message) in [
        (String::new(), length),
        ("0x".to_string(), length),
        (" \t\r\n".to_string(), length),
        (digits[..39].to_string(), length),
        (format!("{digits}g"), length),
        (format!("{digits} 0g"), length),
        (format!("{}g", &digits[..39]), "Invalid character 'g' at position 39"),
        (format!("0x{}g", &digits[..39]), "Invalid character 'g' at position 39"),
        (format!("0x {}é", &digits[..4]), "Invalid character 'é' at position 5"),
        (format!("0xzé{digits}"), "Invalid character 'z' at position 0"),
        (format!("0X{digits}"), "Invalid character 'X' at position 1"),
        (format!("0x0x{digits}"), "Invalid character 'x' at position 1"),
        ("é".to_string(), "Invalid character 'é' at position 0"),
    ] {
        assert_eq!(parse_address(&text).unwrap_err(), message, "{text:?}");
    }
}

#[test]
fn purchase_in_the_mempool_is_followed() {
    let chain = avalanche();
    let seen = sight(&chain, Some(contract_of(&chain)), &call(SELECTOR, SUBJECT)).unwrap();
    assert_eq!(seen.order.wallet, SUBJECT_TEXT);
    assert_eq!(seen.order.username, "0xdeadbeef");
    assert_eq!(seen.order.chain.name, "avalanche");
    assert_eq!(seen.order.source, Source::Mempool);
    assert_eq!(text(&seen.line), "🔭 [AVALANCHE] Mempool: 0xdeadbeef00");
    assert_eq!(seen.line.spans[0].tint, Tint::Yellow);
    assert_eq!(parse_address(&seen.order.wallet).unwrap(), SUBJECT);
}

#[test]
fn other_transactions_are_not_followed() {
    let chain = avalanche();
    let contract = contract_of(&chain);
    let other = contract_of(&find_chain("bsc").unwrap());
    let input = call(SELECTOR, SUBJECT);
    assert_eq!(BUY_SELECTOR, "dd06f6bd");
    assert!(sight(&chain, None, &input).is_none());
    assert!(sight(&chain, Some(other), &input).is_none());
    assert!(sight(&chain, Some(contract), &call([0xdd, 0x06, 0xf6, 0xbc], SUBJECT)).is_none());
    assert!(sight(&chain, Some(contract), &[]).is_none());
    assert!(sight(&chain, Some(contract), &input[..4]).is_none());
    assert!(sight(&chain, Some(contract), &input[..35]).is_none());
    assert!(sight(&chain, Some(contract), &input[..36]).is_some());
}

#[test]
fn case_of_the_contract_does_not_matter() {
    let chain = avalanche();
    let contract = contract_of(&chain);
    let loud = Chain { contract: "0x2FEC21938E4D11117BDA59A5FE880C1D0AE54A7F", ..chain };
    let quiet = Chain { contract: "0x2fec21938e4d11117bda59a5fe880c1d0ae54a7f", ..chain };
    for c in [loud, quiet] {
        assert!(sight(&c, Some(contract), &call(SELECTOR, SUBJECT)).is_some());
    }
}

#[test]
fn missing_target_is_an_empty_text() {
    let nowhere = Chain { contract: "", ..avalanche() };
    let input = call(SELECTOR, SUBJECT);
    let seen = sight(&nowhere, None, &input).unwrap();
    assert_eq!(seen.order.wallet, SUBJECT_TEXT);
    assert!(sight(&nowhere, Some(SUBJECT), &input).is_none());
    assert!(sight(&nowhere, None, &input[..35]).is_none());
}

#[test]
fn sighting_is_followed_once() {
    let chain = avalanche();
    let mut fired = Fired::new();
    let input = call(SELECTOR, SUBJECT);
    let look = || sight(&chain, Some(contract_of(&chain)), &input).unwrap();
    let order = follow(&mut fired, look()).unwrap();
    assert_eq!(order.wallet, SUBJECT_TEXT);
    assert_eq!(order.username, "0xdeadbeef");
    assert_eq!(order.source, Source::Mempool);
    assert!(follow(&mut fired, look()).is_none());

    let bsc = find_chain("bsc").unwrap();
    let seen = sight(&bsc, Some(contract_of(&bsc)), &input).unwrap();
    assert!(follow(&mut fired, seen).is_none());

    let other = sight(&bsc, Some(contract_of(&bsc)), &call(SELECTOR, [1; 20])).unwrap();
    assert_eq!(
        follow(&mut fired, other).unwrap().wallet,
        "0x0101010101010101010101010101010101010101"
    );
}

#[test]
fn several_purchases_of_one_subject_lead_to_one_order() {
    for first in chains() {
        let mut fired = Fired::new();
        let mut wallets: Vec<String> = Vec::new();
        for round in 0u8..4 {
            for chain in [first, avalanche(), find_chain("bsc").unwrap()] {
                for subject in [SUBJECT, [round; 20]] {
                    let input = call(SELECTOR, subject);
                    let seen = sight(&chain, Some(contract_of(&chain)), &input).unwrap();
                    if let Some(order) = follow(&mut fired, seen) {
                        assert_eq!(order.chain.name, first.name);
                        wallets.push(order.wallet);
                    }
                }
            }
        }
        assert_eq!(wallets.len(), 5);
        assert_eq!(wallets.iter().filter(|wallet| *wallet == SUBJECT_TEXT).count(), 1);
    }
}

#[test]
fn seeded_wallet_is_not_followed() {
    let chain = avalanche();
    let mut poller = Poller::new();
    let mut fired = Fired::new();
    let loud = "0xDEADBEEF00112233445566778899AABBCCDDEEFF";
    poller.digest(&mut fired, &vec![user("x", Some(loud), Some("solana"))]);
    let seen = sight(&chain, Some(contract_of(&chain)), &call(SELECTOR, SUBJECT)).unwrap();
    assert!(follow(&mut fired, seen).is_none());
}

#[test]
fn followed_subject_stays_skipped_across_a_loss() {
    let chain = avalanche();
    let mut fired = Fired::new();
    let input = call(SELECTOR, SUBJECT);
    let seen = sight(&chain, Some(contract_of(&chain)), &input).unwrap();
    assert!(follow(&mut fired, seen).is_some());
    for event in [WatchEvent::Ended, WatchEvent::Rested, WatchEvent::Connected(Ok(()))] {
        watch(&chain, event);
    }
    let seen = sight(&chain, Some(contract_of(&chain)), &input).unwrap();
    assert!(follow(&mut fired, seen).is_none());
}

#[test]
fn wallet_is_claimed_once() {
    let mut fired = Fired::new();
    assert!(fired.claim("0xABcd"));
    assert!(!fired.claim("0xABcd"));
    assert!(!fired.claim("0xabCD"));
    assert!(fired.claim("0xabce"));
    assert!(fired.claim("ÉΣ"));
    assert!(!fired.claim("éς"));
}

#[test]
fn first_answer_seeds() {
    let mut poller = Poller::new();
    let mut fired = Fired::new();
    let users = vec![
        user("1", Some("0xAA"), Some("bsc")),
        user("2", None, None),
        user("1", Some("0xBB"), Some("bsc")),
    ];
    let digest = poller.digest(&mut fired, &users);
    assert!(digest.orders.is_empty());
    assert_eq!(texts(&digest.lines), ["🌱 Seeded 2 users"]);
    assert!(!fired.claim("0xaa"));
    assert!(!fired.claim("0xbb"));
    assert!(fired.claim("0xcc"));
}

#[test]
fn later_answers_are_bought_from() {
    let mut poller = Poller::new();
    let mut fired = Fired::new();
    poller.digest(&mut fired, &vec![user("old", Some("0xAA"), Some("bsc"))]);
    let users = vec![
        user("old", Some("0xEE"), Some("bsc")),
        user("a", Some("0xaa"), Some("BSC")),
        user("b", Some("0xBb"), Some("Avalanche")),
        user("c", Some("0xCC"), Some("Solana")),
        user("d", Some("0xDD"), None),
        user("e", None, Some("bsc")),
        user("f", Some("0xbB"), Some("bsc")),
    ];
    let digest = poller.digest(&mut fired, &users);
    assert_eq!(digest.orders.len(), 1);
    let order = &digest.orders[0];
    assert_eq!(order.username, "user-b");
    assert_eq!(order.wallet, "0xBb");
    assert_eq!(order.chain.name, "avalanche");
    assert_eq!(order.source, Source::Api);
    assert_eq!(
        texts(&digest.lines),
        [
            "🆕 [API] @user-a | bsc",
            "🆕 [API] @user-b | avalanche",
            "🆕 [API] @user-c | solana",
            "⏭️ Chain 'solana' not supported",
            "🆕 [API] @user-d | ",
            "⏭️ Chain '' not supported",
            "🆕 [API] @user-f | bsc",
        ]
    );

    let again = poller.digest(&mut fired, &users);
    assert!(again.lines.is_empty());
    assert!(again.orders.is_empty());
}

#[test]
fn known_users_are_met_with_silence() {
    let mut poller = Poller::new();
    let mut fired = Fired::new();
    poller.digest(&mut fired, &vec![user("1", Some("0xAA"), Some("bsc")), user("2", None, None)]);
    let changed = vec![user("2", Some("0xBB"), Some("bsc")), user("1", Some("0xCC"), Some("bsc"))];
    let digest = poller.digest(&mut fired, &changed);
    assert!(digest.lines.is_empty());
    assert!(digest.orders.is_empty());
    assert!(fired.claim("0xbb"));
    assert!(fired.claim("0xcc"));
}

#[test]
fn only_ordered_wallets_are_taken_on() {
    let mut poller = Poller::new();
    let mut fired = Fired::new();
    poller.digest(&mut fired, &vec![]);
    let users = vec![user("1", Some("0xAA"), Some("bsc")), user("2", Some("0xBB"), Some("tron"))];
    assert_eq!(poller.digest(&mut fired, &users).orders.len(), 1);
    assert!(!fired.claim("0xaa"));
    assert!(fired.claim("0xbb"));
}

#[test]
fn sources_share_the_wallets() {
    let chain = avalanche();
    let mut poller = Poller::new();
    let mut fired = Fired::new();
    poller.digest(&mut fired, &vec![]);
    let seen = sight(&chain, Some(contract_of(&chain)), &call(SELECTOR, SUBJECT)).unwrap();
    assert!(follow(&mut fired, seen).is_some());
    let loud = "0xDEADBEEF00112233445566778899AABBCCDDEEFF";
    let digest = poller.digest(&mut fired, &vec![user("x", Some(loud), Some("avalanche"))]);
    assert_eq!(texts(&digest.lines), ["🆕 [API] @user-x | avalanche"]);
    assert!(digest.orders.is_empty());

    let fresh = "0x00000000000000000000000000000000000000AB";
    let digest = poller.digest(&mut fired, &vec![user("y", Some(fresh), Some("avalanche"))]);
    assert_eq!(digest.orders.len(), 1);
    assert!(!fired.claim(&fresh.to_lowercase()));
}

#[test]
fn watcher_steps() {
    let chain = find_chain("bsc").unwrap();
    let begun = watch(&chain, WatchEvent::Begun);
    assert_eq!(texts(&begun.lines), ["🔌 [BSC] Connecting mempool WS..."]);
    assert!(matches!(begun.request, WatchRequest::Connect { url: "wss://bsc-rpc.publicnode.com" }));

    let live = watch(&chain, WatchEvent::Connected(Ok(())));
    assert_eq!(texts(&live.lines), ["✅ [BSC] Mempool live!"]);
    assert_eq!(live.lines[0].spans[0].tint, Tint::Green);
    assert!(matches!(live.request, WatchRequest::Subscribe));

    let reading = watch(&chain, WatchEvent::Subscribed(Ok(())));
    assert!(reading.lines.is_empty());
    assert!(matches!(reading.request, WatchRequest::Read));
}

#[test]
fn watcher_pauses_after_a_loss() {
    let chain = avalanche();
    let lost = "🔌 [AVALANCHE] WS disconnected — retry in 5s";
    let step = watch(&chain, WatchEvent::Connected(Err("refused".to_string())));
    assert_eq!(texts(&step.lines), ["⚠️ WS connect error: refused", lost]);
    assert!(matches!(step.request, WatchRequest::Pause { seconds: 5 }));
    let step = watch(&chain, WatchEvent::Subscribed(Err("no".to_string())));
    assert_eq!(texts(&step.lines), ["⚠️ Subscribe error: no", lost]);
    assert!(matches!(step.request, WatchRequest::Pause { seconds: 5 }));
    let step = watch(&chain, WatchEvent::Ended);
    assert_eq!(texts(&step.lines), [lost]);
    assert!(matches!(step.request, WatchRequest::Pause { seconds: 5 }));
}

#[test]
fn watcher_connects_again_after_the_pause() {
    for chain in chains() {
        let begun = watch(&chain, WatchEvent::Begun);
        let rested = watch(&chain, WatchEvent::Rested);
        assert_eq!(texts(&rested.lines), texts(&begun.lines));
        match rested.request {
            WatchRequest::Connect { url } => assert_eq!(url, chain.ws),
            other => panic!("{other:?}"),
        }
    }
}
