//! What the bot says about itself, and how its messages are addressed.

use vstd::prelude::*;
use vstd::string::*;

use crate::console::{Line, Tint};
use crate::purchase::SHARE_AMOUNT;
use crate::slippage::slippage_percent;
use crate::text::decimal;

verus! {

/// Where new arrivals are reported.
pub const BOI_API: &'static str = "https://www.boithebear.com/api/socialfi/new-arrivals?limit=20&offset=0&userId=562acdb3-50d7-49aa-86d4-1b778da6ca12";

/// The `referer` header of a request for new arrivals.
pub const REFERER: &'static str = "https://www.boithebear.com/";

/// The `user-agent` header of a request for new arrivals.
pub const USER_AGENT: &'static str = "Mozilla/5.0 Chrome/147.0.0.0";

/// Milliseconds between two requests for new arrivals.
pub const POLL_MILLIS: u64 = 500;

/// Seconds between two signs of life.
pub const HEARTBEAT_SECONDS: u64 = 60;

/// Seconds after which a web request is given up.
pub const TIMEOUT_SECONDS: u64 = 15;

/// Bytes of the own wallet that the banner shows.
pub const WALLET_HEAD: usize = 20;

/// A message to the operator, as the Telegram interface takes it.
#[derive(Debug)]
pub struct Telegram {
    pub url: String,
    pub chat_id: String,
    pub text: String,
    pub parse_mode: &'static str,
}

/// Addresses `text` to the operator's chat.
pub fn telegram(token: &str, chat_id: &str, text: &str) -> (message: Telegram)
    ensures
        message.url@ == "https://api.telegram.org/bot"@ + token@ + "/sendMessage"@,
        message.chat_id@ == chat_id@,
        message.text@ == text@,
        message.parse_mode@ == "HTML"@,
{
    let mut url = String::from_str("https://api.telegram.org/bot");
    url.append(token);
    url.append("/sendMessage");
    Telegram {
        url,
        chat_id: String::from_str(chat_id),
        text: String::from_str(text),
        parse_mode: "HTML",
    }
}

/// The headers of a request for new arrivals, in order.
pub fn arrivals_headers(cookie: &str) -> (headers: Vec<(String, String)>)
    ensures
        headers@.len() == 3,
        headers@[0].0@ == "cookie"@ && headers@[0].1@ == cookie@,
        headers@[1].0@ == "referer"@ && headers@[1].1@ == REFERER@,
        headers@[1].1@ == "https://www.boithebear.com/"@,
        headers@[2].0@ == "user-agent"@ && headers@[2].1@ == USER_AGENT@,
        headers@[2].1@ == "Mozilla/5.0 Chrome/147.0.0.0"@,
{
    let mut headers: Vec<(String, String)> = Vec::new();
    headers.push((String::from_str("cookie"), String::from_str(cookie)));
    headers.push((String::from_str("referer"), String::from_str(REFERER)));
    headers.push((String::from_str("user-agent"), String::from_str(USER_AGENT)));
    headers
}

/// The message that the bot starts with.
pub fn startup_message(my_wallet: &str) -> (text: String)
    ensures
        text@
            == "🦀 <b>BOI Rust Sniper v1.0 live!</b>\n\n⛓️ AVALANCHE + BSC\n🔭 Mempool + API\n💳 <code>"@
            + my_wallet@ + "</code>"@,
{
    let mut text = String::from_str(
        "🦀 <b>BOI Rust Sniper v1.0 live!</b>\n\n⛓️ AVALANCHE + BSC\n🔭 Mempool + API\n💳 <code>",
    );
    text.append(my_wallet);
    text.append("</code>");
    text
}

/// The first bytes of the own wallet, as text.
pub open spec fn wallet_head(my_wallet: Seq<char>) -> Seq<char> {
    vstd::utf8::decode_utf8(vstd::utf8::encode_utf8(my_wallet).subrange(0, WALLET_HEAD as int))
}

/// The title that the bot starts with.
pub open spec fn title_lines() -> Seq<Seq<(Tint, Seq<char>)>> {
    seq![
        seq![(Tint::Cyan, "╔═══════════════════════════════════════╗"@)],
        seq![(Tint::CyanBold, "║   BOI THE BEAR — RUST SNIPER v1.0    ║"@)],
        seq![(Tint::Cyan, "╠═══════════════════════════════════════╣"@)],
    ]
}

/// The lines under the title.
pub open spec fn banner_lines(my_wallet: Seq<char>) -> Seq<Seq<(Tint, Seq<char>)>> {
    seq![
        seq![(Tint::Plain, "║  💳 "@ + wallet_head(my_wallet))],
        seq![(Tint::Plain, "║  ⛓️  AVALANCHE + BSC"@)],
        seq![(Tint::Plain, "║  🔭 Mempool WS + API fallback"@)],
        seq![
            (
                Tint::Plain,
                "║  💣 "@ + crate::text::decimal_text(SHARE_AMOUNT as nat) + " units per snipe"@,
            ),
        ],
        seq![(Tint::Plain, "║  🛡️  "@ + crate::text::decimal_text(14) + "% slippage"@)],
        seq![(Tint::Cyan, "╚═══════════════════════════════════════╝"@)],
        seq![(Tint::Plain, ""@)],
    ]
}

/// The title that the bot starts with.
pub fn title() -> (lines: Vec<Line>)
    ensures
        crate::console::shown(lines@) == title_lines(),
{
    let mut lines: Vec<Line> = Vec::new();
    lines.push(
        Line::whole(Tint::Cyan, String::from_str("╔═══════════════════════════════════════╗")),
    );
    lines.push(
        Line::whole(Tint::CyanBold, String::from_str("║   BOI THE BEAR — RUST SNIPER v1.0    ║")),
    );
    lines.push(
        Line::whole(Tint::Cyan, String::from_str("╠═══════════════════════════════════════╣")),
    );
    assert(crate::console::shown(lines@) =~= title_lines());
    lines
}

/// The lines under the title. The own wallet has to be long enough to be cut.
pub fn banner(my_wallet: &str) -> (lines: Vec<Line>)
    requires
        vstd::utf8::is_char_boundary(vstd::utf8::encode_utf8(my_wallet@), WALLET_HEAD as int),
    ensures
        crate::console::shown(lines@) == banner_lines(my_wallet@),
{
    let head = my_wallet.split_at(WALLET_HEAD).0;
    assert(head@ == wallet_head(my_wallet@)) by {
        vstd::utf8::encode_utf8_decode_utf8(head@);
    }
    let mut wallet = String::from_str("║  💳 ");
    wallet.append(head);
    let mut units = String::from_str("║  💣 ");
    units.append(decimal(SHARE_AMOUNT as u128).as_str());
    units.append(" units per snipe");
    let mut slippage = String::from_str("║  🛡️  ");
    slippage.append(decimal(slippage_percent()).as_str());
    slippage.append("% slippage");

    let mut lines: Vec<Line> = Vec::new();
    lines.push(Line::whole(Tint::Plain, wallet));
    lines.push(Line::whole(Tint::Plain, String::from_str("║  ⛓️  AVALANCHE + BSC")));
    lines.push(Line::whole(Tint::Plain, String::from_str("║  🔭 Mempool WS + API fallback")));
    lines.push(Line::whole(Tint::Plain, units));
    lines.push(Line::whole(Tint::Plain, slippage));
    lines.push(
        Line::whole(Tint::Cyan, String::from_str("╚═══════════════════════════════════════╝")),
    );
    lines.push(Line::whole(Tint::Plain, String::from_str("")));
    assert(crate::console::shown(lines@) =~= banner_lines(my_wallet@));
    lines
}

/// The line on which the poller starts.
pub fn poller_line() -> (line: Line)
    ensures
        line@ == crate::console::signed(Tint::Green, "🌐"@, " API poller started"@),
{
    Line::signed(Tint::Green, "🌐", String::from_str(" API poller started"))
}

/// The sign of life.
pub fn heartbeat_line() -> (line: Line)
    ensures
        line@ == crate::console::signed(Tint::Red, "💓"@, " alive"@),
{
    Line::signed(Tint::Red, "💓", String::from_str(" alive"))
}

/// The title is a frame around the name of the bot.
pub proof fn law_title_names_the_bot()
    ensures
        title_lines() == seq![
            seq![(Tint::Cyan, "╔═══════════════════════════════════════╗"@)],
            seq![(Tint::CyanBold, "║   BOI THE BEAR — RUST SNIPER v1.0    ║"@)],
            seq![(Tint::Cyan, "╠═══════════════════════════════════════╣"@)],
        ],
{
}

/// The banner shows the text of the first twenty bytes of the own wallet, and after that
/// the same for every wallet: the chains, the sources, how many shares are bought at
/// once, and the slippage.
pub proof fn law_banner_shows_the_wallet(my_wallet: Seq<char>, head: Seq<char>)
    requires
        vstd::utf8::encode_utf8(my_wallet).len() >= 20,
        vstd::utf8::encode_utf8(head) == vstd::utf8::encode_utf8(my_wallet).take(20),
    ensures
        banner_lines(my_wallet) == seq![
            seq![(Tint::Plain, "║  💳 "@ + head)],
            seq![(Tint::Plain, "║  ⛓️  AVALANCHE + BSC"@)],
            seq![(Tint::Plain, "║  🔭 Mempool WS + API fallback"@)],
            seq![(Tint::Plain, "║  💣 100 units per snipe"@)],
            seq![(Tint::Plain, "║  🛡️  14% slippage"@)],
            seq![(Tint::Cyan, "╚═══════════════════════════════════════╝"@)],
            seq![(Tint::Plain, ""@)],
        ],
{
    vstd::utf8::encode_utf8_decode_utf8(head);
    assert(vstd::utf8::encode_utf8(my_wallet).subrange(0, 20) =~= vstd::utf8::encode_utf8(
        my_wallet,
    ).take(20));
    reveal_with_fuel(crate::text::decimal_text, 4);
    reveal_strlit("║  💣 ");
    reveal_strlit(" units per snipe");
    reveal_strlit("║  💣 100 units per snipe");
    reveal_strlit("║  🛡️  ");
    reveal_strlit("% slippage");
    reveal_strlit("║  🛡️  14% slippage");
    assert("║  💣 "@ + crate::text::decimal_text(100) + " units per snipe"@
        =~= "║  💣 100 units per snipe"@);
    assert("║  🛡️  "@ + crate::text::decimal_text(14) + "% slippage"@
        =~= "║  🛡️  14% slippage"@);
}

/// Arrivals are asked for twice a second, a request is given up after fifteen seconds,
/// and a sign of life comes once a minute.
pub proof fn law_timing()
    ensures
        2 * POLL_MILLIS == 1000,
        TIMEOUT_SECONDS == 15,
        HEARTBEAT_SECONDS == 60,
        WALLET_HEAD == 20,
        BOI_API@
            == "https://www.boithebear.com/api/socialfi/new-arrivals?limit=20&offset=0&userId=562acdb3-50d7-49aa-86d4-1b778da6ca12"@,
{
}

} // verus!
