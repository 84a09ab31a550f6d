//! What holds of everything that both sources ever lead to.

use vstd::prelude::*;

use crate::chain::ChainView;
use crate::order::OrderView;
use crate::poller::UserView;
use crate::watcher::WatchEventView;

verus! {

/// Something that a source reports.
pub enum Report {
    /// A pending transaction on `chain`.
    Pending { chain: ChainView, to: Option<Seq<u8>>, input: Seq<u8> },
    /// Something that happened to the connection to `chain`.
    Connection { chain: ChainView, event: WatchEventView },
    /// An answer of the interface, to a poller that has seen the users `seen`, and for
    /// which it is the first one or not.
    Answered { first: bool, seen: Set<Seq<char>>, users: Seq<UserView> },
}

/// The wallets taken on, and everything ordered so far.
pub struct Ledger {
    pub fired: Set<Seq<char>>,
    pub orders: Seq<OrderView>,
}

/// Takes in a report. A purchase among the pending transactions is followed where its
/// wallet is not taken on yet; an answer is digested; the connection has no part in
/// which wallets are taken on.
pub open spec fn record(ledger: Ledger, report: Report) -> Ledger {
    match report {
        Report::Pending { chain, to, input } => match crate::mempool::bought_subject(
            chain,
            to,
            input,
        ) {
            None => ledger,
            Some(subject) => {
                let (fired, order) = crate::order::taken_up(
                    ledger.fired,
                    crate::mempool::follow_up(chain, subject),
                );
                Ledger {
                    fired,
                    orders: match order {
                        Some(order) => ledger.orders.push(order),
                        None => ledger.orders,
                    },
                }
            },
        },
        Report::Connection { .. } => ledger,
        Report::Answered { first, seen, users } => {
            let desk = crate::poller::digested(first, seen, ledger.fired, users);
            Ledger { fired: desk.fired, orders: ledger.orders + desk.orders }
        },
    }
}

/// Everything taken on and ordered after `reports`, from `start` on.
pub open spec fn history(start: Ledger, reports: Seq<Report>) -> Ledger
    decreases reports.len(),
{
    if reports.len() == 0 {
        start
    } else {
        record(history(start, reports.drop_last()), reports.last())
    }
}

/// Every order's wallet is taken on, and no wallet is ordered twice.
pub open spec fn sound(ledger: Ledger) -> bool {
    &&& forall|i: int|
        0 <= i < ledger.orders.len() ==> ledger.fired.contains(
            crate::order::order_key(#[trigger] ledger.orders[i]),
        )
    &&& forall|i: int, j: int|
        0 <= i < j < ledger.orders.len() ==> crate::order::order_key(#[trigger] ledger.orders[i])
            != crate::order::order_key(#[trigger] ledger.orders[j])
}

/// From `before` to `after`, orders were only added, and only for wallets that were not
/// taken on.
pub open spec fn extends(before: Ledger, after: Ledger) -> bool {
    &&& before.orders.len() <= after.orders.len()
    &&& after.orders.take(before.orders.len() as int) == before.orders
    &&& before.fired.subset_of(after.fired)
    &&& forall|i: int|
        before.orders.len() <= i < after.orders.len() ==> !before.fired.contains(
            crate::order::order_key(#[trigger] after.orders[i]),
        )
}

proof fn lemma_record(ledger: Ledger, report: Report)
    ensures
        extends(ledger, record(ledger, report)),
        sound(ledger) ==> sound(record(ledger, report)),
{
    let after = record(ledger, report);
    let n = ledger.orders.len() as int;
    assert(after.orders.take(n) =~= ledger.orders);
    match report {
        Report::Pending { .. } => {},
        Report::Connection { .. } => {},
        Report::Answered { first, seen, users } => {
            crate::poller::law_answer_orders_fresh_wallets(first, seen, ledger.fired, users);
            let desk = crate::poller::digested(first, seen, ledger.fired, users);
            assert forall|i: int| n <= i < after.orders.len() implies #[trigger] after.orders[i]
                == desk.orders[i - n] by {}
            assert forall|i: int| 0 <= i < n implies #[trigger] after.orders[i]
                == ledger.orders[i] by {}
        },
    }
}

proof fn lemma_history(start: Ledger, reports: Seq<Report>)
    requires
        sound(start),
    ensures
        sound(history(start, reports)),
    decreases reports.len(),
{
    if reports.len() > 0 {
        lemma_history(start, reports.drop_last());
        lemma_record(history(start, reports.drop_last()), reports.last());
    }
}

/// Whatever is reported, orders are only added, and only for wallets that were not taken
/// on when the reports began.
pub proof fn law_history_extends(start: Ledger, reports: Seq<Report>)
    ensures
        extends(start, history(start, reports)),
    decreases reports.len(),
{
    if reports.len() == 0 {
        assert(start.orders.take(start.orders.len() as int) =~= start.orders);
    } else {
        let shorter = reports.drop_last();
        law_history_extends(start, shorter);
        let before = history(start, shorter);
        let after = history(start, reports);
        lemma_record(before, reports.last());
        assert(after.orders.take(start.orders.len() as int) =~= before.orders.take(
            start.orders.len() as int,
        ));
        assert forall|i: int| start.orders.len() <= i < after.orders.len() implies !start.fired.contains(
            crate::order::order_key(#[trigger] after.orders[i]),
        ) by {
            if i < before.orders.len() {
                assert(after.orders.take(before.orders.len() as int)[i] == before.orders[i]);
            }
        }
    }
}

/// What came of the first reports is where the others go on from.
pub proof fn law_history_goes_on(start: Ledger, reports: Seq<Report>, n: int)
    requires
        0 <= n <= reports.len(),
    ensures
        history(start, reports) == history(history(start, reports.take(n)), reports.skip(n)),
    decreases reports.len(),
{
    if n == reports.len() {
        assert(reports.take(n) =~= reports);
        assert(reports.skip(n) =~= Seq::empty());
    } else {
        let shorter = reports.drop_last();
        law_history_goes_on(start, shorter, n);
        assert(shorter.take(n) =~= reports.take(n));
        assert(reports.skip(n).drop_last() =~= shorter.skip(n));
        assert(reports.skip(n).last() == reports.last());
    }
}

/// No wallet is ordered twice, whichever source reports it, however often, and in
/// whatever case of its letters.
pub proof fn law_no_wallet_is_bought_twice(start: Ledger, reports: Seq<Report>, i: int, j: int)
    requires
        sound(start),
        0 <= i < j < history(start, reports).orders.len(),
    ensures
        crate::text::lower(history(start, reports).orders[i].wallet) != crate::text::lower(
            history(start, reports).orders[j].wallet,
        ),
{
    lemma_history(start, reports);
    assert(crate::order::order_key(history(start, reports).orders[i]) != crate::order::order_key(
        history(start, reports).orders[j],
    ));
}

/// With nothing ordered yet, whatever wallets are taken on, no wallet is ordered twice
/// and none of those is ordered at all.
pub proof fn law_taken_wallets_are_left_alone(start: Ledger, reports: Seq<Report>, i: int)
    requires
        start.orders.len() == 0,
        0 <= i < history(start, reports).orders.len(),
    ensures
        sound(start),
        !start.fired.contains(crate::text::lower(history(start, reports).orders[i].wallet)),
{
    law_history_extends(start, reports);
    assert(!start.fired.contains(crate::order::order_key(history(start, reports).orders[i])));
}

/// A wallet of a poller's first answer is never ordered after it, by any source.
pub proof fn law_seeded_wallet_is_never_bought(
    start: Ledger,
    reports: Seq<Report>,
    n: int,
    seen: Set<Seq<char>>,
    users: Seq<UserView>,
    u: int,
    i: int,
)
    requires
        0 <= n < reports.len(),
        reports[n] == (Report::Answered { first: true, seen, users }),
        0 <= u < users.len(),
        users[u].wallet_address is Some,
        history(start, reports.take(n + 1)).orders.len() <= i < history(start, reports).orders.len(),
    ensures
        crate::text::lower(history(start, reports).orders[i].wallet) != crate::text::lower(
            users[u].wallet_address->0,
        ),
{
    let before = history(start, reports.take(n));
    assert(reports.take(n + 1).drop_last() =~= reports.take(n));
    assert(reports.take(n + 1).last() == reports[n]);
    crate::poller::law_first_answer_only_seeds(seen, before.fired, users);
    let after = history(start, reports.take(n + 1));
    assert(after.fired.contains(crate::text::lower(users[u].wallet_address->0)));
    law_history_goes_on(start, reports, n + 1);
    law_history_extends(after, reports.skip(n + 1));
    assert(!after.fired.contains(crate::order::order_key(history(start, reports).orders[i])));
}

/// A wallet that was ordered stays taken on: whatever is reported later, nothing more
/// is ordered for it.
pub proof fn law_bought_wallet_stays_taken(start: Ledger, reports: Seq<Report>, n: int, i: int)
    requires
        sound(start),
        0 <= n <= reports.len(),
        0 <= i < history(start, reports.take(n)).orders.len(),
    ensures
        history(start, reports).fired.contains(
            crate::text::lower(history(start, reports.take(n)).orders[i].wallet),
        ),
        history(start, reports).orders[i] == history(start, reports.take(n)).orders[i],
{
    let before = history(start, reports.take(n));
    lemma_history(start, reports.take(n));
    law_history_goes_on(start, reports, n);
    law_history_extends(before, reports.skip(n));
    assert(before.fired.contains(crate::order::order_key(before.orders[i])));
    assert(history(start, reports).orders.take(before.orders.len() as int)[i] == before.orders[i]);
}

/// Losing a connection and connecting again lets go of no wallet and takes on none: a
/// purchase that would have been skipped before is skipped after, and one that would
/// have been followed is followed.
pub proof fn law_reconnect_keeps_wallets(ledger: Ledger, reports: Seq<Report>)
    requires
        forall|i: int| 0 <= i < reports.len() ==> #[trigger] reports[i] is Connection,
    ensures
        history(ledger, reports) == ledger,
    decreases reports.len(),
{
    if reports.len() > 0 {
        let shorter = reports.drop_last();
        assert forall|i: int| 0 <= i < shorter.len() implies #[trigger] shorter[i] is Connection by {
            assert(reports[i] == shorter[i]);
        }
        law_reconnect_keeps_wallets(ledger, shorter);
        assert(reports[reports.len() - 1] is Connection);
    }
}

/// Once a subject was taken on from a pending transaction, no later transaction with
/// that subject is followed, on any chain and across any loss of connection.
pub proof fn law_followed_subject_is_skipped(
    ledger: Ledger,
    chain: ChainView,
    to: Option<Seq<u8>>,
    input: Seq<u8>,
    between: Seq<Report>,
    other: ChainView,
    other_to: Option<Seq<u8>>,
    other_input: Seq<u8>,
)
    requires
        crate::mempool::bought_subject(chain, to, input) is Some,
        crate::mempool::bought_subject(other, other_to, other_input)
            == crate::mempool::bought_subject(chain, to, input),
    ensures
        ({
            let met = record(ledger, Report::Pending { chain, to, input });
            let later = history(met, between);
            record(later, Report::Pending { chain: other, to: other_to, input: other_input })
                == later
        }),
{
    let met = record(ledger, Report::Pending { chain, to, input });
    let later = history(met, between);
    law_history_extends(met, between);
    let subject = crate::mempool::bought_subject(chain, to, input)->0;
    let key = crate::text::lower(crate::hexcode::prefixed_hex(subject));
    assert(met.fired.contains(key));
    assert(later.fired.insert(key) =~= later.fired);
}

/// Whether `report` is of a pending purchase of `subject`.
pub open spec fn buys(report: Report, subject: Seq<u8>) -> bool {
    match report {
        Report::Pending { chain, to, input } => crate::mempool::bought_subject(chain, to, input)
            == Some(subject),
        Report::Connection { .. } | Report::Answered { .. } => false,
    }
}

/// Of several pending purchases of one subject that is not taken on yet, whatever their
/// order, exactly one is followed, the first to come up; its wallet is all that is
/// taken on.
pub proof fn law_fresh_subject_is_ordered_once(
    start: Ledger,
    reports: Seq<Report>,
    subject: Seq<u8>,
)
    requires
        reports.len() > 0,
        forall|i: int| 0 <= i < reports.len() ==> buys(#[trigger] reports[i], subject),
        !start.fired.contains(crate::hexcode::prefixed_hex(subject)),
    ensures
        history(start, reports).orders == start.orders.push(
            crate::mempool::follow_up(reports[0]->Pending_chain, subject),
        ),
        history(start, reports).orders.len() == start.orders.len() + 1,
        history(start, reports).orders.last().wallet == crate::hexcode::prefixed_hex(subject),
        history(start, reports).fired == start.fired.insert(crate::hexcode::prefixed_hex(subject)),
    decreases reports.len(),
{
    let shorter = reports.drop_last();
    let key = crate::hexcode::prefixed_hex(subject);
    crate::hexcode::law_address_text_is_lower(subject);
    assert(buys(reports[reports.len() - 1], subject));
    if shorter.len() == 0 {
        assert(history(start, shorter) == start);
    } else {
        assert forall|i: int| 0 <= i < shorter.len() implies buys(#[trigger] shorter[i], subject) by {
            assert(reports[i] == shorter[i]);
        }
        law_fresh_subject_is_ordered_once(start, shorter, subject);
        assert(start.fired.insert(key).insert(key) =~= start.fired.insert(key));
    }
}

/// Whether the order at `i` follows a purchase of `subject`, and is the only one for its
/// wallet since `before`.
pub open spec fn sole_order(before: Ledger, after: Ledger, subject: Seq<u8>, i: int) -> bool {
    &&& before.orders.len() <= i < after.orders.len()
    &&& after.orders[i].wallet == crate::hexcode::prefixed_hex(subject)
    &&& after.orders[i].source == crate::order::Source::Mempool
    &&& forall|j: int|
        before.orders.len() <= j < after.orders.len() && crate::order::order_key(
            #[trigger] after.orders[j],
        ) == crate::hexcode::prefixed_hex(subject) ==> j == i
}

/// Whether an answer among `reports` names the wallet that is kept as `key`.
pub open spec fn answers_name(reports: Seq<Report>, key: Seq<char>) -> bool {
    exists|i: int|
        0 <= i < reports.len() && ((#[trigger] reports[i]) matches Report::Answered { users, .. }
            && crate::poller::names_wallet(users, key))
}

/// A report that has nothing to do with a wallet neither takes it on nor orders it.
proof fn lemma_other_report(ledger: Ledger, report: Report, subject: Seq<u8>)
    requires
        subject.len() == crate::hexcode::ADDRESS_LEN,
        !buys(report, subject),
        report matches Report::Answered { users, .. } ==> !crate::poller::names_wallet(
            users,
            crate::hexcode::prefixed_hex(subject),
        ),
        !ledger.fired.contains(crate::hexcode::prefixed_hex(subject)),
    ensures
        !record(ledger, report).fired.contains(crate::hexcode::prefixed_hex(subject)),
        forall|j: int|
            ledger.orders.len() <= j < record(ledger, report).orders.len()
                ==> crate::order::order_key(#[trigger] record(ledger, report).orders[j])
                != crate::hexcode::prefixed_hex(subject),
{
    let key = crate::hexcode::prefixed_hex(subject);
    match report {
        Report::Connection { .. } => {},
        Report::Pending { chain, to, input } => {
            if let Some(other) = crate::mempool::bought_subject(chain, to, input) {
                crate::hexcode::law_address_text_is_lower(other);
                crate::hexcode::law_address_round_trip(other);
                crate::hexcode::law_address_round_trip(subject);
                assert(crate::hexcode::prefixed_hex(other) != key);
            }
        },
        Report::Answered { first, seen, users } => {
            let desk = crate::poller::digested(first, seen, ledger.fired, users);
            assert forall|j: int| 0 <= j < desk.orders.len() implies crate::order::order_key(
                #[trigger] desk.orders[j],
            ) != key by {
                crate::poller::law_orders_are_for_new_users(first, seen, ledger.fired, users, j);
                let u = choose|u: int|
                    0 <= u < users.len() && crate::poller::placed_for(
                        desk.orders[j],
                        #[trigger] users[u],
                    ) && !seen.contains(users[u].id);
                assert(users[u].wallet_address == Some(desk.orders[j].wallet));
            }
            if first {
                crate::poller::law_first_answer_adds_its_users(seen, ledger.fired, users, key, key);
            } else {
                crate::poller::law_later_answer_adds_its_orders(seen, ledger.fired, users, key, key);
            }
            let after = record(ledger, report);
            assert forall|j: int|
                ledger.orders.len() <= j < after.orders.len() implies crate::order::order_key(
                #[trigger] after.orders[j],
            ) != key by {
                assert(after.orders[j] == desk.orders[j - ledger.orders.len()]);
            }
        },
    }
}

/// Among whatever else is reported, on any chain and in any order, a subject that is not
/// taken on yet and that no answer names is ordered exactly once if it is bought in
/// pending transactions, however often, and otherwise not at all.
pub proof fn law_fresh_subject_is_ordered_once_amid_others(
    start: Ledger,
    reports: Seq<Report>,
    subject: Seq<u8>,
)
    requires
        subject.len() == crate::hexcode::ADDRESS_LEN,
        !start.fired.contains(crate::hexcode::prefixed_hex(subject)),
        !answers_name(reports, crate::hexcode::prefixed_hex(subject)),
    ensures
        ({
            let after = history(start, reports);
            let key = crate::hexcode::prefixed_hex(subject);
            if exists|i: int| 0 <= i < reports.len() && buys(#[trigger] reports[i], subject) {
                after.fired.contains(key) && exists|i: int| sole_order(start, after, subject, i)
            } else {
                !after.fired.contains(key) && forall|j: int|
                    start.orders.len() <= j < after.orders.len() ==> crate::order::order_key(
                        #[trigger] after.orders[j],
                    ) != key
            }
        }),
    decreases reports.len(),
{
    if reports.len() > 0 {
        let key = crate::hexcode::prefixed_hex(subject);
        let shorter = reports.drop_last();
        let last = reports[reports.len() - 1];
        let before = history(start, shorter);
        let after = history(start, reports);
        let old_len = before.orders.len() as int;
        assert forall|i: int| 0 <= i < shorter.len() implies shorter[i] == reports[i] by {}
        if answers_name(shorter, key) {
            let i = choose|i: int|
                0 <= i < shorter.len() && ((#[trigger] shorter[i]) matches Report::Answered {
                    users,
                    ..
                } && crate::poller::names_wallet(users, key));
            assert(reports[i] == shorter[i]);
        }
        law_fresh_subject_is_ordered_once_amid_others(start, shorter, subject);
        law_history_extends(start, shorter);
        lemma_record(before, last);
        assert(after == record(before, last));
        assert forall|j: int| 0 <= j < old_len implies #[trigger] after.orders[j]
            == before.orders[j] by {
            assert(after.orders.take(old_len)[j] == before.orders[j]);
        }
        if exists|i: int| 0 <= i < shorter.len() && buys(#[trigger] shorter[i], subject) {
            let b = choose|i: int| 0 <= i < shorter.len() && buys(#[trigger] shorter[i], subject);
            assert(buys(reports[b], subject));
            let i = choose|i: int| sole_order(start, before, subject, i);
            assert(sole_order(start, after, subject, i));
        } else {
            assert forall|i: int| 0 <= i < shorter.len() implies !buys(
                #[trigger] reports[i],
                subject,
            ) by {
                assert(reports[i] == shorter[i]);
            }
            if buys(last, subject) {
                crate::hexcode::law_address_text_is_lower(subject);
                assert(after.orders.len() == old_len + 1);
                assert(sole_order(start, after, subject, old_len));
            } else {
                lemma_other_report(before, last, subject);
            }
        }
    }
}

/// Whether `order` follows the pending purchase in `report`: on the chain that it is
/// pending on, for the subject that it buys.
pub open spec fn follows(order: OrderView, report: Report) -> bool {
    match report {
        Report::Pending { chain, to, input } => {
            let subject = crate::mempool::bought_subject(chain, to, input);
            &&& subject is Some
            &&& order.chain == chain
            &&& crate::hexcode::address_of(order.wallet) == subject
            &&& order.username == order.wallet.take(10)
        },
        Report::Connection { .. } | Report::Answered { .. } => false,
    }
}

/// Whether `order` is for one of the users of the later answer in `report`: for the
/// wallet and under the name that was reported, on the chain that the user chose.
pub open spec fn obliges(order: OrderView, report: Report) -> bool {
    match report {
        Report::Answered { first, seen, users } => {
            &&& !first
            &&& exists|u: int|
                0 <= u < users.len() && crate::arrivals::is_for(order, #[trigger] users[u])
                    && !seen.contains(users[u].id)
        },
        Report::Connection { .. } | Report::Pending { .. } => false,
    }
}

proof fn lemma_new_order_has_reason(ledger: Ledger, report: Report, i: int)
    requires
        ledger.orders.len() <= i < record(ledger, report).orders.len(),
    ensures
        ({
            let order = record(ledger, report).orders[i];
            match order.source {
                crate::order::Source::Mempool => follows(order, report),
                crate::order::Source::Api => obliges(order, report),
            }
        }),
{
    match report {
        Report::Pending { chain, to, input } => {
            crate::mempool::law_followed_wallet_is_subject(chain, to, input);
        },
        Report::Connection { .. } => {},
        Report::Answered { first, seen, users } => {
            let desk = crate::poller::digested(first, seen, ledger.fired, users);
            let j = i - ledger.orders.len();
            assert(record(ledger, report).orders[i] == desk.orders[j]);
            crate::arrivals::law_order_is_on_the_chosen_chain(first, seen, ledger.fired, users, j);
            let u = choose|u: int|
                0 <= u < users.len() && crate::arrivals::is_for(desk.orders[j], #[trigger] users[u])
                    && !seen.contains(users[u].id);
            assert(crate::arrivals::is_for(desk.orders[j], users[u]));
        },
    }
}

/// Nothing is ordered without a reason: every order from the mempool follows one of the
/// pending purchases that were reported, on its chain, and every other order is for a
/// new user of one of the later answers, on the chain that the user chose.
pub proof fn law_every_order_has_its_reason(start: Ledger, reports: Seq<Report>, i: int)
    requires
        start.orders.len() <= i < history(start, reports).orders.len(),
    ensures
        exists|r: int|
            0 <= r < reports.len() && match history(start, reports).orders[i].source {
                crate::order::Source::Mempool => follows(
                    history(start, reports).orders[i],
                    #[trigger] reports[r],
                ),
                crate::order::Source::Api => obliges(
                    history(start, reports).orders[i],
                    reports[r],
                ),
            },
    decreases reports.len(),
{
    if reports.len() > 0 {
        let shorter = reports.drop_last();
        let before = history(start, shorter);
        let order = history(start, reports).orders[i];
        lemma_record(before, reports.last());
        if i < before.orders.len() {
            law_every_order_has_its_reason(start, shorter, i);
            let r = choose|r: int|
                0 <= r < shorter.len() && match before.orders[i].source {
                    crate::order::Source::Mempool => follows(
                        before.orders[i],
                        #[trigger] shorter[r],
                    ),
                    crate::order::Source::Api => obliges(before.orders[i], shorter[r]),
                };
            assert(history(start, reports).orders.take(before.orders.len() as int)[i]
                == before.orders[i]);
            assert(reports[r] == shorter[r]);
        } else {
            lemma_new_order_has_reason(before, reports.last(), i);
            assert(reports[reports.len() - 1] == reports.last());
        }
    }
}

} // verus!
