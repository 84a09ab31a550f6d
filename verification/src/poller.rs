//! New arrivals reported by the site's interface.

use vstd::hash_set::StringHashSet;
use vstd::prelude::*;
use vstd::string::*;

use crate::chain::find_chain;
use crate::console::{Line, Tint};
use crate::order::{Fired, Order, OrderView, Source};
use crate::text::{decimal, lowercase};

verus! {

/// A user as the interface reports it.
#[derive(Debug)]
pub struct User {
    pub id: String,
    pub username: String,
    pub wallet_address: Option<String>,
    pub selected_chain: Option<String>,
}

/// What a [`User`] says.
pub struct UserView {
    pub id: Seq<char>,
    pub username: Seq<char>,
    pub wallet_address: Option<Seq<char>>,
    pub selected_chain: Option<Seq<char>>,
}

/// A text that may be missing.
pub open spec fn text_of(text: Option<String>) -> Option<Seq<char>> {
    match text {
        Some(text) => Some(text@),
        None => None,
    }
}

impl View for User {
    type V = UserView;

    open spec fn view(&self) -> UserView {
        UserView {
            id: self.id@,
            username: self.username@,
            wallet_address: text_of(self.wallet_address),
            selected_chain: text_of(self.selected_chain),
        }
    }
}

/// What a list of users says.
pub open spec fn reported(users: Seq<User>) -> Seq<UserView> {
    users.map_values(|u: User| u@)
}

impl UserView {
    /// The name of the chain that the user chose, in lower case; empty if none was
    /// chosen.
    pub open spec fn chain_name(self) -> Seq<char> {
        crate::text::lower(
            match self.selected_chain {
                Some(name) => name,
                None => Seq::empty(),
            },
        )
    }
}

/// The users seen, the wallets taken on, and what came of it.
pub struct Desk {
    pub seen: Set<Seq<char>>,
    pub fired: Set<Seq<char>>,
    pub lines: Seq<Seq<(Tint, Seq<char>)>>,
    pub orders: Seq<OrderView>,
}

/// The line that reports a new user.
pub open spec fn arrival_line(user: UserView) -> Seq<(Tint, Seq<char>)> {
    crate::console::signed(
        Tint::Yellow,
        "🆕"@,
        " [API] @"@ + user.username + " | "@ + user.chain_name(),
    )
}

/// The line that reports a chain that is not supported.
pub open spec fn unsupported_line(user: UserView) -> Seq<(Tint, Seq<char>)> {
    crate::console::signed(
        Tint::Yellow,
        "⏭️"@,
        " Chain '"@ + user.chain_name() + "' not supported"@,
    )
}

/// The line that reports how many users are known after the first answer.
pub open spec fn seeded_line(count: nat) -> Seq<(Tint, Seq<char>)> {
    crate::console::signed(
        Tint::Green,
        "🌱"@,
        " Seeded "@ + crate::text::decimal_text(count) + " users"@,
    )
}

/// A user of the first answer: remembered, and never bought.
pub open spec fn seed_one(desk: Desk, user: UserView) -> Desk {
    Desk {
        seen: desk.seen.insert(user.id),
        fired: match user.wallet_address {
            Some(wallet) => desk.fired.insert(crate::text::lower(wallet)),
            None => desk.fired,
        },
        ..desk
    }
}

/// The users of the first answer.
pub open spec fn seed_all(desk: Desk, users: Seq<UserView>) -> Desk
    decreases users.len(),
{
    if users.len() == 0 {
        desk
    } else {
        seed_one(seed_all(desk, users.drop_last()), users.last())
    }
}

/// A user of a later answer: a new one with a wallet is reported, and bought if its
/// chain is supported and its wallet not taken on yet.
pub open spec fn take_one(desk: Desk, user: UserView) -> Desk {
    if desk.seen.contains(user.id) {
        desk
    } else {
        let met = Desk { seen: desk.seen.insert(user.id), ..desk };
        match user.wallet_address {
            None => met,
            Some(wallet) => {
                let told = Desk { lines: met.lines.push(arrival_line(user)), ..met };
                match crate::chain::named(crate::chain::supported(), user.chain_name()) {
                    None => Desk { lines: told.lines.push(unsupported_line(user)), ..told },
                    Some(chain) => if told.fired.contains(crate::text::lower(wallet)) {
                        told
                    } else {
                        Desk {
                            fired: told.fired.insert(crate::text::lower(wallet)),
                            orders: told.orders.push(
                                OrderView {
                                    username: user.username,
                                    wallet,
                                    chain,
                                    source: Source::Api,
                                },
                            ),
                            ..told
                        }
                    },
                }
            },
        }
    }
}

/// The users of a later answer, one after the other.
pub open spec fn take_all(desk: Desk, users: Seq<UserView>) -> Desk
    decreases users.len(),
{
    if users.len() == 0 {
        desk
    } else {
        take_one(take_all(desk, users.drop_last()), users.last())
    }
}

/// The state of the poller and the wallets taken on, with nothing said or ordered yet.
pub open spec fn desk_of(seen: Set<Seq<char>>, fired: Set<Seq<char>>) -> Desk {
    Desk { seen, fired, lines: Seq::empty(), orders: Seq::empty() }
}

/// What one answer leads to: the first only makes its users known.
pub open spec fn digested(
    first: bool,
    seen: Set<Seq<char>>,
    fired: Set<Seq<char>>,
    users: Seq<UserView>,
) -> Desk {
    if first {
        let desk = seed_all(desk_of(seen, fired), users);
        Desk { lines: desk.lines.push(seeded_line(desk.seen.len())), ..desk }
    } else {
        take_all(desk_of(seen, fired), users)
    }
}

/// What is remembered of the answers so far.
pub struct Poller {
    seen: StringHashSet,
    first: bool,
}

/// What an answer leads to.
pub struct Digest {
    pub lines: Vec<Line>,
    pub orders: Vec<Order>,
}

impl Poller {
    /// The identifiers of the users seen so far.
    pub closed spec fn seen(&self) -> Set<Seq<char>> {
        self.seen@
    }

    /// Whether no answer has come in yet.
    pub closed spec fn first(&self) -> bool {
        self.first
    }

    /// No answer has come in yet.
    pub fn new() -> (poller: Poller)
        ensures
            poller.seen() == Set::<Seq<char>>::empty(),
            poller.first(),
    {
        Poller { seen: StringHashSet::new(), first: true }
    }

    fn seed(&mut self, fired: &mut Fired, users: &Vec<User>)
        ensures
            final(self).first() == old(self).first(),
            ({
                let desk = seed_all(desk_of(old(self).seen(), old(fired)@), reported(users@));
                final(self).seen() == desk.seen && final(fired)@ == desk.fired
            }),
    {
        let ghost start = desk_of(self.seen(), fired@);
        let ghost views = reported(users@);
        let ghost was_first = self.first();
        let mut i: usize = 0;
        assert(views.take(0) =~= Seq::empty());
        while i < users.len()
            invariant
                i <= users.len(),
                views == reported(users@),
                self.first() == was_first,
                ({
                    let desk = seed_all(start, views.take(i as int));
                    self.seen() == desk.seen && fired@ == desk.fired
                }),
            decreases users.len() - i,
        {
            proof {
                let shorter = views.take(i as int);
                assert(views.take(i + 1).drop_last() =~= shorter);
                assert(views.take(i + 1).last() == users[i as int]@);
            }
            let user = &users[i];
            self.seen.insert(user.id.clone());
            match &user.wallet_address {
                Some(wallet) => {
                    fired.claim(wallet.as_str());
                },
                None => {},
            }
            i = i + 1;
        }
        assert(views.take(i as int) =~= views);
    }

    /// Takes a user of a later answer.
    fn take_in(&mut self, fired: &mut Fired, digest: &mut Digest, user: &User)
        ensures
            final(self).first() == old(self).first(),
            ({
                let desk = take_one(
                    Desk {
                        seen: old(self).seen(),
                        fired: old(fired)@,
                        lines: crate::console::shown(old(digest).lines@),
                        orders: crate::order::ordered(old(digest).orders@),
                    },
                    user@,
                );
                &&& final(self).seen() == desk.seen
                &&& final(fired)@ == desk.fired
                &&& crate::console::shown(final(digest).lines@) == desk.lines
                &&& crate::order::ordered(final(digest).orders@) == desk.orders
            }),
    {
        if self.seen.contains(user.id.as_str()) {
            return;
        }
        self.seen.insert(user.id.clone());
        let chain_name = match &user.selected_chain {
            Some(name) => lowercase(name.as_str()),
            None => lowercase(String::new().as_str()),
        };
        let wallet = match &user.wallet_address {
            Some(wallet) => wallet,
            None => {
                return;
            },
        };
        let mut report = String::from_str(" [API] @");
        report.append(user.username.as_str());
        report.append(" | ");
        report.append(chain_name.as_str());
        let ghost lines = digest.lines@;
        let line = Line::signed(Tint::Yellow, "🆕", report);
        digest.lines.push(line);
        assert(crate::console::shown(digest.lines@) =~= crate::console::shown(lines).push(line@));
        let chain = match find_chain(chain_name.as_str()) {
            Some(chain) => chain,
            None => {
                let mut refusal = String::from_str(" Chain '");
                refusal.append(chain_name.as_str());
                refusal.append("' not supported");
                let ghost lines = digest.lines@;
                let line = Line::signed(Tint::Yellow, "⏭️", refusal);
                digest.lines.push(line);
                assert(crate::console::shown(digest.lines@) =~= crate::console::shown(lines).push(
                    line@,
                ));
                return;
            },
        };
        if fired.claim(wallet.as_str()) {
            let order = Order {
                username: user.username.clone(),
                wallet: wallet.clone(),
                chain,
                source: Source::Api,
            };
            let ghost orders = digest.orders@;
            digest.orders.push(order);
            assert(crate::order::ordered(digest.orders@) =~= crate::order::ordered(orders).push(
                order@,
            ));
        } else {
            assert(fired@ =~= old(fired)@);
        }
    }

    /// Takes in an answer. The first one only makes its users known; of a later one,
    /// the users that are new are reported and, where that is possible, bought.
    pub fn digest(&mut self, fired: &mut Fired, users: &Vec<User>) -> (digest: Digest)
        ensures
            !final(self).first(),
            ({
                let desk = digested(
                    old(self).first(),
                    old(self).seen(),
                    old(fired)@,
                    reported(users@),
                );
                &&& final(self).seen() == desk.seen
                &&& final(fired)@ == desk.fired
                &&& crate::console::shown(digest.lines@) == desk.lines
                &&& crate::order::ordered(digest.orders@) == desk.orders
            }),
    {
        let mut digest = Digest { lines: Vec::new(), orders: Vec::new() };
        let ghost start = desk_of(self.seen(), fired@);
        let ghost views = reported(users@);
        assert(crate::console::shown(digest.lines@) =~= start.lines);
        assert(crate::order::ordered(digest.orders@) =~= start.orders);
        if self.first {
            self.seed(fired, users);
            self.first = false;
            let mut report = String::from_str(" Seeded ");
            report.append(decimal(self.seen.len() as u128).as_str());
            report.append(" users");
            let line = Line::signed(Tint::Green, "🌱", report);
            digest.lines.push(line);
            proof {
                lemma_seed_is_silent(start, views);
                assert(crate::console::shown(digest.lines@) =~= start.lines.push(line@));
            }
        } else {
            let mut i: usize = 0;
            assert(views.take(0) =~= Seq::empty());
            while i < users.len()
                invariant
                    i <= users.len(),
                    views == reported(users@),
                    !self.first(),
                    ({
                        let desk = take_all(start, views.take(i as int));
                        &&& self.seen() == desk.seen
                        &&& fired@ == desk.fired
                        &&& crate::console::shown(digest.lines@) == desk.lines
                        &&& crate::order::ordered(digest.orders@) == desk.orders
                    }),
                decreases users.len() - i,
            {
                proof {
                    assert(views.take(i + 1).drop_last() =~= views.take(i as int));
                    assert(views.take(i + 1).last() == users[i as int]@);
                }
                self.take_in(fired, &mut digest, &users[i]);
                i = i + 1;
            }
            assert(views.take(i as int) =~= views);
        }
        digest
    }
}

/// Making users known says nothing and orders nothing; it remembers every user and
/// every wallet, and forgets none.
proof fn lemma_seed_is_silent(desk: Desk, users: Seq<UserView>)
    ensures
        seed_all(desk, users).lines == desk.lines,
        seed_all(desk, users).orders == desk.orders,
        desk.seen.subset_of(seed_all(desk, users).seen),
        desk.fired.subset_of(seed_all(desk, users).fired),
        forall|i: int|
            0 <= i < users.len() ==> seed_all(desk, users).seen.contains((#[trigger] users[i]).id),
        forall|i: int|
            0 <= i < users.len() && (#[trigger] users[i]).wallet_address is Some ==> seed_all(
                desk,
                users,
            ).fired.contains(crate::text::lower(users[i].wallet_address->0)),
    decreases users.len(),
{
    if users.len() > 0 {
        let before = users.drop_last();
        lemma_seed_is_silent(desk, before);
        assert forall|i: int| 0 <= i < users.len() - 1 implies users[i] == before[i] by {}
    }
}

/// Whether what was ordered since `before` is for wallets that were not taken on
/// before, none of them twice, and all of them taken on `after`.
pub open spec fn orders_are_fresh(before: Desk, after: Desk) -> bool {
    let old_len = before.orders.len() as int;
    &&& before.orders.len() <= after.orders.len()
    &&& after.orders.take(old_len) == before.orders
    &&& before.fired.subset_of(after.fired)
    &&& forall|i: int|
        old_len <= i < after.orders.len() ==> {
            &&& !before.fired.contains(crate::order::order_key(#[trigger] after.orders[i]))
            &&& after.fired.contains(crate::order::order_key(after.orders[i]))
        }
    &&& forall|i: int, j: int|
        old_len <= i < j < after.orders.len() ==> crate::order::order_key(#[trigger] after.orders[i])
            != crate::order::order_key(#[trigger] after.orders[j])
}

proof fn lemma_take_all(desk: Desk, users: Seq<UserView>)
    ensures
        orders_are_fresh(desk, take_all(desk, users)),
        desk.seen.subset_of(take_all(desk, users).seen),
        forall|i: int|
            0 <= i < users.len() ==> take_all(desk, users).seen.contains((#[trigger] users[i]).id),
    decreases users.len(),
{
    if users.len() > 0 {
        let shorter = users.drop_last();
        lemma_take_all(desk, shorter);
        assert forall|i: int| 0 <= i < users.len() - 1 implies users[i] == shorter[i] by {}
        let before = take_all(desk, shorter);
        let after = take_all(desk, users);
        let old_len = desk.orders.len() as int;
        assert(after.orders.take(old_len) =~= before.orders.take(old_len));
    } else {
        assert(desk.orders.take(desk.orders.len() as int) =~= desk.orders);
    }
}

proof fn lemma_known_users_change_nothing(desk: Desk, users: Seq<UserView>)
    requires
        forall|i: int| 0 <= i < users.len() ==> desk.seen.contains((#[trigger] users[i]).id),
    ensures
        take_all(desk, users) == desk,
    decreases users.len(),
{
    if users.len() > 0 {
        let shorter = users.drop_last();
        assert forall|i: int| 0 <= i < shorter.len() implies desk.seen.contains(
            (#[trigger] shorter[i]).id,
        ) by {
            assert(users[i] == shorter[i]);
        }
        lemma_known_users_change_nothing(desk, shorter);
        assert(users[users.len() - 1] == users.last());
    }
}

/// The first answer orders nothing and says only how many users are known; its users
/// are known from then on and their wallets taken on.
pub proof fn law_first_answer_only_seeds(
    seen: Set<Seq<char>>,
    fired: Set<Seq<char>>,
    users: Seq<UserView>,
)
    ensures
        ({
            let desk = digested(true, seen, fired, users);
            &&& desk.orders.len() == 0
            &&& desk.lines == seq![seeded_line(desk.seen.len())]
            &&& seen.subset_of(desk.seen) && fired.subset_of(desk.fired)
            &&& forall|i: int|
                0 <= i < users.len() ==> desk.seen.contains((#[trigger] users[i]).id)
            &&& forall|i: int|
                0 <= i < users.len() && (#[trigger] users[i]).wallet_address is Some
                    ==> desk.fired.contains(crate::text::lower(users[i].wallet_address->0))
        }),
{
    lemma_seed_is_silent(desk_of(seen, fired), users);
    assert(digested(true, seen, fired, users).lines =~= seq![
        seeded_line(digested(true, seen, fired, users).seen.len()),
    ]);
}

/// An answer that comes in again is met with silence: no line, no order, and nothing
/// new to remember.
pub proof fn law_repeated_answer_is_silent(
    first: bool,
    seen: Set<Seq<char>>,
    fired: Set<Seq<char>>,
    users: Seq<UserView>,
)
    ensures
        ({
            let desk = digested(first, seen, fired, users);
            digested(false, desk.seen, desk.fired, users) == desk_of(desk.seen, desk.fired)
        }),
{
    let desk = digested(first, seen, fired, users);
    lemma_seed_is_silent(desk_of(seen, fired), users);
    lemma_take_all(desk_of(seen, fired), users);
    lemma_known_users_change_nothing(desk_of(desk.seen, desk.fired), users);
}

/// An answer orders no wallet that was taken on before, orders none twice, and takes
/// on every wallet that it orders; no wallet is let go.
pub proof fn law_answer_orders_fresh_wallets(
    first: bool,
    seen: Set<Seq<char>>,
    fired: Set<Seq<char>>,
    users: Seq<UserView>,
)
    ensures
        orders_are_fresh(desk_of(seen, fired), digested(first, seen, fired, users)),
        seen.subset_of(digested(first, seen, fired, users).seen),
{
    lemma_seed_is_silent(desk_of(seen, fired), users);
    lemma_take_all(desk_of(seen, fired), users);
    assert(desk_of(seen, fired).orders.take(0) =~= desk_of(seen, fired).orders);
}

/// Whether `order` is what a new user `user` leads to.
pub open spec fn placed_for(order: OrderView, user: UserView) -> bool {
    &&& user.wallet_address == Some(order.wallet)
    &&& order.username == user.username
    &&& crate::chain::named(crate::chain::supported(), user.chain_name()) == Some(order.chain)
    &&& order.source == Source::Api
}

proof fn lemma_orders_have_users(desk: Desk, users: Seq<UserView>, i: int)
    requires
        desk.orders.len() <= i < take_all(desk, users).orders.len(),
    ensures
        exists|u: int|
            0 <= u < users.len() && placed_for(take_all(desk, users).orders[i], #[trigger] users[u])
                && !desk.seen.contains(users[u].id),
    decreases users.len(),
{
    if users.len() > 0 {
        let shorter = users.drop_last();
        let before = take_all(desk, shorter);
        lemma_take_all(desk, shorter);
        if i < before.orders.len() {
            lemma_orders_have_users(desk, shorter, i);
            let u = choose|u: int|
                0 <= u < shorter.len() && placed_for(before.orders[i], #[trigger] shorter[u])
                    && !desk.seen.contains(shorter[u].id);
            assert(users[u] == shorter[u]);
        } else {
            assert(placed_for(take_all(desk, users).orders[i], users[users.len() - 1]));
        }
    }
}

/// Every order of an answer is for one of its users who was not seen before: for the
/// wallet as it was reported, on the supported chain that the user chose, where there
/// is a contract to buy at.
pub proof fn law_orders_are_for_new_users(
    first: bool,
    seen: Set<Seq<char>>,
    fired: Set<Seq<char>>,
    users: Seq<UserView>,
    i: int,
)
    requires
        0 <= i < digested(first, seen, fired, users).orders.len(),
    ensures
        !first,
        exists|u: int|
            0 <= u < users.len() && placed_for(
                digested(first, seen, fired, users).orders[i],
                #[trigger] users[u],
            ) && !seen.contains(users[u].id),
        digested(first, seen, fired, users).orders[i].chain.valid(),
{
    let desk = desk_of(seen, fired);
    lemma_seed_is_silent(desk, users);
    lemma_orders_have_users(desk, users, i);
    let order = digested(first, seen, fired, users).orders[i];
    let u = choose|u: int|
        0 <= u < users.len() && placed_for(order, #[trigger] users[u]) && !seen.contains(
            users[u].id,
        );
    crate::chain::law_named_chain_is_supported(users[u].chain_name());
}

/// What is remembered after an answer has its reason in the answer: every new
/// identifier is that of one of its users, and every wallet newly taken on was ordered.
proof fn lemma_memory_has_reasons(desk: Desk, users: Seq<UserView>)
    ensures
        forall|id: Seq<char>| #[trigger]
            take_all(desk, users).seen.contains(id) && !desk.seen.contains(id) ==> exists|u: int|
                0 <= u < users.len() && (#[trigger] users[u]).id == id,
        forall|key: Seq<char>| #[trigger]
            take_all(desk, users).fired.contains(key) && !desk.fired.contains(key) ==> exists|i: int|
                desk.orders.len() <= i < take_all(desk, users).orders.len() && crate::order::order_key(
                    #[trigger] take_all(desk, users).orders[i],
                ) == key,
    decreases users.len(),
{
    if users.len() > 0 {
        let shorter = users.drop_last();
        let before = take_all(desk, shorter);
        let after = take_all(desk, users);
        lemma_memory_has_reasons(desk, shorter);
        lemma_take_all(desk, shorter);
        assert forall|id: Seq<char>| #[trigger]
            after.seen.contains(id) && !desk.seen.contains(id) implies exists|u: int|
            0 <= u < users.len() && (#[trigger] users[u]).id == id by {
            if before.seen.contains(id) {
                let u = choose|u: int| 0 <= u < shorter.len() && (#[trigger] shorter[u]).id == id;
                assert(users[u] == shorter[u]);
            } else {
                assert(users[users.len() - 1].id == id);
            }
        }
        assert forall|key: Seq<char>| #[trigger]
            after.fired.contains(key) && !desk.fired.contains(key) implies exists|i: int|
            desk.orders.len() <= i < after.orders.len() && crate::order::order_key(#[trigger] after.orders[i])
                == key by {
            if before.fired.contains(key) {
                let i = choose|i: int|
                    desk.orders.len() <= i < before.orders.len() && crate::order::order_key(
                        #[trigger] before.orders[i],
                    ) == key;
                assert(after.orders[i] == before.orders[i]);
            } else {
                assert(crate::order::order_key(after.orders[after.orders.len() - 1]) == key);
            }
        }
    }
}

proof fn lemma_new_user_is_bought(desk: Desk, users: Seq<UserView>, u: int)
    requires
        0 <= u < users.len(),
        !desk.seen.contains(users[u].id),
        forall|v: int| 0 <= v < u ==> (#[trigger] users[v]).id != users[u].id,
        users[u].wallet_address is Some,
        crate::chain::named(crate::chain::supported(), users[u].chain_name()) is Some,
        !desk.fired.contains(crate::text::lower(users[u].wallet_address->0)),
    ensures
        exists|i: int|
            desk.orders.len() <= i < take_all(desk, users).orders.len() && crate::order::order_key(
                #[trigger] take_all(desk, users).orders[i],
            ) == crate::text::lower(users[u].wallet_address->0),
    decreases users.len(),
{
    let shorter = users.drop_last();
    let before = take_all(desk, shorter);
    let after = take_all(desk, users);
    let key = crate::text::lower(users[u].wallet_address->0);
    lemma_take_all(desk, shorter);
    if u < users.len() - 1 {
        assert forall|v: int| 0 <= v < shorter.len() implies users[v] == shorter[v] by {}
        lemma_new_user_is_bought(desk, shorter, u);
        let i = choose|i: int|
            desk.orders.len() <= i < before.orders.len() && crate::order::order_key(#[trigger] before.orders[i])
                == key;
        assert(after.orders[i] == before.orders[i]);
    } else {
        lemma_memory_has_reasons(desk, shorter);
        if before.seen.contains(users[u].id) {
            let v = choose|v: int|
                0 <= v < shorter.len() && (#[trigger] shorter[v]).id == users[u].id;
            assert(users[v] == shorter[v]);
        }
        if before.fired.contains(key) {
            let i = choose|i: int|
                desk.orders.len() <= i < before.orders.len() && crate::order::order_key(
                    #[trigger] before.orders[i],
                ) == key;
            assert(after.orders[i] == before.orders[i]);
        } else {
            assert(crate::order::order_key(after.orders[after.orders.len() - 1]) == key);
        }
    }
}

/// In a later answer, a user who was not seen before, chose a supported chain and has a
/// wallet that is not taken on gets that wallet ordered.
pub proof fn law_new_user_is_bought(
    seen: Set<Seq<char>>,
    fired: Set<Seq<char>>,
    users: Seq<UserView>,
    u: int,
)
    requires
        0 <= u < users.len(),
        !seen.contains(users[u].id),
        forall|v: int| 0 <= v < u ==> (#[trigger] users[v]).id != users[u].id,
        users[u].wallet_address is Some,
        crate::chain::named(crate::chain::supported(), users[u].chain_name()) is Some,
        !fired.contains(crate::text::lower(users[u].wallet_address->0)),
    ensures
        exists|i: int|
            0 <= i < digested(false, seen, fired, users).orders.len() && crate::order::order_key(
                #[trigger] digested(false, seen, fired, users).orders[i],
            ) == crate::text::lower(users[u].wallet_address->0),
{
    let desk = desk_of(seen, fired);
    lemma_new_user_is_bought(desk, users, u);
    let i = choose|i: int|
        desk.orders.len() <= i < take_all(desk, users).orders.len() && crate::order::order_key(
            #[trigger] take_all(desk, users).orders[i],
        ) == crate::text::lower(users[u].wallet_address->0);
    assert(digested(false, seen, fired, users).orders[i] == take_all(desk, users).orders[i]);
}

/// A later answer whose users were all seen before is met with silence: no line, no
/// order, and nothing new to remember.
pub proof fn law_known_users_change_nothing(
    seen: Set<Seq<char>>,
    fired: Set<Seq<char>>,
    users: Seq<UserView>,
)
    requires
        forall|i: int| 0 <= i < users.len() ==> seen.contains((#[trigger] users[i]).id),
    ensures
        digested(false, seen, fired, users) == desk_of(seen, fired),
{
    lemma_known_users_change_nothing(desk_of(seen, fired), users);
}

/// Whether one of the users has the identifier `id`.
pub open spec fn names_id(users: Seq<UserView>, id: Seq<char>) -> bool {
    exists|u: int| 0 <= u < users.len() && (#[trigger] users[u]).id == id
}

/// Whether one of the users has a wallet that is kept as `key`.
pub open spec fn names_wallet(users: Seq<UserView>, key: Seq<char>) -> bool {
    exists|u: int|
        0 <= u < users.len() && (#[trigger] users[u]).wallet_address is Some && crate::text::lower(
            users[u].wallet_address->0,
        ) == key
}

/// Whether one of the orders is for a wallet that is kept as `key`.
pub open spec fn orders_wallet(orders: Seq<OrderView>, key: Seq<char>) -> bool {
    exists|i: int|
        0 <= i < orders.len() && crate::order::order_key(#[trigger] orders[i]) == key
}

proof fn lemma_seed_has_reasons(desk: Desk, users: Seq<UserView>, id: Seq<char>, key: Seq<char>)
    ensures
        seed_all(desk, users).seen.contains(id) ==> desk.seen.contains(id) || names_id(users, id),
        seed_all(desk, users).fired.contains(key) ==> desk.fired.contains(key) || names_wallet(
            users,
            key,
        ),
    decreases users.len(),
{
    if users.len() > 0 {
        let shorter = users.drop_last();
        lemma_seed_has_reasons(desk, shorter, id, key);
        if names_id(shorter, id) {
            let u = choose|u: int| 0 <= u < shorter.len() && (#[trigger] shorter[u]).id == id;
            assert(users[u] == shorter[u]);
        }
        if names_wallet(shorter, key) {
            let u = choose|u: int|
                0 <= u < shorter.len() && (#[trigger] shorter[u]).wallet_address is Some
                    && crate::text::lower(shorter[u].wallet_address->0) == key;
            assert(users[u] == shorter[u]);
        }
        assert(users[users.len() - 1] == users.last());
    }
}

/// After the first answer exactly its users are known besides those known before, and
/// exactly their wallets are taken on besides those taken on before.
pub proof fn law_first_answer_adds_its_users(
    seen: Set<Seq<char>>,
    fired: Set<Seq<char>>,
    users: Seq<UserView>,
    id: Seq<char>,
    key: Seq<char>,
)
    ensures
        digested(true, seen, fired, users).seen.contains(id) <==> seen.contains(id) || names_id(
            users,
            id,
        ),
        digested(true, seen, fired, users).fired.contains(key) <==> fired.contains(key)
            || names_wallet(users, key),
{
    lemma_seed_is_silent(desk_of(seen, fired), users);
    lemma_seed_has_reasons(desk_of(seen, fired), users, id, key);
}

/// After a later answer exactly its users are known besides those known before, and
/// exactly the wallets that it orders are taken on besides those taken on before.
pub proof fn law_later_answer_adds_its_orders(
    seen: Set<Seq<char>>,
    fired: Set<Seq<char>>,
    users: Seq<UserView>,
    id: Seq<char>,
    key: Seq<char>,
)
    ensures
        ({
            let desk = digested(false, seen, fired, users);
            &&& desk.seen.contains(id) <==> seen.contains(id) || names_id(users, id)
            &&& desk.fired.contains(key) <==> fired.contains(key) || orders_wallet(
                desk.orders,
                key,
            )
        }),
{
    let desk = digested(false, seen, fired, users);
    lemma_take_all(desk_of(seen, fired), users);
    lemma_memory_has_reasons(desk_of(seen, fired), users);
    if desk.fired.contains(key) && !fired.contains(key) {
        let i = choose|i: int|
            0 <= i < desk.orders.len() && crate::order::order_key(#[trigger] desk.orders[i]) == key;
        assert(crate::order::order_key(desk.orders[i]) == key);
    }
}

} // verus!
