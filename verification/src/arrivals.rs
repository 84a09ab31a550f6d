//! What holds of the answers of the site's interface, in terms of what they report.

use vstd::prelude::*;

use crate::console::Tint;
use crate::order::{OrderView, Source};
use crate::poller::{Desk, UserView};

verus! {

/// Whether the user chose the chain that is called `name`, in any case of the letters.
pub open spec fn chose(user: UserView, name: Seq<char>) -> bool {
    user.selected_chain matches Some(chosen) && crate::text::lower(chosen) == name
}

/// Whether the user chose one of the supported chains.
pub open spec fn chose_supported(user: UserView) -> bool {
    chose(user, "avalanche"@) || chose(user, "bsc"@)
}

/// Whether `order` is for the wallet and under the name that the user reports, on the
/// supported chain that the user chose.
pub open spec fn is_for(order: OrderView, user: UserView) -> bool {
    &&& user.wallet_address == Some(order.wallet)
    &&& user.username == order.username
    &&& chose(user, order.chain.name)
    &&& order.chain == crate::chain::supported()[0] || order.chain == crate::chain::supported()[1]
    &&& order.source == Source::Api
}

/// The name that a choice is looked up by: its own in lower case, and none for no choice.
proof fn lemma_chain_name(user: UserView)
    ensures
        user.selected_chain matches Some(chosen) ==> user.chain_name() == crate::text::lower(chosen),
        user.selected_chain is None ==> user.chain_name().len() == 0,
        crate::chain::named(crate::chain::supported(), user.chain_name()) is Some
            <==> chose_supported(user),
        crate::chain::named(crate::chain::supported(), user.chain_name()) matches Some(chain) ==> {
            &&& chose(user, chain.name)
            &&& chain == crate::chain::supported()[0] || chain == crate::chain::supported()[1]
        },
{
    reveal_strlit("avalanche");
    reveal_strlit("bsc");
    crate::chain::law_only_own_names_lead_to_chains(user.chain_name());
    crate::chain::law_supported_chains_are_these();
    if user.selected_chain is None {
        assert(vstd::utf8::is_ascii_chars(Seq::<char>::empty()));
        assert(user.chain_name().len() == 0);
    }
}

/// Every order of an answer is for a user of it who was not seen before, on the very
/// chain that this user chose.
pub proof fn law_order_is_on_the_chosen_chain(
    first: bool,
    seen: Set<Seq<char>>,
    fired: Set<Seq<char>>,
    users: Seq<UserView>,
    i: int,
)
    requires
        0 <= i < crate::poller::digested(first, seen, fired, users).orders.len(),
    ensures
        !first,
        exists|u: int|
            0 <= u < users.len() && is_for(
                crate::poller::digested(first, seen, fired, users).orders[i],
                #[trigger] users[u],
            ) && !seen.contains(users[u].id),
{
    crate::poller::law_orders_are_for_new_users(first, seen, fired, users, i);
    let order = crate::poller::digested(first, seen, fired, users).orders[i];
    let u = choose|u: int|
        0 <= u < users.len() && crate::poller::placed_for(order, #[trigger] users[u])
            && !seen.contains(users[u].id);
    lemma_chain_name(users[u]);
    assert(is_for(order, users[u]));
}

/// What is said and ordered so far has no part in what comes of further users.
proof fn lemma_take_all_adds(desk: Desk, users: Seq<UserView>)
    ensures
        ({
            let alone = crate::poller::take_all(
                crate::poller::desk_of(desk.seen, desk.fired),
                users,
            );
            let after = crate::poller::take_all(desk, users);
            &&& after.seen == alone.seen
            &&& after.fired == alone.fired
            &&& after.lines == desk.lines + alone.lines
            &&& after.orders == desk.orders + alone.orders
        }),
    decreases users.len(),
{
    let alone = crate::poller::take_all(crate::poller::desk_of(desk.seen, desk.fired), users);
    let after = crate::poller::take_all(desk, users);
    if users.len() > 0 {
        lemma_take_all_adds(desk, users.drop_last());
    }
    assert(after.lines =~= desk.lines + alone.lines);
    assert(after.orders =~= desk.orders + alone.orders);
}

proof fn lemma_take_all_in_turn(desk: Desk, users: Seq<UserView>, more: Seq<UserView>)
    ensures
        crate::poller::take_all(desk, users + more) == crate::poller::take_all(
            crate::poller::take_all(desk, users),
            more,
        ),
    decreases more.len(),
{
    if more.len() == 0 {
        assert(users + more =~= users);
    } else {
        lemma_take_all_in_turn(desk, users, more.drop_last());
        assert((users + more).drop_last() =~= users + more.drop_last());
        assert((users + more).last() == more.last());
    }
}

/// A later answer is taken user by user: it leads to what its first users lead to, and
/// then to what the others lead to from there.
pub proof fn law_answer_is_taken_in_turn(
    seen: Set<Seq<char>>,
    fired: Set<Seq<char>>,
    users: Seq<UserView>,
    more: Seq<UserView>,
)
    ensures
        ({
            let whole = crate::poller::digested(false, seen, fired, users + more);
            let head = crate::poller::digested(false, seen, fired, users);
            let tail = crate::poller::digested(false, head.seen, head.fired, more);
            &&& whole.seen == tail.seen
            &&& whole.fired == tail.fired
            &&& whole.lines == head.lines + tail.lines
            &&& whole.orders == head.orders + tail.orders
        }),
{
    let start = crate::poller::desk_of(seen, fired);
    lemma_take_all_in_turn(start, users, more);
    lemma_take_all_adds(crate::poller::take_all(start, users), more);
}

/// What a single user of a later answer leads to. One who was seen before, or has no
/// wallet, leads to nothing but being known. Any other is shown with the chosen chain.
/// One whose choice is not supported is shown as such and leads to nothing more. One
/// whose choice is supported gets the wallet ordered there, unless it is taken on.
pub proof fn law_single_user(seen: Set<Seq<char>>, fired: Set<Seq<char>>, user: UserView)
    ensures
        ({
            let desk = crate::poller::digested(false, seen, fired, seq![user]);
            let met = !seen.contains(user.id) && user.wallet_address is Some;
            let key = crate::text::lower(user.wallet_address->0);
            let fresh = met && chose_supported(user) && !fired.contains(key);
            let choice = match user.selected_chain {
                Some(chosen) => crate::text::lower(chosen),
                None => Seq::<char>::empty(),
            };
            &&& desk.seen == seen.insert(user.id)
            &&& desk.orders.len() == if fresh {
                1nat
            } else {
                0nat
            }
            &&& fresh ==> is_for(desk.orders[0], user)
            &&& desk.fired == if fresh {
                fired.insert(key)
            } else {
                fired
            }
            &&& desk.lines.len() == if !met {
                0nat
            } else if chose_supported(user) {
                1nat
            } else {
                2nat
            }
            &&& met ==> desk.lines[0] == seq![
                (Tint::Yellow, "🆕"@),
                (Tint::Plain, " [API] @"@ + user.username + " | "@ + choice),
            ]
            &&& met && !chose_supported(user) ==> desk.lines[1] == seq![
                (Tint::Yellow, "⏭️"@),
                (Tint::Plain, " Chain '"@ + choice + "' not supported"@),
            ]
        }),
{
    let start = crate::poller::desk_of(seen, fired);
    lemma_chain_name(user);
    reveal_with_fuel(crate::poller::take_all, 2);
    assert(seq![user].drop_last() =~= Seq::empty());
    assert(seq![user].last() == user);
    if seen.contains(user.id) {
        assert(seen.insert(user.id) =~= seen);
    }
    if user.selected_chain is None {
        assert(user.chain_name() =~= Seq::empty());
    }
}

/// Wherever a user stands in a later answer, a choice that is not supported orders
/// nothing and takes on nothing.
pub proof fn law_unsupported_choice_is_passed_over(
    seen: Set<Seq<char>>,
    fired: Set<Seq<char>>,
    users: Seq<UserView>,
    user: UserView,
)
    requires
        !chose_supported(user),
    ensures
        ({
            let without = crate::poller::digested(false, seen, fired, users);
            let with = crate::poller::digested(false, seen, fired, users.push(user));
            &&& with.orders == without.orders
            &&& with.fired == without.fired
            &&& with.seen == without.seen.insert(user.id)
        }),
{
    let without = crate::poller::digested(false, seen, fired, users);
    law_answer_is_taken_in_turn(seen, fired, users, seq![user]);
    assert(users + seq![user] =~= users.push(user));
    law_single_user(without.seen, without.fired, user);
    let tail = crate::poller::digested(false, without.seen, without.fired, seq![user]);
    assert(without.orders + tail.orders =~= without.orders);
}

/// Wherever a new user stands in a later answer, a supported choice and a wallet that is
/// not taken on lead to one more order: for that wallet, on that chain.
pub proof fn law_supported_choice_is_ordered(
    seen: Set<Seq<char>>,
    fired: Set<Seq<char>>,
    users: Seq<UserView>,
    user: UserView,
)
    requires
        chose_supported(user),
        user.wallet_address is Some,
        !crate::poller::digested(false, seen, fired, users).seen.contains(user.id),
        !crate::poller::digested(false, seen, fired, users).fired.contains(
            crate::text::lower(user.wallet_address->0),
        ),
    ensures
        ({
            let without = crate::poller::digested(false, seen, fired, users);
            let with = crate::poller::digested(false, seen, fired, users.push(user));
            &&& with.orders.len() == without.orders.len() + 1
            &&& with.orders.drop_last() == without.orders
            &&& is_for(with.orders.last(), user)
            &&& with.fired == without.fired.insert(crate::text::lower(user.wallet_address->0))
        }),
{
    let without = crate::poller::digested(false, seen, fired, users);
    law_answer_is_taken_in_turn(seen, fired, users, seq![user]);
    assert(users + seq![user] =~= users.push(user));
    law_single_user(without.seen, without.fired, user);
    let tail = crate::poller::digested(false, without.seen, without.fired, seq![user]);
    assert((without.orders + tail.orders).drop_last() =~= without.orders);
}

/// An answer without users changes nothing, unless it is the first: then it is shown
/// how many users are known.
pub proof fn law_empty_answer(first: bool, seen: Set<Seq<char>>, fired: Set<Seq<char>>)
    ensures
        ({
            let desk = crate::poller::digested(first, seen, fired, Seq::empty());
            &&& desk.seen == seen
            &&& desk.fired == fired
            &&& desk.orders.len() == 0
            &&& desk.lines.len() == if first {
                1nat
            } else {
                0nat
            }
        }),
{
}

/// The first answer is met with one line, which tells how many users are known then:
/// the different identifiers of the answer, besides those known before.
pub proof fn law_seeding_is_counted(
    seen: Set<Seq<char>>,
    fired: Set<Seq<char>>,
    users: Seq<UserView>,
    known: Set<Seq<char>>,
)
    requires
        forall|id: Seq<char>| #[trigger]
            known.contains(id) <==> seen.contains(id) || crate::poller::names_id(users, id),
    ensures
        crate::poller::digested(true, seen, fired, users).seen == known,
        crate::poller::digested(true, seen, fired, users).lines == seq![
            seq![
                (Tint::Green, "🌱"@),
                (
                    Tint::Plain,
                    " Seeded "@ + crate::text::decimal_text(known.len()) + " users"@,
                ),
            ],
        ],
{
    let desk = crate::poller::digested(true, seen, fired, users);
    assert forall|id: Seq<char>| desk.seen.contains(id) == known.contains(id) by {
        crate::poller::law_first_answer_adds_its_users(seen, fired, users, id, id);
    }
    assert(desk.seen =~= known);
    crate::poller::law_first_answer_only_seeds(seen, fired, users);
}

} // verus!
