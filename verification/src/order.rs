//! What is to be bought, and what has been taken on already.

use vstd::hash_set::StringHashSet;
use vstd::prelude::*;
use vstd::string::*;

use crate::chain::{Chain, ChainView};
use crate::text::lowercase;

verus! {

/// Where a share subject was noticed.
#[derive(Clone, Copy, Debug, PartialEq, Eq, Structural)]
pub enum Source {
    Mempool,
    Api,
}

impl Source {
    /// The name of the source in messages.
    pub open spec fn label(self) -> Seq<char> {
        match self {
            Source::Mempool => "MEMPOOL"@,
            Source::Api => "API"@,
        }
    }

    /// The name of the source in messages.
    pub fn text(&self) -> (text: &'static str)
        ensures
            text@ == self.label(),
    {
        match self {
            Source::Mempool => "MEMPOOL",
            Source::Api => "API",
        }
    }
}

/// An order to buy the shares of one wallet on one chain.
#[derive(Debug)]
pub struct Order {
    pub username: String,
    pub wallet: String,
    pub chain: Chain,
    pub source: Source,
}

/// What an [`Order`] says.
pub struct OrderView {
    pub username: Seq<char>,
    pub wallet: Seq<char>,
    pub chain: ChainView,
    pub source: Source,
}

impl View for Order {
    type V = OrderView;

    open spec fn view(&self) -> OrderView {
        OrderView {
            username: self.username@,
            wallet: self.wallet@,
            chain: self.chain@,
            source: self.source,
        }
    }
}

/// What a list of orders says.
pub open spec fn ordered(orders: Seq<Order>) -> Seq<OrderView> {
    orders.map_values(|o: Order| o@)
}

/// The name under which an order's wallet is taken on.
pub open spec fn order_key(order: OrderView) -> Seq<char> {
    crate::text::lower(order.wallet)
}

/// The wallets taken on once `order` came up, and the order if it is to be carried out:
/// it is where its wallet was not taken on yet.
pub open spec fn taken_up(fired: Set<Seq<char>>, order: OrderView) -> (
    Set<Seq<char>>,
    Option<OrderView>,
) {
    (
        fired.insert(order_key(order)),
        if fired.contains(order_key(order)) {
            None
        } else {
            Some(order)
        },
    )
}

/// The wallets that were taken on, each by its address in lower case.
pub struct Fired {
    keys: StringHashSet,
}

impl View for Fired {
    type V = Set<Seq<char>>;

    closed spec fn view(&self) -> Set<Seq<char>> {
        self.keys@
    }
}

impl Fired {
    /// No wallet taken on yet.
    pub fn new() -> (fired: Fired)
        ensures
            fired@ == Set::<Seq<char>>::empty(),
    {
        Fired { keys: StringHashSet::new() }
    }

    /// Takes a wallet on, unless it was before, in any case of its letters. Says
    /// whether it is taken on now.
    pub fn claim(&mut self, wallet: &str) -> (fresh: bool)
        ensures
            fresh == !old(self)@.contains(crate::text::lower(wallet@)),
            final(self)@ == old(self)@.insert(crate::text::lower(wallet@)),
    {
        let key = lowercase(wallet);
        if self.keys.contains(key.as_str()) {
            assert(self@.insert(key@) =~= self@);
            false
        } else {
            self.keys.insert(key);
            true
        }
    }
}

} // verus!
