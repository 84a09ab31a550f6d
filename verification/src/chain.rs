//! The chains that shares are bought on.

use vstd::prelude::*;
use vstd::string::*;

verus! {

/// A chain: where it is reached, which contract sells the shares there, and how it
/// is named in what the bot says.
#[derive(Clone, Copy, Debug)]
pub struct Chain {
    pub name: &'static str,
    pub http: &'static str,
    pub ws: &'static str,
    pub contract: &'static str,
    pub chain_id: u64,
    pub symbol: &'static str,
    pub explorer: &'static str,
}

/// What a [`Chain`] says.
pub struct ChainView {
    pub name: Seq<char>,
    pub http: Seq<char>,
    pub ws: Seq<char>,
    pub contract: Seq<char>,
    pub chain_id: u64,
    pub symbol: Seq<char>,
    pub explorer: Seq<char>,
}

impl View for Chain {
    type V = ChainView;

    open spec fn view(&self) -> ChainView {
        ChainView {
            name: self.name@,
            http: self.http@,
            ws: self.ws@,
            contract: self.contract@,
            chain_id: self.chain_id,
            symbol: self.symbol@,
            explorer: self.explorer@,
        }
    }
}

impl ChainView {
    /// Whether the chain's contract is given by an address.
    pub open spec fn valid(self) -> bool {
        crate::hexcode::address_of(self.contract) is Some
    }
}

/// The Avalanche C-Chain.
pub open spec fn avalanche() -> ChainView {
    ChainView {
        name: "avalanche"@,
        http: "https://api.avax.network/ext/bc/C/rpc"@,
        ws: "wss://go.getblock.io/acccbcbc392744d083ccaa244a9c10df"@,
        contract: "0x2Fec21938e4d11117Bda59a5fE880c1d0AE54A7F"@,
        chain_id: 43114,
        symbol: "AVAX"@,
        explorer: "https://snowtrace.io/tx/"@,
    }
}

/// The BNB Smart Chain.
pub open spec fn bsc() -> ChainView {
    ChainView {
        name: "bsc"@,
        http: "https://go.getblock.asia/d8ef98407a514636b4c0daad4fc714fd"@,
        ws: "wss://bsc-rpc.publicnode.com"@,
        contract: "0xC12ab9BC529809d6041564FE6aC65FAF8e190E7B"@,
        chain_id: 56,
        symbol: "BNB"@,
        explorer: "https://bscscan.com/tx/"@,
    }
}

/// The supported chains, in the order in which a name is looked up.
pub open spec fn supported() -> Seq<ChainView> {
    seq![avalanche(), bsc()]
}

/// The first of `chains` that is called `name`.
pub open spec fn named(chains: Seq<ChainView>, name: Seq<char>) -> Option<ChainView>
    decreases chains.len(),
{
    if chains.len() == 0 {
        None
    } else if chains[0].name == name {
        Some(chains[0])
    } else {
        named(chains.skip(1), name)
    }
}

/// Every supported chain's contract is given by a plain address, which parses.
pub proof fn law_supported_chains_are_valid(i: int)
    requires
        0 <= i < supported().len(),
    ensures
        crate::hexcode::is_plain_address(supported()[i].contract),
        supported()[i].valid(),
{
    reveal_strlit("0x2Fec21938e4d11117Bda59a5fE880c1d0AE54A7F");
    reveal_strlit("0xC12ab9BC529809d6041564FE6aC65FAF8e190E7B");
    assert(crate::hexcode::is_plain_address(avalanche().contract));
    assert(crate::hexcode::is_plain_address(bsc().contract));
    crate::hexcode::law_plain_address_parses(supported()[i].contract);
}

/// A supported chain is found by its own name, and its name is in lower case.
pub proof fn law_supported_chains_are_found(i: int)
    requires
        0 <= i < supported().len(),
    ensures
        named(supported(), supported()[i].name) == Some(supported()[i]),
        crate::text::lower(supported()[i].name) == supported()[i].name,
{
    reveal_strlit("avalanche");
    reveal_strlit("bsc");
    reveal_with_fuel(named, 3);
    assert(avalanche().name.len() != bsc().name.len());
    assert(supported().skip(1) =~= seq![bsc()]);
    assert(crate::text::lower(avalanche().name) =~= avalanche().name);
    assert(crate::text::lower(bsc().name) =~= bsc().name);
}

/// What a name leads to is one of the supported chains, is called that, and has a
/// contract.
pub proof fn law_named_chain_is_supported(name: Seq<char>)
    requires
        named(supported(), name) is Some,
    ensures
        supported().contains(named(supported(), name)->0),
        (named(supported(), name)->0).name == name,
        (named(supported(), name)->0).valid(),
{
    reveal_with_fuel(named, 3);
    assert(supported().skip(1) =~= seq![bsc()]);
    assert(seq![bsc()].skip(1) =~= Seq::empty());
    assert(supported()[0] == avalanche() && supported()[1] == bsc());
    law_supported_chains_are_valid(0);
    law_supported_chains_are_valid(1);
}

/// The supported chains.
pub fn chains() -> (list: Vec<Chain>)
    ensures
        list@.map_values(|c: Chain| c@) == supported(),
{
    let mut list: Vec<Chain> = Vec::new();
    list.push(
        Chain {
            name: "avalanche",
            http: "https://api.avax.network/ext/bc/C/rpc",
            ws: "wss://go.getblock.io/acccbcbc392744d083ccaa244a9c10df",
            contract: "0x2Fec21938e4d11117Bda59a5fE880c1d0AE54A7F",
            chain_id: 43114,
            symbol: "AVAX",
            explorer: "https://snowtrace.io/tx/",
        },
    );
    list.push(
        Chain {
            name: "bsc",
            http: "https://go.getblock.asia/d8ef98407a514636b4c0daad4fc714fd",
            ws: "wss://bsc-rpc.publicnode.com",
            contract: "0xC12ab9BC529809d6041564FE6aC65FAF8e190E7B",
            chain_id: 56,
            symbol: "BNB",
            explorer: "https://bscscan.com/tx/",
        },
    );
    assert(list@.map_values(|c: Chain| c@) =~= supported());
    list
}

/// The supported chain that is called `name`.
pub fn find_chain(name: &str) -> (found: Option<Chain>)
    ensures
        match found {
            Some(chain) => named(supported(), name@) == Some(chain@),
            None => named(supported(), name@) is None,
        },
{
    let list = chains();
    let wanted = String::from_str(name);
    let ghost views = list@.map_values(|c: Chain| c@);
    let mut i: usize = 0;
    assert(views.skip(0) =~= views);
    while i < list.len()
        invariant
            i <= list.len(),
            wanted@ == name@,
            views == list@.map_values(|c: Chain| c@),
            views == supported(),
            named(views.skip(i as int), name@) == named(views, name@),
        decreases list.len() - i,
    {
        let chain = list[i];
        assert(views.skip(i as int)[0] == chain@);
        assert(views.skip(i as int).skip(1) =~= views.skip(i as int + 1));
        if String::from_str(chain.name) == wanted {
            return Some(chain);
        }
        i = i + 1;
    }
    None
}

/// There are two supported chains, and each has its own addresses, contract, id,
/// symbol and explorer.
pub proof fn law_supported_chains_are_these()
    ensures
        supported().len() == 2,
        supported()[0].name == "avalanche"@,
        supported()[0].http == "https://api.avax.network/ext/bc/C/rpc"@,
        supported()[0].ws == "wss://go.getblock.io/acccbcbc392744d083ccaa244a9c10df"@,
        supported()[0].contract == "0x2Fec21938e4d11117Bda59a5fE880c1d0AE54A7F"@,
        supported()[0].chain_id == 43114,
        supported()[0].symbol == "AVAX"@,
        supported()[0].explorer == "https://snowtrace.io/tx/"@,
        supported()[1].name == "bsc"@,
        supported()[1].http == "https://go.getblock.asia/d8ef98407a514636b4c0daad4fc714fd"@,
        supported()[1].ws == "wss://bsc-rpc.publicnode.com"@,
        supported()[1].contract == "0xC12ab9BC529809d6041564FE6aC65FAF8e190E7B"@,
        supported()[1].chain_id == 56,
        supported()[1].symbol == "BNB"@,
        supported()[1].explorer == "https://bscscan.com/tx/"@,
{
}

/// A name leads to a supported chain exactly when it is that chain's own, letter for
/// letter.
pub proof fn law_only_own_names_lead_to_chains(name: Seq<char>)
    ensures
        name == "avalanche"@ ==> named(supported(), name) == Some(supported()[0]),
        name == "bsc"@ ==> named(supported(), name) == Some(supported()[1]),
        name != "avalanche"@ && name != "bsc"@ ==> named(supported(), name) is None,
{
    reveal_strlit("avalanche");
    reveal_strlit("bsc");
    reveal_with_fuel(named, 3);
    assert("avalanche"@.len() != "bsc"@.len());
    assert(supported().skip(1) =~= seq![bsc()]);
    assert(seq![bsc()].skip(1) =~= Seq::empty());
}

/// A name leads to the first chain in a list that has it, and to none where no chain
/// has it.
pub proof fn law_lookup_is_by_name(chains: Seq<ChainView>, name: Seq<char>)
    ensures
        match named(chains, name) {
            Some(chain) => chain.name == name && exists|i: int|
                0 <= i < chains.len() && #[trigger] chains[i] == chain && forall|j: int|
                    0 <= j < i ==> (#[trigger] chains[j]).name != name,
            None => forall|i: int| 0 <= i < chains.len() ==> (#[trigger] chains[i]).name != name,
        },
    decreases chains.len(),
{
    if chains.len() > 0 {
        let rest = chains.skip(1);
        law_lookup_is_by_name(rest, name);
        assert forall|i: int| 1 <= i < chains.len() implies #[trigger] chains[i] == rest[i - 1] by {}
        if chains[0].name != name {
            if let Some(chain) = named(chains, name) {
                let i = choose|i: int|
                    0 <= i < rest.len() && #[trigger] rest[i] == chain && forall|j: int|
                        0 <= j < i ==> (#[trigger] rest[j]).name != name;
                assert(chains[i + 1] == chain);
                assert forall|j: int| 0 <= j < i + 1 implies (#[trigger] chains[j]).name != name by {
                    if j > 0 {
                        assert(rest[j - 1].name != name);
                    }
                }
            } else {
                assert forall|i: int| 0 <= i < chains.len() implies (#[trigger] chains[i]).name
                    != name by {
                    if i > 0 {
                        assert(rest[i - 1].name != name);
                    }
                }
            }
        }
    }
}

} // verus!
