//! The network that an address belongs to, and the devfund's own address.

use vstd::prelude::*;
use vstd::string::StringExecFns;
use crate::text::{find_char, first_index_of, is_first_index_of, lemma_first_index_of_unique};

verus! {

/// The address that the devfund's share of the blocks is paid to.
pub const DEVFUND_ADDRESS: &'static str =
    "kaspa:pzhh76qc82wzduvsrd9xh4zde9qhp0xc8rl7qu2mvl2e42uvdqt75zrcgpm00";

/// The network of an address: what stands before its first colon. An address
/// without a colon names no network.
pub open spec fn network_identifier(addr: Seq<char>) -> Option<Seq<char>> {
    match first_index_of(addr, ':') {
        Some(k) => Some(addr.take(k)),
        None => None,
    }
}

/// Both addresses name a network, and not the same one.
pub open spec fn networks_differ(mining_address: Seq<char>, devfund_address: Seq<char>) -> bool {
    &&& network_identifier(mining_address) is Some
    &&& network_identifier(devfund_address) is Some
    &&& network_identifier(mining_address) != network_identifier(devfund_address)
}

/// The share that is left of a requested one: nothing where the miner's
/// address and the devfund's are of different networks.
pub open spec fn reconciled_percent(
    mining_address: Seq<char>,
    devfund_address: Seq<char>,
    requested: u16,
) -> u16 {
    if networks_differ(mining_address, devfund_address) {
        0
    } else {
        requested
    }
}

/// The two networks of a miner's address and a devfund address that do not
/// belong together.
#[derive(Debug, Clone, PartialEq, Eq)]
pub struct NetworkMismatch {
    /// The network of the miner's address.
    pub mining_network: String,
    /// The network of the devfund's address.
    pub devfund_network: String,
}

/// The network that an address names, if it names one.
pub fn network_of(addr: &str) -> (network: Option<String>)
    ensures
        network is Some <==> network_identifier(addr@) is Some,
        network matches Some(name) ==> network_identifier(addr@) == Some(name@),
{
    match find_char(addr, ':') {
        Some(k) => Some(String::from_str(addr.substring_char(0, k))),
        None => None,
    }
}

/// Holds the miner's address against the devfund's, and reports the two
/// networks where both name one and they differ.
pub fn check_networks(mining_address: &str, devfund_address: &str) -> (mismatch: Option<
    NetworkMismatch,
>)
    ensures
        mismatch is Some <==> networks_differ(mining_address@, devfund_address@),
        mismatch matches Some(m) ==> {
            &&& network_identifier(mining_address@) == Some(m.mining_network@)
            &&& network_identifier(devfund_address@) == Some(m.devfund_network@)
        },
{
    let mining_network: String = match network_of(mining_address) {
        Some(name) => name,
        None => {
            return None;
        },
    };
    let devfund_network: String = match network_of(devfund_address) {
        Some(name) => name,
        None => {
            return None;
        },
    };
    if mining_network == devfund_network {
        None
    } else {
        Some(NetworkMismatch { mining_network, devfund_network })
    }
}

/// The devfund's address is of the network `kaspa`.
pub proof fn lemma_devfund_network()
    ensures
        network_identifier(DEVFUND_ADDRESS@) == Some("kaspa"@),
{
    reveal_strlit("kaspa:pzhh76qc82wzduvsrd9xh4zde9qhp0xc8rl7qu2mvl2e42uvdqt75zrcgpm00");
    reveal_strlit("kaspa");
    let addr = DEVFUND_ADDRESS@;
    assert(is_first_index_of(addr, ':', 5));
    lemma_first_index_of_unique(addr, ':', 5);
    assert(addr.take(5) =~= "kaspa"@);
}

/// An address that names no network is never held to be of another network
/// than the devfund's, whatever the devfund's address is, and the requested
/// share is kept.
pub proof fn lemma_no_network_no_mismatch(
    mining_address: Seq<char>,
    devfund_address: Seq<char>,
    requested: u16,
)
    requires
        !mining_address.contains(':'),
    ensures
        network_identifier(mining_address) is None,
        !networks_differ(mining_address, devfund_address),
        reconciled_percent(mining_address, devfund_address, requested) == requested,
{
    crate::text::lemma_contains_has_first_index(mining_address, ':');
}

} // verus!
