//! The miner's options as they come from the command line, and their
//! resolution into the configuration that the miner runs with.

use vstd::prelude::*;
use vstd::string::StringExecFns;
use log::LevelFilter;
use crate::endpoint::{
    effective_port, effective_port_of, lemma_resolved_endpoint_idempotent, normalize_endpoint,
    resolved_endpoint, ResolveError,
};
use crate::network::{
    check_networks, network_identifier, networks_differ, reconciled_percent, NetworkMismatch,
    DEVFUND_ADDRESS,
};

verus! {

/// The verbosity levels of the `log` crate, declared with the six variants
/// that its source gives them, so that a level can be named in a contract.
#[verifier::external_type_specification]
pub struct ExLevelFilter(LevelFilter);

/// The miner's options.
#[derive(Debug, Clone)]
pub struct Opt {
    /// Log at debug level.
    pub debug: bool,
    /// The address that the miner's reward is paid to.
    pub mining_address: String,
    /// The node to mine for: a host, `host:port`, or a whole URI.
    pub kaspad_address: String,
    /// The devfund's share of the blocks, in hundredths of a percent.
    pub devfund_percent: u16,
    /// The node's port, where the node's address names none.
    pub port: Option<u16>,
    /// Mine on the test network.
    pub testnet: bool,
    /// The number of mining threads; zero leaves the choice to the miner.
    pub num_threads: Option<u16>,
    /// Mine even while the node reports that it is not synced.
    pub mine_when_not_synced: bool,
    /// The address that the devfund's share is paid to.
    pub devfund_address: String,
}

/// The number of threads asked for; zero, which leaves the choice to the
/// miner, where none was given.
pub open spec fn effective_threads(requested: Option<u16>) -> u16 {
    match requested {
        Some(count) => count,
        None => 0,
    }
}

impl Opt {
    /// The port that these options lead to.
    pub open spec fn resolved_port(&self) -> u16 {
        effective_port_of(self.port, self.testnet)
    }

    /// `self` is what resolving `raw` gives, with `uri` as the node's address.
    pub open spec fn is_resolution_of(&self, raw: &Opt, uri: Seq<char>) -> bool {
        &&& self.debug == raw.debug
        &&& self.mining_address == raw.mining_address
        &&& self.kaspad_address@ == uri
        &&& self.devfund_percent == reconciled_percent(
            raw.mining_address@,
            DEVFUND_ADDRESS@,
            raw.devfund_percent,
        )
        &&& self.port == Some(raw.resolved_port())
        &&& self.testnet == raw.testnet
        &&& self.num_threads == Some(effective_threads(raw.num_threads))
        &&& self.mine_when_not_synced == raw.mine_when_not_synced
        &&& self.devfund_address@ == DEVFUND_ADDRESS@
    }

    /// Resolves the options in place: fixes the port, brings the node's
    /// address into the form `scheme://host:port`, defaults the thread count
    /// to zero, and drops the devfund's share where the miner's address is of
    /// another network than the devfund's. Reports the two networks in that
    /// case. Options whose node address names no host are refused and left
    /// as they were.
    pub fn process(&mut self) -> (outcome: Result<Option<NetworkMismatch>, ResolveError>)
        ensures
            match outcome {
                Ok(notice) => {
                    &&& resolved_endpoint(old(self).kaspad_address@, old(self).resolved_port())
                        is Ok
                    &&& final(self).is_resolution_of(
                        old(self),
                        resolved_endpoint(
                            old(self).kaspad_address@,
                            old(self).resolved_port(),
                        )->Ok_0,
                    )
                    &&& notice is Some <==> networks_differ(
                        old(self).mining_address@,
                        DEVFUND_ADDRESS@,
                    )
                    &&& notice matches Some(m) ==> {
                        &&& network_identifier(old(self).mining_address@) == Some(
                            m.mining_network@,
                        )
                        &&& network_identifier(DEVFUND_ADDRESS@) == Some(m.devfund_network@)
                    }
                },
                Err(e) => {
                    &&& resolved_endpoint(old(self).kaspad_address@, old(self).resolved_port())
                        == Err::<Seq<char>, ResolveError>(e)
                    &&& *final(self) == *old(self)
                },
            },
    {
        let port: u16 = effective_port(self.port, self.testnet);
        let uri: String = match normalize_endpoint(self.kaspad_address.as_str(), port) {
            Ok(uri) => uri,
            Err(e) => {
                return Err(e);
            },
        };
        self.port = Some(port);
        self.kaspad_address = uri;
        if self.num_threads.is_none() {
            self.num_threads = Some(0);
        }
        self.devfund_address = String::from_str(DEVFUND_ADDRESS);
        let mismatch: Option<NetworkMismatch> = check_networks(
            self.mining_address.as_str(),
            self.devfund_address.as_str(),
        );
        if mismatch.is_some() {
            self.devfund_percent = 0;
        }
        Ok(mismatch)
    }

    /// The node's port: the one given, else the default of the network. The
    /// choice is kept, so that it is made once.
    pub fn port(&mut self) -> (port: u16)
        ensures
            port == old(self).resolved_port(),
            *final(self) == (Opt { port: Some(port), ..*old(self) }),
    {
        let port: u16 = effective_port(self.port, self.testnet);
        self.port = Some(port);
        port
    }

    /// The verbosity to log at: debug where asked for, else info.
    pub fn log_level(&self) -> (level: LevelFilter)
        ensures
            level == if self.debug {
                LevelFilter::Debug
            } else {
                LevelFilter::Info
            },
    {
        if self.debug {
            LevelFilter::Debug
        } else {
            LevelFilter::Info
        }
    }
}

/// Resolved options are their own resolution: resolving them once more
/// succeeds and changes neither the node's address nor the port, the thread
/// count or the devfund's share.
pub proof fn lemma_resolution_is_fixed_point(raw: Opt, resolved: Opt)
    requires
        resolved_endpoint(raw.kaspad_address@, raw.resolved_port()) is Ok,
        resolved.is_resolution_of(
            &raw,
            resolved_endpoint(raw.kaspad_address@, raw.resolved_port())->Ok_0,
        ),
    ensures
        resolved_endpoint(resolved.kaspad_address@, resolved.resolved_port()) == Ok::<
            Seq<char>,
            ResolveError,
        >(resolved.kaspad_address@),
        resolved.is_resolution_of(&resolved, resolved.kaspad_address@),
{
    lemma_resolved_endpoint_idempotent(
        raw.kaspad_address@,
        raw.resolved_port(),
        resolved.resolved_port(),
    );
}

/// A thread count that was given is kept, and a missing one becomes zero.
pub proof fn lemma_thread_count_default(raw: Opt, resolved: Opt, uri: Seq<char>)
    requires
        resolved.is_resolution_of(&raw, uri),
    ensures
        raw.num_threads is None ==> resolved.num_threads == Some(0u16),
        raw.num_threads is Some ==> resolved.num_threads == raw.num_threads,
{
}

} // verus!
