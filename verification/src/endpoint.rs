//! The node's address as a URI: `scheme://host:port`.

use vstd::prelude::*;
use vstd::string::StringExecFns;
use crate::text::{
    decimal_string, decimal_text, find_char, first_index_of, has_infix, has_scheme_separator,
    is_digit, lemma_contains_has_first_index, lemma_decimal_text_digits, occurs_at,
    scheme_separator,
};

verus! {

/// The port that a node of the main network listens on.
pub const MAINNET_PORT: u16 = 42110;

/// The port that a node of the test network listens on.
pub const TESTNET_PORT: u16 = 16211;

/// Why a node address was refused.
#[derive(Debug, Clone, Copy, PartialEq, Eq, Structural)]
pub enum ResolveError {
    /// The address names no host: it is empty, or starts with a colon.
    MalformedEndpoint,
}

/// The port to use: the one given, else the network's own.
pub open spec fn effective_port_of(explicit: Option<u16>, testnet: bool) -> u16 {
    match explicit {
        Some(port) => port,
        None => if testnet {
            TESTNET_PORT
        } else {
            MAINNET_PORT
        },
    }
}

/// The port to use: the one given, else the network's own.
pub fn effective_port(explicit: Option<u16>, testnet: bool) -> (port: u16)
    ensures
        port == effective_port_of(explicit, testnet),
{
    match explicit {
        Some(port) => port,
        None => if testnet {
            TESTNET_PORT
        } else {
            MAINNET_PORT
        },
    }
}

/// The scheme that an address without one is given, with its separator.
pub open spec fn default_scheme_prefix() -> Seq<char> {
    seq!['g', 'r', 'p', 'c', ':', '/', '/']
}

/// The host of an address without a scheme: what stands before its first colon.
pub open spec fn endpoint_host(addr: Seq<char>) -> Seq<char> {
    match first_index_of(addr, ':') {
        Some(k) => addr.take(k),
        None => addr,
    }
}

/// The port that an address without a scheme names: what follows its first
/// colon, or the default port in decimal where it has no colon.
pub open spec fn endpoint_port_text(addr: Seq<char>, default_port: u16) -> Seq<char> {
    match first_index_of(addr, ':') {
        Some(k) => addr.skip(k + 1),
        None => decimal_text(default_port as nat),
    }
}

/// The URI that a node address stands for.
///
/// An address that holds `://` is taken as it is. Any other must name a host,
/// and becomes `grpc://host:port`.
pub open spec fn resolved_endpoint(addr: Seq<char>, default_port: u16) -> Result<
    Seq<char>,
    ResolveError,
> {
    if has_infix(addr, scheme_separator()) {
        Ok(addr)
    } else if endpoint_host(addr).len() == 0 {
        Err(ResolveError::MalformedEndpoint)
    } else {
        Ok(
            default_scheme_prefix() + endpoint_host(addr) + seq![':'] + endpoint_port_text(
                addr,
                default_port,
            ),
        )
    }
}

/// Brings a node address into the form `scheme://host:port`.
pub fn normalize_endpoint(addr: &str, default_port: u16) -> (endpoint: Result<String, ResolveError>)
    ensures
        match endpoint {
            Ok(uri) => resolved_endpoint(addr@, default_port) == Ok::<Seq<char>, ResolveError>(
                uri@,
            ),
            Err(e) => resolved_endpoint(addr@, default_port) == Err::<Seq<char>, ResolveError>(e),
        },
{
    if has_scheme_separator(addr) {
        return Ok(String::from_str(addr));
    }
    let n: usize = addr.unicode_len();
    let mut uri: String = String::from_str("grpc://");
    proof {
        reveal_strlit("grpc://");
        reveal_strlit(":");
        assert("grpc://"@ =~= default_scheme_prefix());
        assert(":"@ =~= seq![':']);
    }
    match find_char(addr, ':') {
        Some(k) => {
            if k == 0 {
                return Err(ResolveError::MalformedEndpoint);
            }
            uri.append(addr.substring_char(0, k));
            uri.append(":");
            uri.append(addr.substring_char(k + 1, n));
        },
        None => {
            if n == 0 {
                return Err(ResolveError::MalformedEndpoint);
            }
            let port_text: String = decimal_string(default_port);
            uri.append(addr);
            uri.append(":");
            uri.append(port_text.as_str());
        },
    }
    Ok(uri)
}

/// An address that names a scheme comes back as it was given, whatever the
/// default port.
pub proof fn lemma_address_with_scheme_unchanged(addr: Seq<char>, default_port: u16)
    requires
        has_infix(addr, scheme_separator()),
    ensures
        resolved_endpoint(addr, default_port) == Ok::<Seq<char>, ResolveError>(addr),
{
}

/// Every resolved endpoint names a scheme, so resolving it once more, with
/// any default port, changes nothing.
pub proof fn lemma_resolved_endpoint_idempotent(addr: Seq<char>, first_port: u16, second_port: u16)
    requires
        resolved_endpoint(addr, first_port) is Ok,
    ensures
        has_infix(resolved_endpoint(addr, first_port)->Ok_0, scheme_separator()),
        resolved_endpoint(resolved_endpoint(addr, first_port)->Ok_0, second_port)
            == resolved_endpoint(addr, first_port),
{
    let uri = resolved_endpoint(addr, first_port)->Ok_0;
    if !has_infix(addr, scheme_separator()) {
        assert(uri.subrange(4, 7) =~= scheme_separator());
        assert(occurs_at(uri, scheme_separator(), 4));
    }
}

/// An endpoint that was given its scheme here holds the separator once: at
/// the end of that scheme.
pub proof fn lemma_built_endpoint_has_one_separator(addr: Seq<char>, default_port: u16)
    requires
        !has_infix(addr, scheme_separator()),
        resolved_endpoint(addr, default_port) is Ok,
    ensures
        forall|i: int|
            occurs_at(resolved_endpoint(addr, default_port)->Ok_0, scheme_separator(), i) <==> i
                == 4,
{
    let sep = scheme_separator();
    let uri = resolved_endpoint(addr, default_port)->Ok_0;
    let host = endpoint_host(addr);
    let port_text = endpoint_port_text(addr, default_port);
    lemma_contains_has_first_index(addr, ':');
    lemma_decimal_text_digits(default_port as nat);
    assert(uri.subrange(4, 7) =~= sep);
    assert forall|i: int| occurs_at(uri, sep, i) implies i == 4 by {
        let w = uri.subrange(i, i + 3);
        assert(w[0] == ':' && w[1] == '/' && w[2] == '/');
        if i >= 7 {
            match first_index_of(addr, ':') {
                Some(k) => {
                    assert(uri =~= default_scheme_prefix() + addr);
                    assert(addr.subrange(i - 7, i - 7 + 3) =~= sep);
                    assert(occurs_at(addr, sep, i - 7));
                },
                None => {
                    assert(uri[i] == ':');
                    assert(i == 7 + host.len());
                    assert(uri[i + 1] == port_text[0]);
                    assert(is_digit(port_text[0]));
                },
            }
        }
    }
}

/// A port written in the address wins over the default port.
pub proof fn lemma_embedded_port_wins(addr: Seq<char>, first_port: u16, second_port: u16)
    requires
        addr.contains(':'),
    ensures
        resolved_endpoint(addr, first_port) == resolved_endpoint(addr, second_port),
{
    lemma_contains_has_first_index(addr, ':');
}

} // verus!
