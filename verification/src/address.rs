//! The address under which other machines of the local network reach this
//! one, and the base URL that is built on it.

use crate::config::{default_protocol, spec_known_protocol, MyConfig};
use vstd::prelude::*;
use vstd::string::*;

verus! {

/// The address of the host, as the text that stands in a URL.
#[derive(Debug, PartialEq, Eq)]
pub struct HostAddress {
    pub ip: String,
}

/// The text of the IPv4 loopback address.
pub open spec fn loopback_text() -> Seq<char> {
    seq!['1', '2', '7', '.', '0', '.', '0', '.', '1']
}

/// What stands between the protocol and the address in a URL.
pub open spec fn scheme_separator() -> Seq<char> {
    seq![':', '/', '/']
}

/// The base URL `protocol://ip:port`.
pub open spec fn spec_base_url(protocol: Seq<char>, ip: Seq<char>, port: Seq<char>) -> Seq<char> {
    protocol + scheme_separator() + ip + seq![':'] + port
}

/// The address that is used for a lookup's outcome: the address that was
/// found, or the loopback address where none was.
pub open spec fn spec_host_text(found: Option<String>) -> Seq<char> {
    match found {
        Some(ip) => ip@,
        None => loopback_text(),
    }
}

/// Asks `local_ip_address::local_ip` for the IPv4 address of this machine in
/// the local network and hands it back as text, or `None` where the lookup
/// failed. Nothing is claimed of the outcome: it depends on the machine and
/// may change from one call to the next.
#[verifier::external_body]
fn lookup_local_ip() -> (found: Option<String>) {
    match local_ip_address::local_ip() {
        Ok(ip) => Some(ip.to_string()),
        Err(_) => None,
    }
}

impl HostAddress {
    /// The IPv4 loopback address, `127.0.0.1`.
    pub fn loopback() -> (host: HostAddress)
        ensures
            host.ip@ == loopback_text(),
    {
        proof {
            reveal_strlit("127.0.0.1");
            assert("127.0.0.1"@ =~= loopback_text());
        }
        HostAddress { ip: String::from_str("127.0.0.1") }
    }

    /// The address for the outcome of a lookup: a failed lookup gives the
    /// loopback address, never an error.
    pub fn from_lookup(found: Option<String>) -> (host: HostAddress)
        ensures
            host.ip@ == spec_host_text(found),
    {
        match found {
            Some(ip) => HostAddress { ip },
            None => HostAddress::loopback(),
        }
    }
}

/// The base URL of a server with configuration `config` on host `host`.
pub fn base_url(config: &MyConfig, host: &HostAddress) -> (url: String)
    ensures
        url@ == spec_base_url(config@.protocol, host.ip@, config@.port),
        config@.is_valid(),
{
    proof {
        reveal_strlit("://");
        reveal_strlit(":");
        assert("://"@ =~= scheme_separator());
        assert(":"@ =~= seq![':']);
    }
    let mut url = String::from_str(config.protocol());
    url.append("://");
    url.append(host.ip.as_str());
    url.append(":");
    url.append(config.port());
    url
}

/// The base URL for the outcome of an address lookup.
pub fn base_url_for(config: &MyConfig, found: Option<String>) -> (url: String)
    ensures
        url@ == spec_base_url(config@.protocol, spec_host_text(found), config@.port),
        config@.is_valid(),
{
    let host = HostAddress::from_lookup(found);
    base_url(config, &host)
}

/// Resolves the base URL of this machine: looks its address up and builds the
/// URL on it, or on the loopback address where the lookup fails. The result
/// is a base URL of the configured protocol and port on some address.
pub fn resolve(config: &MyConfig) -> (url: String)
    ensures
        exists|ip: Seq<char>| url@ == #[trigger] spec_base_url(config@.protocol, ip, config@.port),
        config@.is_valid(),
{
    let host = HostAddress::from_lookup(lookup_local_ip());
    base_url(config, &host)
}

/// A base URL of a protocol that the server speaks begins with `http://` or
/// with `https://`. Every configuration has such a protocol, so every URL
/// that is built on a configuration does.
pub proof fn lemma_base_url_scheme(protocol: Seq<char>, ip: Seq<char>, port: Seq<char>)
    requires
        spec_known_protocol(protocol),
    ensures
        spec_base_url(protocol, ip, port).take(7) == seq!['h', 't', 't', 'p', ':', '/', '/']
            || spec_base_url(protocol, ip, port).take(8) == seq![
            'h',
            't',
            't',
            'p',
            's',
            ':',
            '/',
            '/',
        ],
{
    let url = spec_base_url(protocol, ip, port);
    if protocol == default_protocol() {
        assert(url.take(7) =~= seq!['h', 't', 't', 'p', ':', '/', '/']);
    } else {
        assert(url.take(8) =~= seq!['h', 't', 't', 'p', 's', ':', '/', '/']);
    }
}

} // verus!
