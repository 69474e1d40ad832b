//! The resolver configuration for a name server that was given by hand.

use crate::server::NameServer;
use vstd::prelude::*;

verus! {

/// The configuration of a resolver, of the `trust_dns_resolver` crate;
/// carried through as it is.
#[verifier::external_type_specification]
#[verifier::external_body]
pub struct ExResolverConfig(trust_dns_resolver::config::ResolverConfig);

/// The name servers that a configuration holds, in the order in which they
/// were added: of each the bytes of its address, its port, and whether it
/// is asked over UDP.
pub uninterp spec fn name_servers(config: trust_dns_resolver::config::ResolverConfig) -> Seq<
    (Seq<u8>, u16, bool),
>;

/// `ResolverConfig::new`: a configuration that holds no name server.
#[verifier::external_body]
fn empty_config() -> (config: trust_dns_resolver::config::ResolverConfig)
    ensures
        name_servers(config) == Seq::<(Seq<u8>, u16, bool)>::empty(),
{
    trust_dns_resolver::config::ResolverConfig::new()
}

/// `ResolverConfig::add_name_server`, handed a `NameServerConfig::new` of
/// the address, the port and UDP: the configuration holds one name server
/// more, behind those it held.
#[verifier::external_body]
fn add_udp_server(config: &mut trust_dns_resolver::config::ResolverConfig, ip: [u8; 4], port: u16)
    ensures
        name_servers(*final(config)) == name_servers(*old(config)).push((ip@, port, true)),
{
    config.add_name_server(
        trust_dns_resolver::config::NameServerConfig::new(
            (ip, port).into(),
            trust_dns_resolver::config::Protocol::Udp,
        ),
    );
}

/// The configuration of a resolver that asks `server` alone, over UDP.
pub fn resolver_config(server: &NameServer) -> (config: trust_dns_resolver::config::ResolverConfig)
    ensures
        name_servers(config) == seq![(server.ip@, server.port, true)],
{
    let mut config: trust_dns_resolver::config::ResolverConfig = empty_config();
    add_udp_server(&mut config, server.ip, server.port);
    assert(name_servers(config) =~= seq![(server.ip@, server.port, true)]);
    config
}

} // verus!
