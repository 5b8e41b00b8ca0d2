//! What is decided on the way to a transport session: the kind of name query, the address
//! taken from its answers, and the endpoint to connect to.

use vstd::pervasive::unreached;
use vstd::prelude::*;

verus! {

/// The kind of address that a caller asks for.
#[derive(Debug, Clone, Copy, PartialEq, Eq, Structural)]
pub enum AddrType {
    IPv4,
    IPv6,
    Either,
}

/// The kind of record that a name query asks for.
#[derive(Debug, Clone, Copy, PartialEq, Eq, Structural)]
pub enum DnsQueryType {
    A,
    Aaaa,
}

/// Why a name could not be resolved.
#[derive(Debug, Clone, Copy, PartialEq, Eq, Structural)]
pub enum DnsError {
    /// The query had no answer.
    Failed,
}

/// The address of the far end of a session.
#[derive(Debug, Clone, Copy, PartialEq, Eq)]
pub enum SocketAddr {
    V4 { octets: [u8; 4], port: u16 },
    V6,
}

/// The query for an address of the kind `addr_type`: for version 6 where only that is asked
/// for, else for version 4.
pub open spec fn query_for(addr_type: AddrType) -> DnsQueryType {
    match addr_type {
        AddrType::IPv6 => DnsQueryType::Aaaa,
        _ => DnsQueryType::A,
    }
}

/// Picks the kind of query for the kind of address that is asked for.
pub fn query_type(addr_type: AddrType) -> (query: DnsQueryType)
    ensures
        query == query_for(addr_type),
{
    match addr_type {
        AddrType::IPv4 | AddrType::Either => DnsQueryType::A,
        AddrType::IPv6 => DnsQueryType::Aaaa,
    }
}

/// Takes the address that a name resolves to from the answers to a query: the first one.
/// A query without answers has failed.
pub fn first_address(answers: &[[u8; 4]]) -> (address: Result<[u8; 4], DnsError>)
    ensures
        answers@.len() > 0 ==> address == Ok::<[u8; 4], DnsError>(answers@[0]),
        answers@.len() == 0 ==> address == Err::<[u8; 4], DnsError>(DnsError::Failed),
{
    if answers.len() == 0 {
        Err(DnsError::Failed)
    } else {
        Ok(answers[0])
    }
}

/// The address and the port to connect to. Only version 4 can be connected to.
pub fn endpoint(remote: SocketAddr) -> (to: ([u8; 4], u16))
    requires
        remote is V4,
    ensures
        remote == (SocketAddr::V4 { octets: to.0, port: to.1 }),
{
    match remote {
        SocketAddr::V4 { octets, port } => (octets, port),
        SocketAddr::V6 => unreached(),
    }
}

} // verus!
