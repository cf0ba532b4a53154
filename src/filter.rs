use vstd::prelude::*;

use crate::metadata::{Metadata, ValueView};

verus! {

/// A socket address: an IPv4 or IPv6 host address and a port.
#[derive(Clone, Copy, Debug, PartialEq, Eq, Hash, Structural)]
pub enum Address {
    V4 { octets: u32, port: u16 },
    V6 { segments: u128, port: u16 },
}

impl Address {
    /// The port of the address.
    pub fn port(&self) -> (r: u16)
        ensures
            r == match *self {
                Address::V4 { port, .. } => port,
                Address::V6 { port, .. } => port,
            },
    {
        match *self {
            Address::V4 { port, .. } => port,
            Address::V6 { port, .. } => port,
        }
    }
}

/// An upstream that datagrams are forwarded to.
#[derive(Clone, Debug, PartialEq, Eq)]
pub struct Endpoint {
    pub address: Address,
    /// Connection ids that this endpoint accepts, if it restricts them.
    pub connection_ids: Option<Vec<Vec<u8>>>,
}

impl Endpoint {
    /// An endpoint at `address` that accepts every connection id.
    pub fn new(address: Address) -> (r: Endpoint)
        ensures
            r.address == address,
            r.connection_ids is None,
    {
        Endpoint { address, connection_ids: None }
    }
}

/// The state of one inbound datagram while it passes the filter chain.
pub struct ReadContext {
    /// The upstreams the datagram may go to.
    pub endpoints: Vec<Endpoint>,
    /// Where the datagram came from.
    pub source: Address,
    /// The payload.
    pub contents: Vec<u8>,
    /// Metadata that filters attach to the datagram.
    pub metadata: Metadata,
}

impl ReadContext {
    /// A context for `contents` received from `source`, with no metadata.
    pub fn new(endpoints: Vec<Endpoint>, source: Address, contents: Vec<u8>) -> (r: ReadContext)
        ensures
            r.endpoints == endpoints,
            r.source == source,
            r.contents == contents,
            r.metadata@ == Map::<Seq<char>, ValueView>::empty(),
    {
        ReadContext { endpoints, source, contents, metadata: Metadata::new() }
    }
}

/// The state of one datagram on its way back from an upstream.
pub struct WriteContext {
    /// The upstream the datagram came from.
    pub endpoint: Endpoint,
    /// The address of the upstream that sent it.
    pub source: Address,
    /// The client it goes to.
    pub dest: Address,
    /// The payload.
    pub contents: Vec<u8>,
    /// Metadata that filters attach to the datagram.
    pub metadata: Metadata,
}

impl WriteContext {
    /// A context for `contents` sent by `source` on behalf of `endpoint`, bound for `dest`.
    pub fn new(endpoint: Endpoint, source: Address, dest: Address, contents: Vec<u8>) -> (r:
        WriteContext)
        ensures
            r.endpoint == endpoint,
            r.source == source,
            r.dest == dest,
            r.contents == contents,
            r.metadata@ == Map::<Seq<char>, ValueView>::empty(),
    {
        WriteContext { endpoint, source, dest, contents, metadata: Metadata::new() }
    }
}

/// A stage of the filter chain. `None` drops the datagram.
pub trait Filter {
    /// Handles a datagram on its way from a client to the upstreams.
    fn read(&mut self, ctx: ReadContext) -> Option<ReadContext>;

    /// Handles a datagram on its way from an upstream to its client.
    fn write(&mut self, ctx: WriteContext) -> Option<WriteContext>;
}

} // verus!
