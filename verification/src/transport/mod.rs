//! The frames the transports exchange with the dispatcher, and the decision
//! logic of each transport.
use vstd::prelude::*;
use crate::buffers::bytes_view;
use crate::types::NetworkAddress;

pub mod bbmd;
pub mod ip;
pub mod mstp;
pub mod sc;

verus! {

/// A frame received from any transport.
#[derive(Debug, Clone)]
pub struct InboundFrame {
    pub src: NetworkAddress,
    pub npdu: bytes::Bytes,
}

/// A frame to send out through any transport.
#[derive(Debug, Clone)]
pub struct OutboundFrame {
    pub dst: Destination,
    pub npdu: bytes::Bytes,
}

/// Where an outbound frame goes.
#[derive(Debug, Clone, Copy, PartialEq, Eq)]
pub enum Destination {
    Unicast(NetworkAddress),
    Broadcast { network_number: u16 },
}

/// The model of outbound frames: destination and NPDU octets.
pub open spec fn frames_view(s: Seq<OutboundFrame>) -> Seq<(Destination, Seq<u8>)> {
    s.map_values(|f: OutboundFrame| (f.dst, bytes_view(f.npdu)))
}

} // verus!
