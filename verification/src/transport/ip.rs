//! BACnet/IP: what the UDP transport does with datagrams and outbound
//! frames.
use vstd::prelude::*;
use crate::buffers::bytes_view;
use crate::codec::bvll::{bvll_length_fits, bvll_octets, spec_bvll_decode, BvllFrame, BvllModel};
use crate::transport::{Destination, InboundFrame, OutboundFrame};
use crate::types::{Ipv4Endpoint, MacAddr, NetworkAddress};

verus! {

/// The UDP port of BACnet/IP.
pub const BACNET_IP_PORT: u16 = 47808;

/// The NPDU a received frame carries: original unicast or broadcast,
/// distribute-broadcast and forwarded NPDUs carry one; other functions none.
pub open spec fn carried_npdu(f: BvllModel) -> Option<Seq<u8>> {
    match f {
        BvllModel::OriginalUnicastNpdu(p) => Some(p),
        BvllModel::OriginalBroadcastNpdu(p) => Some(p),
        BvllModel::DistributeBroadcastToNetwork(p) => Some(p),
        BvllModel::ForwardedNpdu { npdu, .. } => Some(npdu),
        _ => None,
    }
}

/// The NPDU carried by a received BVLL frame, if any.
pub fn inbound_npdu(frame: BvllFrame) -> (r: Option<bytes::Bytes>)
    ensures
        match carried_npdu(frame@) {
            Some(p) => r matches Some(b) && bytes_view(b) == p,
            None => r is None,
        },
{
    match frame {
        BvllFrame::OriginalUnicastNpdu(d) => Some(d),
        BvllFrame::OriginalBroadcastNpdu(d) => Some(d),
        BvllFrame::DistributeBroadcastToNetwork(d) => Some(d),
        BvllFrame::ForwardedNpdu { npdu, .. } => Some(npdu),
        _ => None,
    }
}

/// The frame handed to the dispatcher for a datagram from `src`: its NPDU
/// from network 0 and the sender's address; `None` for a datagram that does
/// not decode or carries no NPDU.
pub fn receive_datagram(buf: &[u8], src: Ipv4Endpoint) -> (r: Option<InboundFrame>)
    requires
        bvll_length_fits(buf@),
    ensures
        match spec_bvll_decode(buf@) {
            Some(f) => match carried_npdu(f) {
                Some(p) => r matches Some(fr) && fr.src == (NetworkAddress { network_number: 0, mac: MacAddr::Ip(src) })
                    && bytes_view(fr.npdu) == p,
                None => r is None,
            },
            None => r is None,
        },
{
    match BvllFrame::decode(buf) {
        Ok(frame) => match inbound_npdu(frame) {
            Some(npdu) => Some(InboundFrame { src: NetworkAddress { network_number: 0, mac: MacAddr::Ip(src) }, npdu }),
            None => None,
        },
        Err(_) => None,
    }
}

/// The limited broadcast address on the BACnet/IP port.
pub open spec fn broadcast_endpoint() -> Ipv4Endpoint {
    Ipv4Endpoint { octets: [255u8, 255u8, 255u8, 255u8], port: BACNET_IP_PORT }
}

/// The endpoint an outbound frame is sent to: the IP address of a unicast
/// destination, the limited broadcast address for a broadcast; `None` for a
/// unicast to a non-IP address (the frame is skipped).
pub open spec fn destination_endpoint(dst: Destination) -> Option<Ipv4Endpoint> {
    match dst {
        Destination::Unicast(a) => match a.mac {
            MacAddr::Ip(v4) => Some(v4),
            _ => None,
        },
        Destination::Broadcast { .. } => Some(broadcast_endpoint()),
    }
}

/// What is sent for an outbound frame: its NPDU in an original unicast or
/// broadcast frame, and the endpoint; `None` when the frame is skipped.
pub fn send_plan(frame: OutboundFrame) -> (r: Option<(bytes::Bytes, Ipv4Endpoint)>)
    ensures
        match destination_endpoint(frame.dst) {
            Some(ep) => r matches Some((b, e)) && e == ep && bytes_view(b) == bvll_octets(match frame.dst {
                Destination::Unicast(_) => BvllModel::OriginalUnicastNpdu(bytes_view(frame.npdu)),
                Destination::Broadcast { .. } => BvllModel::OriginalBroadcastNpdu(bytes_view(frame.npdu)),
            }),
            None => r is None,
        },
{
    let dst = frame.dst;
    let bvll = match dst {
        Destination::Unicast(_) => BvllFrame::OriginalUnicastNpdu(frame.npdu),
        Destination::Broadcast { .. } => BvllFrame::OriginalBroadcastNpdu(frame.npdu),
    };
    let encoded = bvll.encode();
    let ep = match dst {
        Destination::Unicast(a) => match a.mac {
            MacAddr::Ip(v4) => v4,
            _ => {
                return None;
            },
        },
        Destination::Broadcast { .. } => Ipv4Endpoint { octets: [255, 255, 255, 255], port: BACNET_IP_PORT },
    };
    Some((encoded, ep))
}

} // verus!
