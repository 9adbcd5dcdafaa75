//! BACnet/SC hub and node: the handshake and the routing decisions.  The
//! WebSocket connections themselves run outside.
use vstd::prelude::*;
use crate::buffers::{bytes_empty, bytes_from_vec, bytes_view};
use crate::codec::sc::{sc_octets, spec_sc_decode, ScControlFlags, ScFrame, ScFrameModel};
use crate::encoding::decode_error;
use crate::types::{BacnetError, ScNodeId};

verus! {

/// Connection state of a BACnet/SC node.
#[derive(Debug, Clone, Copy, PartialEq, Eq)]
pub enum ScConnectionState {
    Connecting,
    Connected,
    Disconnected,
}

/// Errors of the hub.
#[derive(Debug, Clone, Copy, PartialEq, Eq)]
pub enum ScHubError {
    NodeNotFound,
    SendFailed,
}

impl ScHubError {
    /// The error as text.
    pub fn message(&self) -> (r: &'static str)
        ensures
            r@ == (match self {
                ScHubError::NodeNotFound => "SC node not found"@,
                ScHubError::SendFailed => "SC send failed"@,
            }),
    {
        match self {
            ScHubError::NodeNotFound => "SC node not found",
            ScHubError::SendFailed => "SC send failed",
        }
    }
}

/// No control flag set.
pub open spec fn no_control() -> ScControlFlags {
    ScControlFlags { orig_vaddr_present: false, dest_vaddr_present: false, dest_options_present: false, data_options_present: false }
}

/// Whether `f` is a header-only frame of function `function` with message
/// id `message_id`.
pub open spec fn is_plain_frame(f: ScFrameModel, function: u8, message_id: u16) -> bool {
    f.function == function && f.control == no_control() && f.message_id == message_id && f.originating_vmac is None
        && f.destination_vmac is None && f.payload.len() == 0
}

fn plain_frame(function: u8, message_id: u16) -> (r: ScFrame)
    ensures
        is_plain_frame(r@, function, message_id),
{
    ScFrame {
        function,
        control: ScControlFlags { orig_vaddr_present: false, dest_vaddr_present: false, dest_options_present: false, data_options_present: false },
        message_id,
        originating_vmac: None,
        destination_vmac: None,
        payload: bytes_empty(),
    }
}

/// What a connect request from a node carries: its node identifier and
/// virtual MAC address, in the first 22 octets of the payload.
pub open spec fn connect_request_of(f: ScFrameModel) -> Option<(Seq<u8>, Seq<u8>)> {
    if f.function == 0x06 && f.payload.len() >= 22 {
        Some((f.payload.subrange(0, 16), f.payload.subrange(16, 22)))
    } else {
        None
    }
}

/// The hub's handshake with a connecting node, one message at a time: a
/// connect request yields the node's identity; any other frame keeps the hub
/// waiting.  A message that does not decode, or a connect request whose
/// payload is shorter than 22 octets, ends the connection with an error.
pub fn handshake_step(data: &[u8]) -> (r: Result<Option<(ScNodeId, [u8; 6])>, BacnetError>)
    ensures
        match spec_sc_decode(data@) {
            None => r matches Err(e) && e is DecodeError,
            Some(f) => if f.function == 0x06 {
                match connect_request_of(f) {
                    Some((nid, vmac)) => r matches Ok(Some((n, v))) && n.0@ == nid && v@ == vmac,
                    None => r matches Err(e) && e is DecodeError,
                }
            } else {
                r == Ok::<Option<(ScNodeId, [u8; 6])>, BacnetError>(None)
            },
        },
{
    let frame = ScFrame::decode(data)?;
    if frame.function != 0x06 {
        return Ok(None);
    }
    let p = crate::buffers::bytes_as_slice(&frame.payload);
    if p.len() < 22 {
        return Err(decode_error("ConnectRequest payload too short"));
    }
    let nid: [u8; 16] = [p[0], p[1], p[2], p[3], p[4], p[5], p[6], p[7], p[8], p[9], p[10], p[11], p[12], p[13], p[14], p[15]];
    let vm: [u8; 6] = [p[16], p[17], p[18], p[19], p[20], p[21]];
    assert(nid@ =~= p@.subrange(0, 16));
    assert(vm@ =~= p@.subrange(16, 22));
    Ok(Some((ScNodeId(nid), vm)))
}

/// The ConnectAccept frame the hub answers a connect request with.
pub fn connect_accept_frame() -> (r: ScFrame)
    ensures
        is_plain_frame(r@, 0x07, 0),
{
    plain_frame(0x07, 0)
}

/// What the hub does with a message from a connected node.
pub enum HubAction {
    /// Pass the message unchanged to the node with this virtual MAC.
    Forward([u8; 6]),
    /// Send these octets back to the sending node.
    Reply(bytes::Bytes),
    Ignore,
}

/// The hub's routing decision for a message from a connected node: an
/// Encapsulated-NPDU with a destination goes to that node, a heartbeat is
/// answered with a HeartbeatAck of the same message id, anything else (or
/// anything that does not decode) is dropped.
pub fn hub_route(data: &[u8]) -> (r: HubAction)
    ensures
        match spec_sc_decode(data@) {
            None => r is Ignore,
            Some(f) => if f.function == 0x01 {
                match f.destination_vmac {
                    Some(d) => r matches HubAction::Forward(v) && v@ == d,
                    None => r is Ignore,
                }
            } else if f.function == 0x0A {
                r matches HubAction::Reply(b) && exists|ack: ScFrameModel| is_plain_frame(ack, 0x0B, f.message_id)
                    && bytes_view(b) == sc_octets(ack)
            } else {
                r is Ignore
            },
        },
{
    match ScFrame::decode(data) {
        Ok(frame) => {
            if frame.function == 0x01 {
                match frame.destination_vmac {
                    Some(d) => HubAction::Forward(d),
                    None => HubAction::Ignore,
                }
            } else if frame.function == 0x0A {
                let ack = plain_frame(0x0B, frame.message_id);
                HubAction::Reply(ack.encode())
            } else {
                HubAction::Ignore
            }
        },
        Err(_) => HubAction::Ignore,
    }
}

/// The ConnectRequest a node opens its connection with: message id 1, the
/// node identifier and virtual MAC address in the payload.
pub fn connect_request_frame(node_id: ScNodeId, vmac: [u8; 6]) -> (r: ScFrame)
    ensures
        r.function == 0x06,
        r.control == no_control(),
        r.message_id == 1,
        r.originating_vmac is None,
        r.destination_vmac is None,
        bytes_view(r.payload) == node_id.0@ + vmac@,
        connect_request_of(r@) == Some((node_id.0@, vmac@)),
{
    let mut payload: Vec<u8> = Vec::new();
    let mut i: usize = 0;
    while i < 16
        invariant
            i <= 16,
            payload@ =~= node_id.0@.take(i as int),
        decreases 16 - i,
    {
        payload.push(node_id.0[i]);
        i = i + 1;
    }
    let mut j: usize = 0;
    while j < 6
        invariant
            j <= 6,
            payload@ =~= node_id.0@ + vmac@.take(j as int),
        decreases 6 - j,
    {
        payload.push(vmac[j]);
        j = j + 1;
    }
    let r = ScFrame {
        function: 0x06,
        control: ScControlFlags { orig_vaddr_present: false, dest_vaddr_present: false, dest_options_present: false, data_options_present: false },
        message_id: 1,
        originating_vmac: None,
        destination_vmac: None,
        payload: bytes_from_vec(payload),
    };
    assert((node_id.0@ + vmac@).subrange(0, 16) =~= node_id.0@);
    assert((node_id.0@ + vmac@).subrange(16, 22) =~= vmac@);
    r
}

/// Whether a message received while connecting is the hub's ConnectAccept;
/// a message that does not decode is an error.
pub fn is_connect_accept(data: &[u8]) -> (r: Result<bool, BacnetError>)
    ensures
        match spec_sc_decode(data@) {
            None => r matches Err(e) && e is DecodeError,
            Some(f) => r == Ok::<bool, BacnetError>(f.function == 0x07),
        },
{
    let frame = ScFrame::decode(data)?;
    Ok(frame.function == 0x07)
}

/// Whether a node hands a message from the hub to its application: every
/// decodable frame but heartbeats.
pub fn node_delivers(data: &[u8]) -> (r: bool)
    ensures
        r == (spec_sc_decode(data@) matches Some(f) && f.function != 0x0A),
{
    match ScFrame::decode(data) {
        Ok(frame) => frame.function != 0x0A,
        Err(_) => false,
    }
}

/// The octets a node sends to deliver `npdu` to `dest_vmac` through the hub.
pub fn npdu_frame_bytes(vmac: [u8; 6], dest_vmac: [u8; 6], npdu: bytes::Bytes, message_id: u16) -> (r: bytes::Bytes)
    ensures
        bytes_view(r) == sc_octets(ScFrameModel {
            function: 0x01,
            control: ScControlFlags { orig_vaddr_present: true, dest_vaddr_present: true, dest_options_present: false, data_options_present: false },
            message_id,
            originating_vmac: Some(vmac@),
            destination_vmac: Some(dest_vmac@),
            payload: bytes_view(npdu),
        }),
{
    let frame = ScFrame::encapsulated_npdu(message_id, Some(vmac), Some(dest_vmac), npdu);
    frame.encode()
}

/// The longest wait between reconnection attempts, in milliseconds.
pub const MAX_RETRY_DELAY_MS: u64 = 30000;

/// The wait before the next reconnection attempt: twice the last one, at
/// most 30 seconds.
pub fn next_retry_delay_ms(delay_ms: u64) -> (r: u64)
    requires
        delay_ms <= MAX_RETRY_DELAY_MS,
    ensures
        r == (if 2 * delay_ms < MAX_RETRY_DELAY_MS { 2 * delay_ms } else { MAX_RETRY_DELAY_MS as int }),
        r <= MAX_RETRY_DELAY_MS,
{
    let d = delay_ms * 2;
    if d < MAX_RETRY_DELAY_MS {
        d
    } else {
        MAX_RETRY_DELAY_MS
    }
}

} // verus!
