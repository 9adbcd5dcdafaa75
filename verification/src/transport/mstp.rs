//! The MS/TP master node (ASHRAE 135 Clause 9.3), simplified: the decisions
//! of the token-passing loop.  The loop itself, with its channels and
//! timers, runs outside.
use vstd::prelude::*;
use crate::buffers::{bytes_empty, bytes_view};
use crate::codec::mstp::{MstpFrame, MstpFrameType};

verus! {

/// How long a node waits for the token, per station of the ring, in
/// milliseconds.
pub const TOKEN_WAIT_MS: u64 = 200;

/// MS/TP master states (a simplified subset).
#[derive(Debug, Clone, Copy, PartialEq, Eq, Structural)]
pub enum MasterState {
    Initialize,
    Idle,
    UseToken,
    WaitForReply,
    PassToken,
    DoneWithToken,
    PollForMaster,
    NoToken,
}

/// The state of a master node.
pub struct MasterCore {
    pub address: u8,
    pub max_master: u8,
    pub state: MasterState,
    pub next_station: u8,
}

/// A data frame received by a node.
pub struct ReceivedData {
    pub source: u8,
    pub data: bytes::Bytes,
}

/// What a node does with a frame seen on the bus while it waits.
pub enum FrameAction {
    /// The token is ours.
    TakeToken,
    /// Answer a poll-for-master with this frame.
    Reply(MstpFrame),
    Ignore,
}

/// The station after `address` in a ring of stations `0..=max_master`.
pub open spec fn next_in_ring(address: u8, max_master: u8) -> u8 {
    ((address + 1) % (max_master + 1)) as u8
}

/// The station reached from `start` after `k` token passes.
pub open spec fn after_passes(start: u8, max_master: u8, k: nat) -> u8
    decreases k,
{
    if k == 0 {
        start
    } else {
        next_in_ring(after_passes(start, max_master, (k - 1) as nat), max_master)
    }
}

/// Whether `f` is a frame of type `t` from `source` to `destination` with no
/// data.
pub open spec fn is_control_frame(f: MstpFrame, t: MstpFrameType, destination: u8, source: u8) -> bool {
    f.frame_type == t && f.destination == destination && f.source == source && bytes_view(f.data).len() == 0
}

impl MasterCore {
    /// A node at `address` of a ring of stations `0..=max_master`, before
    /// its first token.
    pub fn join(address: u8, max_master: u8) -> (r: MasterCore)
        requires
            address < 255,
            max_master < 255,
        ensures
            r.address == address,
            r.max_master == max_master,
            r.state == MasterState::Initialize,
            r.next_station == next_in_ring(address, max_master),
    {
        MasterCore {
            address,
            max_master,
            state: MasterState::Initialize,
            next_station: (address + 1) % (max_master + 1),
        }
    }

    /// How long to wait for the token before declaring the ring broken:
    /// longer for larger rings.
    pub fn ring_timeout_ms(&self) -> (r: u64)
        ensures
            r == TOKEN_WAIT_MS * (self.max_master + 2),
    {
        TOKEN_WAIT_MS * (self.max_master as u64 + 2)
    }

    /// The token frame that starts the ring, sent by station 0 only.
    pub fn bootstrap_frame(&self) -> (r: Option<MstpFrame>)
        ensures
            self.address == 0 ==> (r matches Some(f) && is_control_frame(f, MstpFrameType::Token, 0, 0)),
            self.address != 0 ==> r is None,
    {
        if self.address == 0 {
            Some(MstpFrame { frame_type: MstpFrameType::Token, destination: 0, source: 0, data: bytes_empty() })
        } else {
            None
        }
    }

    /// What to do with a frame seen while waiting: take a token addressed
    /// to us, answer a poll-for-master addressed to us, ignore the rest.
    pub fn on_frame(&self, frame: &MstpFrame) -> (r: FrameAction)
        ensures
            frame.frame_type == MstpFrameType::Token && frame.destination == self.address ==> r is TakeToken,
            frame.frame_type == MstpFrameType::PollForMaster && frame.destination == self.address
                ==> (r matches FrameAction::Reply(f) && is_control_frame(f, MstpFrameType::ReplyToPollForMaster, frame.source, self.address)),
            !(frame.destination == self.address && (frame.frame_type == MstpFrameType::Token
                || frame.frame_type == MstpFrameType::PollForMaster)) ==> r is Ignore,
    {
        if frame.frame_type == MstpFrameType::Token && frame.destination == self.address {
            return FrameAction::TakeToken;
        }
        if frame.frame_type == MstpFrameType::PollForMaster && frame.destination == self.address {
            return FrameAction::Reply(MstpFrame {
                frame_type: MstpFrameType::ReplyToPollForMaster,
                destination: frame.source,
                source: self.address,
                data: bytes_empty(),
            });
        }
        FrameAction::Ignore
    }

    /// The token frame passed to the next station.
    pub fn token_frame(&self) -> (r: MstpFrame)
        ensures
            is_control_frame(r, MstpFrameType::Token, self.next_station, self.address),
    {
        MstpFrame { frame_type: MstpFrameType::Token, destination: self.next_station, source: self.address, data: bytes_empty() }
    }

    /// A data frame to `destination`.
    pub fn data_frame(&self, destination: u8, data: bytes::Bytes, expecting_reply: bool) -> (r: MstpFrame)
        ensures
            r.frame_type == (if expecting_reply {
                MstpFrameType::BacnetDataExpectingReply
            } else {
                MstpFrameType::BacnetDataNotExpectingReply
            }),
            r.destination == destination,
            r.source == self.address,
            r.data == data,
    {
        let frame_type = if expecting_reply {
            MstpFrameType::BacnetDataExpectingReply
        } else {
            MstpFrameType::BacnetDataNotExpectingReply
        };
        MstpFrame { frame_type, destination, source: self.address, data }
    }

    /// Holding the token: send at most one queued frame, then pass the token
    /// on and go idle.  Returns the frames to put on the bus, in order.
    pub fn use_token(&mut self, pending: Option<(u8, bytes::Bytes)>) -> (r: Vec<MstpFrame>)
        ensures
            final(self).state == MasterState::Idle,
            final(self).address == old(self).address,
            final(self).max_master == old(self).max_master,
            final(self).next_station == old(self).next_station,
            match pending {
                Some((dst, npdu)) => r@.len() == 2 && r@[0].frame_type == MstpFrameType::BacnetDataNotExpectingReply
                    && r@[0].destination == dst && r@[0].source == old(self).address && r@[0].data == npdu
                    && is_control_frame(r@[1], MstpFrameType::Token, old(self).next_station, old(self).address),
                None => r@.len() == 1 && is_control_frame(r@[0], MstpFrameType::Token, old(self).next_station, old(self).address),
            },
    {
        self.state = MasterState::UseToken;
        let mut out: Vec<MstpFrame> = Vec::new();
        if let Some((dst, npdu)) = pending {
            out.push(self.data_frame(dst, npdu, false));
        }
        out.push(self.token_frame());
        self.state = MasterState::Idle;
        out
    }

    /// When the ring times out, station 0 restarts it with a token to
    /// itself; the others keep waiting.
    pub fn on_timeout(&self) -> (r: Option<MstpFrame>)
        ensures
            self.address == 0 ==> (r matches Some(f) && is_control_frame(f, MstpFrameType::Token, 0, 0)),
            self.address != 0 ==> r is None,
    {
        self.bootstrap_frame()
    }

    /// The data carried by a data frame addressed to this node.
    pub fn accept_data(&self, frame: MstpFrame) -> (r: Option<ReceivedData>)
        ensures
            (frame.destination == self.address && (frame.frame_type == MstpFrameType::BacnetDataExpectingReply
                || frame.frame_type == MstpFrameType::BacnetDataNotExpectingReply))
                ==> (r matches Some(d) && d.source == frame.source && d.data == frame.data),
            !(frame.destination == self.address && (frame.frame_type == MstpFrameType::BacnetDataExpectingReply
                || frame.frame_type == MstpFrameType::BacnetDataNotExpectingReply)) ==> r is None,
    {
        if frame.destination == self.address && (frame.frame_type == MstpFrameType::BacnetDataExpectingReply
            || frame.frame_type == MstpFrameType::BacnetDataNotExpectingReply) {
            Some(ReceivedData { source: frame.source, data: frame.data })
        } else {
            None
        }
    }
}

/// Starting from station 0, the token reaches station `k` after `k` passes,
/// for every station of the ring: each master gets the token.
pub proof fn lemma_token_visits_every_station(max_master: u8, k: nat)
    requires
        max_master < 255,
        k <= max_master,
    ensures
        after_passes(0, max_master, k) == k,
    decreases k,
{
    if k > 0 {
        lemma_token_visits_every_station(max_master, (k - 1) as nat);
        vstd::arithmetic::div_mod::lemma_small_mod(k, max_master as nat + 1);
    }
}

/// After passing through every station once, the token is back at
/// station 0.
pub proof fn lemma_token_returns(max_master: u8)
    requires
        max_master < 255,
    ensures
        after_passes(0, max_master, max_master as nat + 1) == 0,
{
    lemma_token_visits_every_station(max_master, max_master as nat);
    vstd::arithmetic::div_mod::lemma_mod_self_0(max_master as int + 1);
}

} // verus!
