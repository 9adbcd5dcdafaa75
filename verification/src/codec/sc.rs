//! BACnet/SC frames: the header that wraps NPDUs on a secure connection.
use vstd::prelude::*;
use crate::buffers::{bytes_as_slice, bytes_copy_from_slice, bytes_mut_new, bytes_mut_view, bytes_view, extend_from_slice, freeze, put_u16, put_u8};
use crate::codec::bvll::{be16, be16_at};
use crate::encoding::decode_error;
use crate::types::BacnetError;

verus! {

/// BACnet/SC BVLC function codes.
#[derive(Debug, Clone, Copy, PartialEq, Eq)]
pub enum ScFunction {
    BvlcResult,
    EncapsulatedNpdu,
    AddressResolution,
    AddressResolutionAck,
    Advertisement,
    AdvertisementSolicitation,
    ConnectRequest,
    ConnectAccept,
    DisconnectRequest,
    DisconnectAck,
    Heartbeat,
    HeartbeatAck,
    SecurePath,
}

/// The function code octet of `f`.
pub open spec fn sc_function_code(f: ScFunction) -> u8 {
    match f {
        ScFunction::BvlcResult => 0x00,
        ScFunction::EncapsulatedNpdu => 0x01,
        ScFunction::AddressResolution => 0x02,
        ScFunction::AddressResolutionAck => 0x03,
        ScFunction::Advertisement => 0x04,
        ScFunction::AdvertisementSolicitation => 0x05,
        ScFunction::ConnectRequest => 0x06,
        ScFunction::ConnectAccept => 0x07,
        ScFunction::DisconnectRequest => 0x08,
        ScFunction::DisconnectAck => 0x09,
        ScFunction::Heartbeat => 0x0A,
        ScFunction::HeartbeatAck => 0x0B,
        ScFunction::SecurePath => 0x0C,
    }
}

impl ScFunction {
    /// The function code octet.
    pub fn to_u8(self) -> (r: u8)
        ensures
            r == sc_function_code(self),
    {
        match self {
            ScFunction::BvlcResult => 0x00,
            ScFunction::EncapsulatedNpdu => 0x01,
            ScFunction::AddressResolution => 0x02,
            ScFunction::AddressResolutionAck => 0x03,
            ScFunction::Advertisement => 0x04,
            ScFunction::AdvertisementSolicitation => 0x05,
            ScFunction::ConnectRequest => 0x06,
            ScFunction::ConnectAccept => 0x07,
            ScFunction::DisconnectRequest => 0x08,
            ScFunction::DisconnectAck => 0x09,
            ScFunction::Heartbeat => 0x0A,
            ScFunction::HeartbeatAck => 0x0B,
            ScFunction::SecurePath => 0x0C,
        }
    }
}

/// Control flags of an SC frame.
#[derive(Debug, Clone, Copy, Default, PartialEq, Eq)]
pub struct ScControlFlags {
    pub orig_vaddr_present: bool,
    pub dest_vaddr_present: bool,
    pub dest_options_present: bool,
    pub data_options_present: bool,
}

/// A BACnet/SC frame.
#[derive(Debug, Clone, PartialEq)]
pub struct ScFrame {
    pub function: u8,
    pub control: ScControlFlags,
    pub message_id: u16,
    pub originating_vmac: Option<[u8; 6]>,
    pub destination_vmac: Option<[u8; 6]>,
    pub payload: bytes::Bytes,
}

/// The model of an SC frame: virtual MAC addresses and payload as octet
/// sequences.
pub struct ScFrameModel {
    pub function: u8,
    pub control: ScControlFlags,
    pub message_id: u16,
    pub originating_vmac: Option<Seq<u8>>,
    pub destination_vmac: Option<Seq<u8>>,
    pub payload: Seq<u8>,
}

/// The model of an optional virtual MAC address.
pub open spec fn vmac_model(v: Option<[u8; 6]>) -> Option<Seq<u8>> {
    match v {
        Some(a) => Some(a@),
        None => None,
    }
}

/// The octets of an optional virtual MAC address: none when absent.
pub open spec fn opt_octets(v: Option<Seq<u8>>) -> Seq<u8> {
    match v {
        Some(s) => s,
        None => Seq::<u8>::empty(),
    }
}

impl View for ScFrame {
    type V = ScFrameModel;

    open spec fn view(&self) -> ScFrameModel {
        ScFrameModel {
            function: self.function,
            control: self.control,
            message_id: self.message_id,
            originating_vmac: vmac_model(self.originating_vmac),
            destination_vmac: vmac_model(self.destination_vmac),
            payload: bytes_view(self.payload),
        }
    }
}

/// The control octet of `c`.
pub open spec fn sc_control_octet(c: ScControlFlags) -> u8 {
    ((if c.orig_vaddr_present { 0x08u8 } else { 0u8 }) + (if c.dest_vaddr_present { 0x04u8 } else { 0u8 })
        + (if c.dest_options_present { 0x02u8 } else { 0u8 }) + (if c.data_options_present { 0x01u8 } else { 0u8 })) as u8
}

/// The control flags held by the control octet `b`.
pub open spec fn sc_control_of(b: u8) -> ScControlFlags {
    ScControlFlags {
        orig_vaddr_present: b & 0x08 != 0,
        dest_vaddr_present: b & 0x04 != 0,
        dest_options_present: b & 0x02 != 0,
        data_options_present: b & 0x01 != 0,
    }
}

/// The octets of a frame: function, control, message id, the virtual MAC
/// addresses that are present, then the payload.
pub open spec fn sc_octets(f: ScFrameModel) -> Seq<u8> {
    seq![f.function, sc_control_octet(f.control)] + be16(f.message_id) + opt_octets(f.originating_vmac)
        + opt_octets(f.destination_vmac) + f.payload
}

/// What decoding `buf` gives: `None` for each input that is rejected.
pub open spec fn spec_sc_decode(buf: Seq<u8>) -> Option<ScFrameModel> {
    if buf.len() < 4 {
        None
    } else {
        let c = sc_control_of(buf[1]);
        let p1: int = if c.orig_vaddr_present { 10 } else { 4 };
        let p2: int = if c.dest_vaddr_present { p1 + 6 } else { p1 };
        if buf.len() < p2 {
            None
        } else {
            Some(ScFrameModel {
                function: buf[0],
                control: c,
                message_id: be16_at(buf, 2),
                originating_vmac: if c.orig_vaddr_present { Some(buf.subrange(4, 10)) } else { None },
                destination_vmac: if c.dest_vaddr_present { Some(buf.subrange(p1, p1 + 6)) } else { None },
                payload: buf.subrange(p2, buf.len() as int),
            })
        }
    }
}

fn read_vmac(buf: &[u8], pos: usize) -> (r: [u8; 6])
    requires
        pos + 6 <= buf@.len(),
    ensures
        r@ == buf@.subrange(pos as int, pos + 6),
{
    let r: [u8; 6] = [buf[pos], buf[pos + 1], buf[pos + 2], buf[pos + 3], buf[pos + 4], buf[pos + 5]];
    assert(r@ =~= buf@.subrange(pos as int, pos + 6));
    r
}

impl ScFrame {
    /// An Encapsulated-NPDU frame whose control flags announce exactly the
    /// virtual MAC addresses given.
    pub fn encapsulated_npdu(message_id: u16, orig: Option<[u8; 6]>, dest: Option<[u8; 6]>, npdu: bytes::Bytes) -> (r: ScFrame)
        ensures
            r.function == 0x01,
            r.control == (ScControlFlags {
                orig_vaddr_present: orig is Some,
                dest_vaddr_present: dest is Some,
                dest_options_present: false,
                data_options_present: false,
            }),
            r.message_id == message_id,
            r.originating_vmac == orig,
            r.destination_vmac == dest,
            r.payload == npdu,
    {
        ScFrame {
            function: ScFunction::EncapsulatedNpdu.to_u8(),
            control: ScControlFlags {
                orig_vaddr_present: orig.is_some(),
                dest_vaddr_present: dest.is_some(),
                dest_options_present: false,
                data_options_present: false,
            },
            message_id,
            originating_vmac: orig,
            destination_vmac: dest,
            payload: npdu,
        }
    }

    /// The octets of the frame.
    pub fn encode(&self) -> (r: bytes::Bytes)
        ensures
            bytes_view(r) == sc_octets(self@),
    {
        let mut buf = bytes_mut_new();
        put_u8(&mut buf, self.function);
        let ctrl: u8 = (if self.control.orig_vaddr_present { 0x08u8 } else { 0u8 })
            + (if self.control.dest_vaddr_present { 0x04u8 } else { 0u8 })
            + (if self.control.dest_options_present { 0x02u8 } else { 0u8 })
            + (if self.control.data_options_present { 0x01u8 } else { 0u8 });
        put_u8(&mut buf, ctrl);
        put_u16(&mut buf, self.message_id);
        if let Some(vmac) = &self.originating_vmac {
            extend_from_slice(&mut buf, vmac);
        }
        if let Some(vmac) = &self.destination_vmac {
            extend_from_slice(&mut buf, vmac);
        }
        extend_from_slice(&mut buf, bytes_as_slice(&self.payload));
        assert(bytes_mut_view(buf) =~= sc_octets(self@));
        freeze(buf)
    }

    /// Decodes an SC frame.
    pub fn decode(buf: &[u8]) -> (r: Result<ScFrame, BacnetError>)
        ensures
            match r {
                Ok(f) => spec_sc_decode(buf@) == Some(f@),
                Err(e) => spec_sc_decode(buf@) is None && e is DecodeError,
            },
    {
        let blen = buf.len();
        if blen < 4 {
            return Err(decode_error("SC frame too short"));
        }
        let function = buf[0];
        let b = buf[1];
        let message_id: u16 = (buf[2] as u16) * 256 + buf[3] as u16;
        let control = ScControlFlags {
            orig_vaddr_present: (b & 0x08) != 0,
            dest_vaddr_present: (b & 0x04) != 0,
            dest_options_present: (b & 0x02) != 0,
            data_options_present: (b & 0x01) != 0,
        };
        let mut pos: usize = 4;
        let originating_vmac = if control.orig_vaddr_present {
            if blen < pos + 6 {
                return Err(decode_error("SC frame: originating vMAC truncated"));
            }
            let v = read_vmac(buf, pos);
            pos = pos + 6;
            Some(v)
        } else {
            None
        };
        let destination_vmac = if control.dest_vaddr_present {
            if blen < pos + 6 {
                return Err(decode_error("SC frame: destination vMAC truncated"));
            }
            let v = read_vmac(buf, pos);
            pos = pos + 6;
            Some(v)
        } else {
            None
        };
        let payload = bytes_copy_from_slice(&buf[pos..blen]);
        Ok(ScFrame { function, control, message_id, originating_vmac, destination_vmac, payload })
    }
}

/// Whether a frame's control flags announce exactly the virtual MAC
/// addresses it holds, each of six octets.
pub open spec fn sc_consistent(f: ScFrameModel) -> bool {
    &&& f.control.orig_vaddr_present == f.originating_vmac is Some
    &&& f.control.dest_vaddr_present == f.destination_vmac is Some
    &&& (f.originating_vmac matches Some(v) ==> v.len() == 6)
    &&& (f.destination_vmac matches Some(v) ==> v.len() == 6)
}

/// Decoding the octets of a consistent frame gives the frame back.
pub proof fn lemma_sc_roundtrip(f: ScFrameModel)
    requires
        sc_consistent(f),
    ensures
        spec_sc_decode(sc_octets(f)) == Some(f),
{
    let b = sc_octets(f);
    let c = f.control;
    let (o1, o2, o3, o4) = (c.orig_vaddr_present, c.dest_vaddr_present, c.dest_options_present, c.data_options_present);
    let x: u8 = sc_control_octet(c);
    assert(sc_control_of(x) == c) by {
        let a: u8 = if o1 { 0x08u8 } else { 0u8 };
        let bb: u8 = if o2 { 0x04u8 } else { 0u8 };
        let cc: u8 = if o3 { 0x02u8 } else { 0u8 };
        let d: u8 = if o4 { 0x01u8 } else { 0u8 };
        assert(((a + bb + cc + d) as u8) & 0x08 != 0 <==> a == 8) by (bit_vector)
            requires (a == 0 || a == 8) && (bb == 0 || bb == 4) && (cc == 0 || cc == 2) && (d == 0 || d == 1);
        assert(((a + bb + cc + d) as u8) & 0x04 != 0 <==> bb == 4) by (bit_vector)
            requires (a == 0 || a == 8) && (bb == 0 || bb == 4) && (cc == 0 || cc == 2) && (d == 0 || d == 1);
        assert(((a + bb + cc + d) as u8) & 0x02 != 0 <==> cc == 2) by (bit_vector)
            requires (a == 0 || a == 8) && (bb == 0 || bb == 4) && (cc == 0 || cc == 2) && (d == 0 || d == 1);
        assert(((a + bb + cc + d) as u8) & 0x01 != 0 <==> d == 1) by (bit_vector)
            requires (a == 0 || a == 8) && (bb == 0 || bb == 4) && (cc == 0 || cc == 2) && (d == 0 || d == 1);
    }
    assert(b[1] == x);
    assert(b[2] == be16(f.message_id)[0] && b[3] == be16(f.message_id)[1]);
    let p1: int = if o1 { 10 } else { 4 };
    let p2: int = if o2 { p1 + 6 } else { p1 };
    if let Some(v) = f.originating_vmac {
        assert(b.subrange(4, 10) =~= v);
    }
    if let Some(v) = f.destination_vmac {
        assert(b.subrange(p1, p1 + 6) =~= v);
    }
    assert(b.subrange(p2, b.len() as int) =~= f.payload);
}

} // verus!
