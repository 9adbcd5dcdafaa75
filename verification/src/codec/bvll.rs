//! BACnet/IP BVLL (BACnet Virtual Link Layer) frames (ASHRAE 135 Annex J).
use vstd::prelude::*;
use crate::buffers::{bytes_as_slice, bytes_copy_from_slice, bytes_mut_new, bytes_mut_view, bytes_view, extend_from_slice, freeze, put_u16, put_u8};
use crate::encoding::decode_error;
use crate::types::{BacnetError, Ipv4Endpoint};

verus! {

/// The BVLC type octet of BACnet/IP.
pub const BVLL_TYPE: u8 = 0x81;

/// A Broadcast Distribution Table entry.
#[derive(Debug, Clone, Copy, PartialEq, Eq)]
pub struct BdtEntry {
    pub address: Ipv4Endpoint,
    pub mask: [u8; 4],
}

/// A Foreign Device Table entry.
#[derive(Debug, Clone, Copy, PartialEq, Eq)]
pub struct FdtEntry {
    pub address: Ipv4Endpoint,
    pub ttl: u16,
    pub remaining: u16,
}

/// The BVLL functions the simulator handles.
#[derive(Debug, Clone, PartialEq)]
pub enum BvllFrame {
    BvlcResult { result_code: u16 },
    WriteBroadcastDistributionTable(Vec<BdtEntry>),
    ReadBroadcastDistributionTable,
    ReadBroadcastDistributionTableAck(Vec<BdtEntry>),
    ForwardedNpdu { originating_address: Ipv4Endpoint, npdu: bytes::Bytes },
    RegisterForeignDevice { ttl: u16 },
    ReadForeignDeviceTable,
    ReadForeignDeviceTableAck(Vec<FdtEntry>),
    DeleteForeignDeviceTableEntry { address: Ipv4Endpoint },
    DistributeBroadcastToNetwork(bytes::Bytes),
    OriginalUnicastNpdu(bytes::Bytes),
    OriginalBroadcastNpdu(bytes::Bytes),
}

/// The model of a BVLL frame: buffers as octet sequences, endpoints as
/// (address octets, port).
pub enum BvllModel {
    BvlcResult { result_code: u16 },
    WriteBroadcastDistributionTable(Seq<BdtEntry>),
    ReadBroadcastDistributionTable,
    ReadBroadcastDistributionTableAck(Seq<BdtEntry>),
    ForwardedNpdu { originating_address: (Seq<u8>, u16), npdu: Seq<u8> },
    RegisterForeignDevice { ttl: u16 },
    ReadForeignDeviceTable,
    ReadForeignDeviceTableAck(Seq<FdtEntry>),
    DeleteForeignDeviceTableEntry { address: (Seq<u8>, u16) },
    DistributeBroadcastToNetwork(Seq<u8>),
    OriginalUnicastNpdu(Seq<u8>),
    OriginalBroadcastNpdu(Seq<u8>),
}

/// The model of an IPv4 endpoint.
pub open spec fn endpoint_model(e: Ipv4Endpoint) -> (Seq<u8>, u16) {
    (e.octets@, e.port)
}

impl View for BvllFrame {
    type V = BvllModel;

    open spec fn view(&self) -> BvllModel {
        match *self {
            BvllFrame::BvlcResult { result_code } => BvllModel::BvlcResult { result_code },
            BvllFrame::WriteBroadcastDistributionTable(t) => BvllModel::WriteBroadcastDistributionTable(t@),
            BvllFrame::ReadBroadcastDistributionTable => BvllModel::ReadBroadcastDistributionTable,
            BvllFrame::ReadBroadcastDistributionTableAck(t) => BvllModel::ReadBroadcastDistributionTableAck(t@),
            BvllFrame::ForwardedNpdu { originating_address, npdu } => BvllModel::ForwardedNpdu {
                originating_address: endpoint_model(originating_address),
                npdu: bytes_view(npdu),
            },
            BvllFrame::RegisterForeignDevice { ttl } => BvllModel::RegisterForeignDevice { ttl },
            BvllFrame::ReadForeignDeviceTable => BvllModel::ReadForeignDeviceTable,
            BvllFrame::ReadForeignDeviceTableAck(t) => BvllModel::ReadForeignDeviceTableAck(t@),
            BvllFrame::DeleteForeignDeviceTableEntry { address } => BvllModel::DeleteForeignDeviceTableEntry {
                address: endpoint_model(address),
            },
            BvllFrame::DistributeBroadcastToNetwork(p) => BvllModel::DistributeBroadcastToNetwork(bytes_view(p)),
            BvllFrame::OriginalUnicastNpdu(p) => BvllModel::OriginalUnicastNpdu(bytes_view(p)),
            BvllFrame::OriginalBroadcastNpdu(p) => BvllModel::OriginalBroadcastNpdu(bytes_view(p)),
        }
    }
}

/// The two octets of `n`, most significant first.
pub open spec fn be16(n: u16) -> Seq<u8> {
    seq![(n / 256) as u8, (n % 256) as u8]
}

/// The 16-bit length field written for a frame of `n` octets: `n` modulo
/// 2^16, as the length is truncated to its field.
pub open spec fn len16(n: nat) -> u16 {
    (n % 65536) as u16
}

/// The big-endian 16-bit number at `i`.
pub open spec fn be16_at(buf: Seq<u8>, i: int) -> u16 {
    (buf[i] as int * 256 + buf[i + 1] as int) as u16
}

/// The octets written for a frame.  Functions without an encoder yield the
/// type octet alone.
pub open spec fn bvll_octets(f: BvllModel) -> Seq<u8> {
    match f {
        BvllModel::OriginalUnicastNpdu(p) => seq![0x81u8, 0x10u8] + be16(len16(4 + p.len())) + p,
        BvllModel::OriginalBroadcastNpdu(p) => seq![0x81u8, 0x11u8] + be16(len16(4 + p.len())) + p,
        BvllModel::RegisterForeignDevice { ttl } => seq![0x81u8, 0x0Bu8] + be16(6) + be16(ttl),
        BvllModel::ForwardedNpdu { originating_address, npdu } => seq![0x81u8, 0x0Au8]
            + be16(len16(10 + npdu.len())) + originating_address.0 + be16(originating_address.1) + npdu,
        BvllModel::BvlcResult { result_code } => seq![0x81u8, 0x01u8] + be16(6) + be16(result_code),
        BvllModel::DistributeBroadcastToNetwork(p) => seq![0x81u8, 0x0Fu8] + be16(len16(4 + p.len())) + p,
        _ => seq![0x81u8],
    }
}

/// Whether the length field of `buf` is at least the four header octets
/// whenever decoding reaches the payload: the inputs decoding accepts
/// without slicing backwards.
pub open spec fn bvll_length_fits(buf: Seq<u8>) -> bool {
    buf.len() < 4 || buf[0] != 0x81 || buf.len() < be16_at(buf, 2) || be16_at(buf, 2) >= 4
}

/// What decoding `buf` gives: `None` for each input that is rejected.
pub open spec fn spec_bvll_decode(buf: Seq<u8>) -> Option<BvllModel> {
    if buf.len() < 4 || buf[0] != 0x81 {
        None
    } else {
        let length = be16_at(buf, 2) as int;
        if buf.len() < length {
            None
        } else {
            let payload = buf.subrange(4, length);
            let f = buf[1];
            if f == 0x01 {
                if payload.len() < 2 {
                    None
                } else {
                    Some(BvllModel::BvlcResult { result_code: be16_at(payload, 0) })
                }
            } else if f == 0x0A {
                if length < 10 {
                    None
                } else {
                    Some(BvllModel::ForwardedNpdu {
                        originating_address: (payload.subrange(0, 4), be16_at(payload, 4)),
                        npdu: payload.subrange(6, payload.len() as int),
                    })
                }
            } else if f == 0x0B {
                if payload.len() < 2 {
                    None
                } else {
                    Some(BvllModel::RegisterForeignDevice { ttl: be16_at(payload, 0) })
                }
            } else if f == 0x0F {
                Some(BvllModel::DistributeBroadcastToNetwork(payload))
            } else if f == 0x10 {
                Some(BvllModel::OriginalUnicastNpdu(payload))
            } else if f == 0x11 {
                Some(BvllModel::OriginalBroadcastNpdu(payload))
            } else {
                None
            }
        }
    }
}

/// Whether `buf` can be decoded without its length field falling inside
/// the header.
pub fn bvll_length_fits_exec(buf: &[u8]) -> (r: bool)
    ensures
        r == bvll_length_fits(buf@),
{
    let n = buf.len();
    if n < 4 || buf[0] != 0x81 {
        return true;
    }
    let length = read_be16(buf, 2) as usize;
    n < length || length >= 4
}

fn length_field(n: usize, header: usize) -> (r: u16)
    requires
        header <= 10,
    ensures
        r == len16((header + n) as nat),
{
    let low: usize = n % 65536;
    let sum: usize = (low + header) % 65536;
    assert((low + header) % 65536 == (header + n) % 65536) by (nonlinear_arith)
        requires low == n % 65536, header <= 10;
    sum as u16
}

fn read_be16(buf: &[u8], i: usize) -> (r: u16)
    requires
        i + 2 <= buf@.len(),
    ensures
        r == be16_at(buf@, i as int),
{
    (buf[i] as u16) * 256 + buf[i + 1] as u16
}

impl BvllFrame {
    /// The octets of the frame: type, function, 16-bit length, then the
    /// function's fields.  Functions without an encoder yield the type octet
    /// alone.
    pub fn encode(&self) -> (r: bytes::Bytes)
        ensures
            bytes_view(r) == bvll_octets(self@),
    {
        let mut buf = bytes_mut_new();
        put_u8(&mut buf, BVLL_TYPE);
        match self {
            BvllFrame::OriginalUnicastNpdu(npdu) => {
                let p = bytes_as_slice(npdu);
                put_u8(&mut buf, 0x10);
                put_u16(&mut buf, length_field(p.len(), 4));
                extend_from_slice(&mut buf, p);
            },
            BvllFrame::OriginalBroadcastNpdu(npdu) => {
                let p = bytes_as_slice(npdu);
                put_u8(&mut buf, 0x11);
                put_u16(&mut buf, length_field(p.len(), 4));
                extend_from_slice(&mut buf, p);
            },
            BvllFrame::RegisterForeignDevice { ttl } => {
                put_u8(&mut buf, 0x0B);
                put_u16(&mut buf, 6);
                put_u16(&mut buf, *ttl);
            },
            BvllFrame::ForwardedNpdu { originating_address, npdu } => {
                let p = bytes_as_slice(npdu);
                put_u8(&mut buf, 0x0A);
                put_u16(&mut buf, length_field(p.len(), 10));
                extend_from_slice(&mut buf, &originating_address.octets);
                put_u16(&mut buf, originating_address.port);
                extend_from_slice(&mut buf, p);
            },
            BvllFrame::BvlcResult { result_code } => {
                put_u8(&mut buf, 0x01);
                put_u16(&mut buf, 6);
                put_u16(&mut buf, *result_code);
            },
            BvllFrame::DistributeBroadcastToNetwork(npdu) => {
                let p = bytes_as_slice(npdu);
                put_u8(&mut buf, 0x0F);
                put_u16(&mut buf, length_field(p.len(), 4));
                extend_from_slice(&mut buf, p);
            },
            _ => {},
        }
        assert(bytes_mut_view(buf) =~= bvll_octets(self@));
        freeze(buf)
    }

    /// Decodes a BVLL frame.
    pub fn decode(buf: &[u8]) -> (r: Result<BvllFrame, BacnetError>)
        requires
            bvll_length_fits(buf@),
        ensures
            match r {
                Ok(f) => spec_bvll_decode(buf@) == Some(f@),
                Err(e) => spec_bvll_decode(buf@) is None && e is DecodeError,
            },
    {
        let blen = buf.len();
        if blen < 4 {
            return Err(decode_error("BVLL frame too short"));
        }
        if buf[0] != BVLL_TYPE {
            return Err(decode_error("not a BVLL frame"));
        }
        let function = buf[1];
        let length = read_be16(buf, 2) as usize;
        if blen < length {
            return Err(decode_error("BVLL frame truncated"));
        }
        let payload = &buf[4..length];
        let plen = payload.len();
        if function == 0x01 {
            if plen < 2 {
                return Err(decode_error("BvlcResult too short"));
            }
            Ok(BvllFrame::BvlcResult { result_code: read_be16(payload, 0) })
        } else if function == 0x0A {
            if length < 10 {
                return Err(decode_error("ForwardedNpdu too short"));
            }
            let octets: [u8; 4] = [payload[0], payload[1], payload[2], payload[3]];
            assert(octets@ =~= payload@.subrange(0, 4));
            let port = read_be16(payload, 4);
            let npdu = bytes_copy_from_slice(&payload[6..plen]);
            Ok(BvllFrame::ForwardedNpdu { originating_address: Ipv4Endpoint { octets, port }, npdu })
        } else if function == 0x0B {
            if plen < 2 {
                return Err(decode_error("RegisterForeignDevice too short"));
            }
            Ok(BvllFrame::RegisterForeignDevice { ttl: read_be16(payload, 0) })
        } else if function == 0x0F {
            Ok(BvllFrame::DistributeBroadcastToNetwork(bytes_copy_from_slice(payload)))
        } else if function == 0x10 {
            Ok(BvllFrame::OriginalUnicastNpdu(bytes_copy_from_slice(payload)))
        } else if function == 0x11 {
            Ok(BvllFrame::OriginalBroadcastNpdu(bytes_copy_from_slice(payload)))
        } else {
            Err(decode_error("unknown BVLL function"))
        }
    }
}

/// Whether a frame has an encoder whose length field holds its true length.
pub open spec fn bvll_encodable(f: BvllModel) -> bool {
    match f {
        BvllModel::OriginalUnicastNpdu(p) => p.len() + 4 <= 0xFFFF,
        BvllModel::OriginalBroadcastNpdu(p) => p.len() + 4 <= 0xFFFF,
        BvllModel::DistributeBroadcastToNetwork(p) => p.len() + 4 <= 0xFFFF,
        BvllModel::ForwardedNpdu { originating_address, npdu } => npdu.len() + 10 <= 0xFFFF
            && originating_address.0.len() == 4,
        BvllModel::RegisterForeignDevice { .. } => true,
        BvllModel::BvlcResult { .. } => true,
        _ => false,
    }
}

proof fn lemma_be16(n: u16, s: Seq<u8>, i: int)
    requires
        0 <= i,
        i + 2 <= s.len(),
        s.subrange(i, i + 2) == be16(n),
    ensures
        be16_at(s, i) == n,
{
    assert(s[i] == be16(n)[0] && s[i + 1] == be16(n)[1]);
}

/// Decoding the octets of an encodable frame gives the frame back.
pub proof fn lemma_bvll_roundtrip(f: BvllModel)
    requires
        bvll_encodable(f),
    ensures
        bvll_length_fits(bvll_octets(f)),
        spec_bvll_decode(bvll_octets(f)) == Some(f),
{
    let b = bvll_octets(f);
    match f {
        BvllModel::OriginalUnicastNpdu(p) => {
            assert(b.subrange(2, 4) =~= be16(len16(4 + p.len())));
            lemma_be16(len16(4 + p.len()), b, 2);
            assert(b.subrange(4, b.len() as int) =~= p);
        },
        BvllModel::OriginalBroadcastNpdu(p) => {
            assert(b.subrange(2, 4) =~= be16(len16(4 + p.len())));
            lemma_be16(len16(4 + p.len()), b, 2);
            assert(b.subrange(4, b.len() as int) =~= p);
        },
        BvllModel::DistributeBroadcastToNetwork(p) => {
            assert(b.subrange(2, 4) =~= be16(len16(4 + p.len())));
            lemma_be16(len16(4 + p.len()), b, 2);
            assert(b.subrange(4, b.len() as int) =~= p);
        },
        BvllModel::ForwardedNpdu { originating_address, npdu } => {
            assert(b.subrange(2, 4) =~= be16(len16(10 + npdu.len())));
            lemma_be16(len16(10 + npdu.len()), b, 2);
            let payload = b.subrange(4, b.len() as int);
            assert(payload.subrange(0, 4) =~= originating_address.0);
            assert(payload.subrange(4, 6) =~= be16(originating_address.1));
            lemma_be16(originating_address.1, payload, 4);
            assert(payload.subrange(6, payload.len() as int) =~= npdu);
        },
        BvllModel::RegisterForeignDevice { ttl } => {
            assert(b.subrange(2, 4) =~= be16(6));
            lemma_be16(6, b, 2);
            let payload = b.subrange(4, b.len() as int);
            assert(payload.subrange(0, 2) =~= be16(ttl));
            lemma_be16(ttl, payload, 0);
        },
        BvllModel::BvlcResult { result_code } => {
            assert(b.subrange(2, 4) =~= be16(6));
            lemma_be16(6, b, 2);
            let payload = b.subrange(4, b.len() as int);
            assert(payload.subrange(0, 2) =~= be16(result_code));
            lemma_be16(result_code, payload, 0);
        },
        _ => {},
    }
}

} // verus!
