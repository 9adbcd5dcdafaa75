//! BACnet MS/TP frame codec (ASHRAE 135 Clause 9).
use vstd::prelude::*;
use crate::buffers::{
    bytes_copy_from_slice, bytes_mut_as_slice, bytes_mut_new, bytes_mut_view, bytes_as_slice,
    bytes_view, extend_from_slice, freeze, put_u16, put_u16_le, put_u8,
};

verus! {

pub const MSTP_PREAMBLE_55: u8 = 0x55;

pub const MSTP_PREAMBLE_FF: u8 = 0xFF;

/// MS/TP standard frame types.
#[derive(Debug, Clone, Copy, PartialEq, Eq, Structural)]
pub enum MstpFrameType {
    Token,
    PollForMaster,
    ReplyToPollForMaster,
    TestRequest,
    TestResponse,
    BacnetDataExpectingReply,
    BacnetDataNotExpectingReply,
    ReplyPostponed,
}

/// The wire code of a frame type.
pub open spec fn frame_type_code(t: MstpFrameType) -> u8 {
    match t {
        MstpFrameType::Token => 0x00,
        MstpFrameType::PollForMaster => 0x01,
        MstpFrameType::ReplyToPollForMaster => 0x02,
        MstpFrameType::TestRequest => 0x03,
        MstpFrameType::TestResponse => 0x04,
        MstpFrameType::BacnetDataExpectingReply => 0x05,
        MstpFrameType::BacnetDataNotExpectingReply => 0x06,
        MstpFrameType::ReplyPostponed => 0x07,
    }
}

impl MstpFrameType {
    /// The frame type with wire code `v`, if there is one.
    pub fn from_u8(v: u8) -> (r: Option<Self>)
        ensures
            r matches Some(t) ==> frame_type_code(t) == v,
            r is None <==> v > 0x07,
    {
        match v {
            0x00 => Some(Self::Token),
            0x01 => Some(Self::PollForMaster),
            0x02 => Some(Self::ReplyToPollForMaster),
            0x03 => Some(Self::TestRequest),
            0x04 => Some(Self::TestResponse),
            0x05 => Some(Self::BacnetDataExpectingReply),
            0x06 => Some(Self::BacnetDataNotExpectingReply),
            0x07 => Some(Self::ReplyPostponed),
            _ => None,
        }
    }

    /// The wire code of this frame type.
    pub fn to_u8(self) -> (r: u8)
        ensures
            r == frame_type_code(self),
    {
        match self {
            Self::Token => 0x00,
            Self::PollForMaster => 0x01,
            Self::ReplyToPollForMaster => 0x02,
            Self::TestRequest => 0x03,
            Self::TestResponse => 0x04,
            Self::BacnetDataExpectingReply => 0x05,
            Self::BacnetDataNotExpectingReply => 0x06,
            Self::ReplyPostponed => 0x07,
        }
    }
}

/// Every frame type is found again from its wire code.
pub proof fn lemma_frame_type_code_injective(a: MstpFrameType, b: MstpFrameType)
    ensures
        frame_type_code(a) == frame_type_code(b) ==> a == b,
{
}

#[derive(Debug, Clone, PartialEq, Eq)]
pub enum MstpDecodeError {
    BadPreamble,
    Incomplete,
    BadHeaderCrc,
    BadDataCrc,
    UnknownFrameType(u8),
}

// ---------------------------------------------------------------------------
// CRCs
// ---------------------------------------------------------------------------

/// One shift of the CRC-8 register (reflected polynomial 0xE0).
pub open spec fn crc8_shift(crc: u8) -> u8 {
    if crc & 1u8 != 0 {
        (crc >> 1u8) ^ 0xE0u8
    } else {
        crc >> 1u8
    }
}

/// `n` shifts of the CRC-8 register.
pub open spec fn crc8_shifts(crc: u8, n: nat) -> u8
    decreases n,
{
    if n == 0 {
        crc
    } else {
        crc8_shift(crc8_shifts(crc, (n - 1) as nat))
    }
}

/// The CRC-8 register after feeding the bytes of `data`, starting from 0xFF.
pub open spec fn crc8_register(data: Seq<u8>) -> u8
    decreases data.len(),
{
    if data.len() == 0 {
        0xFFu8
    } else {
        crc8_shifts(crc8_register(data.drop_last()) ^ data.last(), 8)
    }
}

/// The MS/TP header CRC of `data`: the complemented register.
pub open spec fn spec_crc8(data: Seq<u8>) -> u8 {
    !crc8_register(data)
}

/// One shift of the CRC-16 register (reflected polynomial 0xA001).
pub open spec fn crc16_shift(crc: u16) -> u16 {
    if crc & 1u16 != 0 {
        (crc >> 1u16) ^ 0xA001u16
    } else {
        crc >> 1u16
    }
}

/// `n` shifts of the CRC-16 register.
pub open spec fn crc16_shifts(crc: u16, n: nat) -> u16
    decreases n,
{
    if n == 0 {
        crc
    } else {
        crc16_shift(crc16_shifts(crc, (n - 1) as nat))
    }
}

/// The CRC-16 register after feeding the bytes of `data`, starting from 0xFFFF.
pub open spec fn crc16_register(data: Seq<u8>) -> u16
    decreases data.len(),
{
    if data.len() == 0 {
        0xFFFFu16
    } else {
        crc16_shifts(crc16_register(data.drop_last()) ^ (data.last() as u16), 8)
    }
}

/// The MS/TP data CRC of `data`: the complemented register.
pub open spec fn spec_crc16(data: Seq<u8>) -> u16 {
    !crc16_register(data)
}

/// What one octet does to the CRC-8 register: the register XOR the octet
/// is mapped linearly, each set bit contributing its image under eight
/// shifts with feedback 0xE0.
pub open spec fn crc8_octet_map(v: u8) -> u8 {
    (if v & 0x1u8 != 0u8 { 0x91u8 } else { 0u8 }) ^ (if v & 0x2u8 != 0u8 { 0xE3u8 } else { 0u8 }) ^ (if v & 0x4u8 != 0u8 { 0x07u8 } else { 0u8 }) ^ (if v & 0x8u8 != 0u8 { 0x0Eu8 } else { 0u8 }) ^ (if v & 0x10u8 != 0u8 { 0x1Cu8 } else { 0u8 }) ^ (if v & 0x20u8 != 0u8 { 0x38u8 } else { 0u8 }) ^ (if v & 0x40u8 != 0u8 { 0x70u8 } else { 0u8 }) ^ (if v & 0x80u8 != 0u8 { 0xE0u8 } else { 0u8 })
}

/// What one octet does to the CRC-16 register: the register XOR the octet
/// is mapped linearly, each set bit contributing its image under eight
/// shifts with feedback 0xA001.
pub open spec fn crc16_octet_map(v: u16) -> u16 {
    (if v & 0x0001u16 != 0u16 { 0xC0C1u16 } else { 0u16 }) ^ (if v & 0x0002u16 != 0u16 { 0xC181u16 } else { 0u16 }) ^ (if v & 0x0004u16 != 0u16 { 0xC301u16 } else { 0u16 }) ^ (if v & 0x0008u16 != 0u16 { 0xC601u16 } else { 0u16 }) ^ (if v & 0x0010u16 != 0u16 { 0xCC01u16 } else { 0u16 }) ^ (if v & 0x0020u16 != 0u16 { 0xD801u16 } else { 0u16 }) ^ (if v & 0x0040u16 != 0u16 { 0xF001u16 } else { 0u16 }) ^ (if v & 0x0080u16 != 0u16 { 0xA001u16 } else { 0u16 }) ^ (if v & 0x0100u16 != 0u16 { 0x0001u16 } else { 0u16 }) ^ (if v & 0x0200u16 != 0u16 { 0x0002u16 } else { 0u16 }) ^ (if v & 0x0400u16 != 0u16 { 0x0004u16 } else { 0u16 }) ^ (if v & 0x0800u16 != 0u16 { 0x0008u16 } else { 0u16 }) ^ (if v & 0x1000u16 != 0u16 { 0x0010u16 } else { 0u16 }) ^ (if v & 0x2000u16 != 0u16 { 0x0020u16 } else { 0u16 }) ^ (if v & 0x4000u16 != 0u16 { 0x0040u16 } else { 0u16 }) ^ (if v & 0x8000u16 != 0u16 { 0x0080u16 } else { 0u16 })
}

proof fn lemma_crc8_shifts_octet(v: u8)
    ensures
        crc8_shifts(v, 8) == crc8_octet_map(v),
{
    let s0 = v;
    let s1 = crc8_shift(s0);
    let s2 = crc8_shift(s1);
    let s3 = crc8_shift(s2);
    let s4 = crc8_shift(s3);
    let s5 = crc8_shift(s4);
    let s6 = crc8_shift(s5);
    let s7 = crc8_shift(s6);
    let s8 = crc8_shift(s7);
    reveal_with_fuel(crc8_shifts, 9);
    assert(crc8_shifts(v, 8) == s8);
    assert(s8 == crc8_octet_map(s0)) by (bit_vector)
        requires
                s1 == crc8_shift(s0),
                s2 == crc8_shift(s1),
                s3 == crc8_shift(s2),
                s4 == crc8_shift(s3),
                s5 == crc8_shift(s4),
                s6 == crc8_shift(s5),
                s7 == crc8_shift(s6),
                s8 == crc8_shift(s7),
    ;
}

proof fn lemma_crc16_shifts_octet(v: u16)
    ensures
        crc16_shifts(v, 8) == crc16_octet_map(v),
{
    let s0 = v;
    let s1 = crc16_shift(s0);
    let s2 = crc16_shift(s1);
    let s3 = crc16_shift(s2);
    let s4 = crc16_shift(s3);
    let s5 = crc16_shift(s4);
    let s6 = crc16_shift(s5);
    let s7 = crc16_shift(s6);
    let s8 = crc16_shift(s7);
    reveal_with_fuel(crc16_shifts, 9);
    assert(crc16_shifts(v, 8) == s8);
    assert(s8 == crc16_octet_map(s0)) by (bit_vector)
        requires
                s1 == crc16_shift(s0),
                s2 == crc16_shift(s1),
                s3 == crc16_shift(s2),
                s4 == crc16_shift(s3),
                s5 == crc16_shift(s4),
                s6 == crc16_shift(s5),
                s7 == crc16_shift(s6),
                s8 == crc16_shift(s7),
    ;
}

/// The MS/TP header CRC-8, octet by octet: the CRC of no octets is 0, and
/// appending octet `b` complements the CRC, XORs in `b` and applies the
/// CRC-8 octet map (reflected, feedback 0xE0), then complements again.
pub proof fn lemma_crc8_by_octet(data: Seq<u8>, b: u8)
    ensures
        spec_crc8(Seq::<u8>::empty()) == 0u8,
        spec_crc8(data.push(b)) == !crc8_octet_map(!spec_crc8(data) ^ b),
{
    let r = crc8_register(data);
    assert(data.push(b).drop_last() =~= data);
    lemma_crc8_shifts_octet(r ^ b);
    assert(!(!r) == r && !0xFFu8 == 0u8) by (bit_vector);
}

/// The MS/TP data CRC-16, octet by octet: the CRC of no octets is 0, and
/// appending octet `b` complements the CRC, XORs in `b` and applies the
/// CRC-16 octet map (reflected, feedback 0xA001), then complements again.
pub proof fn lemma_crc16_by_octet(data: Seq<u8>, b: u8)
    ensures
        spec_crc16(Seq::<u8>::empty()) == 0u16,
        spec_crc16(data.push(b)) == !crc16_octet_map(!spec_crc16(data) ^ (b as u16)),
{
    let r = crc16_register(data);
    assert(data.push(b).drop_last() =~= data);
    lemma_crc16_shifts_octet(r ^ (b as u16));
    assert(!(!r) == r && !0xFFFFu16 == 0u16) by (bit_vector);
}

/// The header CRC of a Token frame from station 1 to station 2.
pub proof fn lemma_crc8_token_header()
    ensures
        spec_crc8(seq![0x00u8, 0x02u8, 0x01u8, 0x00u8, 0x00u8]) == 0x6Au8,
{
    let e = Seq::<u8>::empty();
    let d1 = e.push(0x00u8);
    let d2 = d1.push(0x02u8);
    let d3 = d2.push(0x01u8);
    let d4 = d3.push(0x00u8);
    let d5 = d4.push(0x00u8);
    lemma_crc8_by_octet(e, 0x00u8);
    lemma_crc8_by_octet(d1, 0x02u8);
    lemma_crc8_by_octet(d2, 0x01u8);
    lemma_crc8_by_octet(d3, 0x00u8);
    lemma_crc8_by_octet(d4, 0x00u8);
    let c0 = spec_crc8(e);
    let c1 = spec_crc8(d1);
    let c2 = spec_crc8(d2);
    let c3 = spec_crc8(d3);
    let c4 = spec_crc8(d4);
    let c5 = spec_crc8(d5);
    assert(c5 == 0x6Au8) by (bit_vector)
        requires
            c0 == 0u8,
            c1 == !crc8_octet_map(!c0 ^ 0x00u8),
            c2 == !crc8_octet_map(!c1 ^ 0x02u8),
            c3 == !crc8_octet_map(!c2 ^ 0x01u8),
            c4 == !crc8_octet_map(!c3 ^ 0x00u8),
            c5 == !crc8_octet_map(!c4 ^ 0x00u8),
    ;
    assert(d5 =~= seq![0x00u8, 0x02u8, 0x01u8, 0x00u8, 0x00u8]);
}

/// A header followed by its own CRC-8 always checks to the same value, the
/// CRC-8 of a single zero octet.
pub proof fn lemma_crc8_residue(data: Seq<u8>)
    ensures
        spec_crc8(data.push(spec_crc8(data))) == spec_crc8(seq![0u8]),
{
    let r = crc8_register(data);
    let t = data.push(!r);
    assert(t.drop_last() =~= data);
    assert(crc8_register(t) == crc8_shifts(r ^ !r, 8));
    let z = seq![0u8];
    assert(z.drop_last() =~= Seq::<u8>::empty());
    assert(z.last() == 0u8);
    assert(crc8_register(Seq::<u8>::empty()) == 0xFFu8);
    assert(crc8_register(z) == crc8_shifts(0xFFu8 ^ 0u8, 8));
    assert(r ^ !r == 0xFFu8 && 0xFFu8 ^ 0u8 == 0xFFu8) by (bit_vector);
}

/// One CRC-16 shift of `a ^ b`, for `b` with its low bit clear, is the
/// shift of `a` with `b` moved one bit down.
proof fn lemma_crc16_shift_split(a: u16, b: u16)
    requires
        b & 1u16 == 0u16,
    ensures
        crc16_shift(a ^ b) == crc16_shift(a) ^ (b >> 1u16),
{
    assert(crc16_shift(a ^ b) == crc16_shift(a) ^ (b >> 1u16)) by (bit_vector)
        requires
            b & 1u16 == 0u16,
    ;
}

/// An octet in the high half of the CRC-16 register is carried down, untouched
/// by the feedback, through the first eight shifts.
proof fn lemma_crc16_shifts_high(x: u16, h: u8, k: u16)
    requires
        k <= 8,
    ensures
        crc16_shifts(x ^ ((h as u16) << 8u16), k as nat) == crc16_shifts(x, k as nat) ^ (((h as u16) << 8u16) >> k),
    decreases k,
{
    let y: u16 = (h as u16) << 8u16;
    if k == 0 {
        assert(y >> 0u16 == y) by (bit_vector);
    } else {
        let j: u16 = (k - 1) as u16;
        lemma_crc16_shifts_high(x, h, j);
        assert((y >> j) & 1u16 == 0u16 && (y >> j) >> 1u16 == y >> k) by (bit_vector)
            requires
                j < 8u16,
                k == j + 1u16,
                y == (h as u16) << 8u16,
        ;
        lemma_crc16_shift_split(crc16_shifts(x, j as nat), y >> j);
    }
}

/// A data field followed by its own CRC-16, least significant octet first,
/// always checks to the same value, the CRC-16 of two zero octets.
pub proof fn lemma_crc16_residue(data: Seq<u8>)
    ensures
        spec_crc16(data + seq![(spec_crc16(data) % 256) as u8, (spec_crc16(data) / 256) as u8]) == spec_crc16(
            seq![0u8, 0u8],
        ),
{
    let r = crc16_register(data);
    let c = spec_crc16(data);
    let lo: u8 = (c % 256) as u8;
    let hi: u8 = (c / 256) as u8;
    let s = data + seq![lo, hi];
    assert(s.drop_last() =~= data.push(lo));
    assert(data.push(lo).drop_last() =~= data);
    lemma_crc16_shifts_high(r ^ (lo as u16), hi, 8);
    assert((r ^ (lo as u16)) ^ ((hi as u16) << 8u16) == 0xFFFFu16 && ((hi as u16) << 8u16) >> 8u16 == hi as u16)
        by (bit_vector)
        requires
            c == !r,
            lo == (c % 256) as u8,
            hi == (c / 256) as u8,
    ;
    assert(crc16_register(data.push(lo)) == crc16_shifts(r ^ (lo as u16), 8));
    assert(crc16_register(s) == crc16_shifts(crc16_shifts(r ^ (lo as u16), 8) ^ (hi as u16), 8));
    let z = seq![0u8, 0u8];
    let z1 = seq![0u8];
    assert(z.drop_last() =~= z1);
    assert(z1.drop_last() =~= Seq::<u8>::empty());
    assert(z1.last() == 0u8 && z.last() == 0u8);
    assert(crc16_register(Seq::<u8>::empty()) == 0xFFFFu16);
    let w = crc16_shifts(0xFFFFu16, 8);
    assert(0xFFFFu16 ^ 0u16 == 0xFFFFu16 && w ^ 0u16 == w) by (bit_vector);
    assert(crc16_register(z1) == crc16_shifts(0xFFFFu16 ^ (0u8 as u16), 8));
    assert(crc16_register(z) == crc16_shifts(w ^ (0u8 as u16), 8));
    assert(crc16_register(s) == crc16_shifts(w, 8));
}

/// CRC-8 used for the MS/TP header check.
pub fn crc8(data: &[u8]) -> (r: u8)
    ensures
        r == spec_crc8(data@),
{
    let mut crc: u8 = 0xFF;
    let mut i: usize = 0;
    while i < data.len()
        invariant
            i <= data.len(),
            crc == crc8_register(data@.take(i as int)),
        decreases data.len() - i,
    {
        let b = data[i];
        assert(data@.take(i + 1).drop_last() == data@.take(i as int));
        crc = crc ^ b;
        let ghost start = crc;
        let mut k: usize = 0;
        while k < 8
            invariant
                k <= 8,
                crc == crc8_shifts(start, k as nat),
            decreases 8 - k,
        {
            if crc & 0x01 != 0 {
                crc = (crc >> 1) ^ 0xE0;
            } else {
                crc = crc >> 1;
            }
            k = k + 1;
        }
        i = i + 1;
    }
    assert(data@.take(data.len() as int) == data@);
    !crc
}

/// CRC-16 used for the MS/TP data check.
pub fn crc16(data: &[u8]) -> (r: u16)
    ensures
        r == spec_crc16(data@),
{
    let mut crc: u16 = 0xFFFF;
    let mut i: usize = 0;
    while i < data.len()
        invariant
            i <= data.len(),
            crc == crc16_register(data@.take(i as int)),
        decreases data.len() - i,
    {
        let b = data[i];
        assert(data@.take(i + 1).drop_last() == data@.take(i as int));
        crc = crc ^ (b as u16);
        let ghost start = crc;
        let mut k: usize = 0;
        while k < 8
            invariant
                k <= 8,
                crc == crc16_shifts(start, k as nat),
            decreases 8 - k,
        {
            if crc & 0x0001 != 0 {
                crc = (crc >> 1) ^ 0xA001;
            } else {
                crc = crc >> 1;
            }
            k = k + 1;
        }
        i = i + 1;
    }
    assert(data@.take(data.len() as int) == data@);
    !crc
}

// ---------------------------------------------------------------------------
// Frames
// ---------------------------------------------------------------------------

/// A complete MS/TP frame.
#[derive(Debug, Clone, PartialEq, Eq)]
pub struct MstpFrame {
    pub frame_type: MstpFrameType,
    pub destination: u8,
    pub source: u8,
    pub data: bytes::Bytes,
}

/// The eight header bytes of a frame with `data_len` data bytes (the
/// length field is the 16-bit truncation of `data_len`, as on the wire).
pub open spec fn mstp_header(t: MstpFrameType, destination: u8, source: u8, data_len: nat) -> Seq<u8> {
    let len16 = data_len as u16;
    let fields = seq![frame_type_code(t), destination, source, (len16 / 256) as u8, (len16 % 256) as u8];
    seq![MSTP_PREAMBLE_55, MSTP_PREAMBLE_FF] + fields + seq![spec_crc8(fields)]
}

/// The wire bytes of a frame: header, then (when there is data) the data and
/// its CRC-16, least significant byte first.
pub open spec fn spec_mstp_encode(t: MstpFrameType, destination: u8, source: u8, data: Seq<u8>) -> Seq<u8> {
    let crc = spec_crc16(data);
    mstp_header(t, destination, source, data.len()) + if data.len() == 0 {
        Seq::<u8>::empty()
    } else {
        data + seq![(crc % 256) as u8, (crc / 256) as u8]
    }
}

/// The frame decoded from wire bytes `buf`: type, destination, source and
/// data, or the first check that fails.
pub open spec fn spec_mstp_decode(buf: Seq<u8>) -> Result<(MstpFrameType, u8, u8, Seq<u8>), MstpDecodeError> {
    if buf.len() < 2 {
        Err(MstpDecodeError::Incomplete)
    } else if buf[0] != MSTP_PREAMBLE_55 || buf[1] != MSTP_PREAMBLE_FF {
        Err(MstpDecodeError::BadPreamble)
    } else if buf.len() < 8 {
        Err(MstpDecodeError::Incomplete)
    } else if buf[2] > 0x07 {
        Err(MstpDecodeError::UnknownFrameType(buf[2]))
    } else if buf[7] != spec_crc8(buf.subrange(2, 7)) {
        Err(MstpDecodeError::BadHeaderCrc)
    } else {
        let t = choose|t: MstpFrameType| frame_type_code(t) == buf[2];
        let data_len = buf[5] as int * 256 + buf[6] as int;
        if buf.len() < 8 + data_len + if data_len > 0 { 2int } else { 0int } {
            Err(MstpDecodeError::Incomplete)
        } else {
            let data = buf.subrange(8, 8 + data_len);
            if data_len > 0 && buf[8 + data_len] as int + buf[9 + data_len] as int * 256 != spec_crc16(data) as int {
                Err(MstpDecodeError::BadDataCrc)
            } else {
                Ok((t, buf[3], buf[4], data))
            }
        }
    }
}

impl MstpFrame {
    /// Encode to wire bytes.
    pub fn encode(&self) -> (r: bytes::Bytes)
        ensures
            bytes_view(r) == spec_mstp_encode(self.frame_type, self.destination, self.source, bytes_view(self.data)),
    {
        let data = bytes_as_slice(&self.data);
        let mut buf = bytes_mut_new();
        put_u8(&mut buf, MSTP_PREAMBLE_55);
        put_u8(&mut buf, MSTP_PREAMBLE_FF);
        put_u8(&mut buf, self.frame_type.to_u8());
        put_u8(&mut buf, self.destination);
        put_u8(&mut buf, self.source);
        let data_len = (data.len() % 65536) as u16;
        put_u16(&mut buf, data_len);
        let ghost dl: usize = data.len();
        assert(dl as u16 == data_len) by (bit_vector)
            requires data_len == (dl % 65536) as u16;
        let ghost fields = seq![frame_type_code(self.frame_type), self.destination, self.source,
            (data_len / 256) as u8, (data_len % 256) as u8];
        assert(bytes_mut_view(buf).subrange(2, 7) =~= fields);
        let hdr_crc = crc8(&bytes_mut_as_slice(&buf)[2..7]);
        put_u8(&mut buf, hdr_crc);
        assert(bytes_mut_view(buf) =~= mstp_header(self.frame_type, self.destination, self.source, data@.len()));
        if data.len() != 0 {
            extend_from_slice(&mut buf, data);
            let data_crc = crc16(data);
            put_u16_le(&mut buf, data_crc);
        }
        let r = freeze(buf);
        assert(bytes_view(r) =~= spec_mstp_encode(self.frame_type, self.destination, self.source, bytes_view(self.data)));
        r
    }

    /// Decode from wire bytes.
    pub fn decode(buf: &[u8]) -> (r: Result<Self, MstpDecodeError>)
        ensures
            match r {
                Ok(f) => spec_mstp_decode(buf@) == Ok::<_, MstpDecodeError>((f.frame_type, f.destination, f.source, bytes_view(f.data))),
                Err(e) => spec_mstp_decode(buf@) == Err::<(MstpFrameType, u8, u8, Seq<u8>), _>(e),
            },
    {
        if buf.len() < 2 {
            return Err(MstpDecodeError::Incomplete);
        }
        if buf[0] != MSTP_PREAMBLE_55 || buf[1] != MSTP_PREAMBLE_FF {
            return Err(MstpDecodeError::BadPreamble);
        }
        if buf.len() < 8 {
            return Err(MstpDecodeError::Incomplete);
        }
        let frame_type = match MstpFrameType::from_u8(buf[2]) {
            Some(t) => t,
            None => return Err(MstpDecodeError::UnknownFrameType(buf[2])),
        };
        let destination = buf[3];
        let source = buf[4];
        let data_len = (buf[5] as usize) * 256 + buf[6] as usize;
        let expected_hdr_crc = buf[7];
        let actual_hdr_crc = crc8(&buf[2..7]);
        if expected_hdr_crc != actual_hdr_crc {
            return Err(MstpDecodeError::BadHeaderCrc);
        }
        proof {
            lemma_frame_type_code_injective(frame_type, choose|t: MstpFrameType| frame_type_code(t) == buf@[2]);
        }
        let trailer: usize = if data_len > 0 { 2 } else { 0 };
        if buf.len() < 8 + data_len + trailer {
            return Err(MstpDecodeError::Incomplete);
        }
        let data = bytes_copy_from_slice(&buf[8..8 + data_len]);
        if data_len > 0 {
            let expected_crc16 = (buf[8 + data_len] as u16) + (buf[9 + data_len] as u16) * 256;
            let actual_crc16 = crc16(bytes_as_slice(&data));
            if expected_crc16 != actual_crc16 {
                return Err(MstpDecodeError::BadDataCrc);
            }
        }
        Ok(Self { frame_type, destination, source, data })
    }
}

/// Decoding the encoding of a frame gives the frame back, for every frame
/// whose data fits the 16-bit length field.
pub proof fn lemma_mstp_roundtrip(t: MstpFrameType, destination: u8, source: u8, data: Seq<u8>)
    requires
        data.len() <= 0xFFFF,
    ensures
        spec_mstp_decode(spec_mstp_encode(t, destination, source, data)) == Ok::<_, MstpDecodeError>((t, destination, source, data)),
{
    let buf = spec_mstp_encode(t, destination, source, data);
    let len16 = data.len() as u16;
    let fields = seq![frame_type_code(t), destination, source, (len16 / 256) as u8, (len16 % 256) as u8];
    assert(buf.subrange(2, 7) =~= fields);
    lemma_frame_type_code_injective(t, choose|u: MstpFrameType| frame_type_code(u) == buf[2]);
    assert(buf[5] as int * 256 + buf[6] as int == data.len());
    let n = data.len() as int;
    if n > 0 {
        assert(buf.subrange(8, 8 + n) =~= data);
        let crc = spec_crc16(data);
        assert(buf[8 + n] as int + buf[9 + n] as int * 256 == crc as int);
    } else {
        assert(buf.subrange(8, 8) =~= data);
    }
}

} // verus!
