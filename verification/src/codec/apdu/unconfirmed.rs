//! Unconfirmed-Request APDUs: Who-Is, I-Am and the services carried along.
use vstd::prelude::*;
use crate::buffers::{bytes_mut_view, put_u8};
use crate::codec::apdu::confirmed::{decode_opt_ctx_u32, spec_opt_ctx_unsigned, Segmentation, WhoIsRequest};
use crate::encoding::{
    app_octets, be_bytes, be_value, ctx_unsigned_octets, decode_error, encode_ctx_u32, encode_property_value,
    lemma_be_roundtrip, lemma_ctx_unsigned_roundtrip, lemma_ctx_unsigned_shift, lemma_pow256_values, object_id_raw, pow256, read_be,
};
use crate::types::{BacnetError, ObjectId, ObjectType, PValue, PropertyIdentifier, PropertyValue};

verus! {

/// I-Am response data.
#[derive(Debug, Clone, Copy, PartialEq, Eq)]
pub struct IAmRequest {
    pub device_instance: u32,
    pub max_apdu_length_accepted: u16,
    pub segmentation_supported: Segmentation,
    pub vendor_id: u16,
}

/// Unconfirmed COV notification payload.
#[derive(Debug, PartialEq)]
pub struct UnconfirmedCovNotification {
    pub subscriber_process_id: u32,
    pub initiating_device: u32,
    pub monitored_object: ObjectId,
    pub time_remaining: u32,
    pub list_of_values: Vec<(PropertyIdentifier, PropertyValue)>,
}

/// The unconfirmed service requests.
#[derive(Debug, PartialEq)]
pub enum UnconfirmedRequest {
    WhoIs(WhoIsRequest),
    IAm(IAmRequest),
    UnconfirmedCovNotification(UnconfirmedCovNotification),
    TimeSynchronization { datetime: bytes::Bytes },
}

/// The Enumerated value of a segmentation option.
pub open spec fn segmentation_code(s: Segmentation) -> u8 {
    match s {
        Segmentation::Both => 0,
        Segmentation::Transmit => 1,
        Segmentation::Receive => 2,
        Segmentation::NoSegmentation => 3,
    }
}

/// The octets of a Who-Is request: the limits are written only when both
/// are given.
pub open spec fn whois_octets(w: WhoIsRequest) -> Seq<u8> {
    seq![0x10u8, 0x08u8] + match (w.low_limit, w.high_limit) {
        (Some(lo), Some(hi)) => ctx_unsigned_octets(0, lo) + ctx_unsigned_octets(1, hi),
        _ => Seq::<u8>::empty(),
    }
}

/// The identifier of device `instance`.
pub open spec fn device_oid(instance: u32) -> ObjectId {
    ObjectId { object_type: ObjectType::Device, instance }
}

/// The octets of an I-Am request: application-tagged device identifier,
/// max APDU length, segmentation (Enumerated) and vendor identifier.
pub open spec fn iam_octets(i: IAmRequest) -> Seq<u8> {
    seq![0x10u8, 0x00u8] + app_octets(PValue::ObjectId(device_oid(i.device_instance)))
        + app_octets(PValue::Unsigned(i.max_apdu_length_accepted as u32)) + seq![
        0x91u8,
        segmentation_code(i.segmentation_supported),
    ] + app_octets(PValue::Unsigned(i.vendor_id as u32))
}

/// The octets written for a request: Who-Is and I-Am have encoders, the
/// others write nothing.
pub open spec fn unconfirmed_octets(r: UnconfirmedRequest) -> Seq<u8> {
    match r {
        UnconfirmedRequest::WhoIs(w) => whois_octets(w),
        UnconfirmedRequest::IAm(i) => iam_octets(i),
        _ => Seq::<u8>::empty(),
    }
}

/// The Who-Is request held by `body`: optional context tags [0] and [1].
pub open spec fn spec_whois_body(body: Seq<u8>) -> Option<WhoIsRequest> {
    match spec_opt_ctx_unsigned(body, 0, 0) {
        None => None,
        Some((lo, p)) => match spec_opt_ctx_unsigned(body, p, 1) {
            None => None,
            Some((hi, _)) => Some(WhoIsRequest { low_limit: lo, high_limit: hi }),
        },
    }
}

/// The I-Am request read from `body`: only the device instance is taken
/// from the octets (from an application-tagged object identifier in first
/// place, else 0); the other fields are the simulator's defaults.
pub open spec fn spec_iam_body(body: Seq<u8>) -> IAmRequest {
    IAmRequest {
        device_instance: if body.len() >= 5 && body[0] == 0xC4 {
            (be_value(body.subrange(1, 5)) % 0x400000) as u32
        } else {
            0
        },
        max_apdu_length_accepted: 1476,
        segmentation_supported: Segmentation::NoSegmentation,
        vendor_id: 999,
    }
}

/// What decoding `buf` gives: a Who-Is or an I-Am, `None` for each input
/// that is rejected.
pub open spec fn spec_unconfirmed_decode(buf: Seq<u8>) -> Option<UnconfirmedRequest> {
    if buf.len() < 2 || buf[0] != 0x10 {
        None
    } else {
        let body = buf.subrange(2, buf.len() as int);
        if buf[1] == 8 {
            match spec_whois_body(body) {
                Some(w) => Some(UnconfirmedRequest::WhoIs(w)),
                None => None,
            }
        } else if buf[1] == 0 {
            Some(UnconfirmedRequest::IAm(spec_iam_body(body)))
        } else {
            None
        }
    }
}

impl UnconfirmedRequest {
    /// Appends the PDU: type octet, service choice and the service's fields.
    pub fn encode(&self, buf: &mut bytes::BytesMut)
        ensures
            bytes_mut_view(*final(buf)) == bytes_mut_view(*old(buf)) + unconfirmed_octets(*self),
    {
        match self {
            UnconfirmedRequest::WhoIs(w) => {
                put_u8(buf, 0x10);
                put_u8(buf, 0x08);
                match (w.low_limit, w.high_limit) {
                    (Some(lo), Some(hi)) => {
                        encode_ctx_u32(buf, 0, lo);
                        encode_ctx_u32(buf, 1, hi);
                    },
                    _ => {},
                }
                assert(bytes_mut_view(*buf) =~= bytes_mut_view(*old(buf)) + unconfirmed_octets(*self));
            },
            UnconfirmedRequest::IAm(i) => {
                put_u8(buf, 0x10);
                put_u8(buf, 0x00);
                let oid = ObjectId { object_type: ObjectType::Device, instance: i.device_instance };
                encode_property_value(buf, &PropertyValue::ObjectId(oid));
                encode_property_value(buf, &PropertyValue::Unsigned(i.max_apdu_length_accepted as u32));
                let seg: u8 = match i.segmentation_supported {
                    Segmentation::Both => 0,
                    Segmentation::Transmit => 1,
                    Segmentation::Receive => 2,
                    Segmentation::NoSegmentation => 3,
                };
                put_u8(buf, 0x91);
                put_u8(buf, seg);
                encode_property_value(buf, &PropertyValue::Unsigned(i.vendor_id as u32));
                assert(bytes_mut_view(*buf) =~= bytes_mut_view(*old(buf)) + unconfirmed_octets(*self));
            },
            _ => {
                assert(bytes_mut_view(*buf) =~= bytes_mut_view(*old(buf)) + unconfirmed_octets(*self));
            },
        }
    }

    /// Decodes an Unconfirmed-Request PDU: `[PDU type] [service choice] [body]`.
    pub fn decode(buf: &[u8]) -> (r: Result<UnconfirmedRequest, BacnetError>)
        ensures
            match spec_unconfirmed_decode(buf@) {
                Some(q) => r == Ok::<UnconfirmedRequest, BacnetError>(q),
                None => r matches Err(e) && e is DecodeError,
            },
    {
        let blen = buf.len();
        if blen < 2 {
            return Err(decode_error("unconfirmed PDU too short"));
        }
        if buf[0] != 0x10 {
            return Err(decode_error("expected unconfirmed PDU type"));
        }
        let body = &buf[2..blen];
        let choice = buf[1];
        if choice == 0x08 {
            let mut pos: usize = 0;
            let low_limit = decode_opt_ctx_u32(body, &mut pos, 0)?;
            let high_limit = decode_opt_ctx_u32(body, &mut pos, 1)?;
            Ok(UnconfirmedRequest::WhoIs(WhoIsRequest { low_limit, high_limit }))
        } else if choice == 0x00 {
            let device_instance: u32 = if body.len() >= 5 && body[0] == 0xC4 {
                let raw = read_be(body, 1, 4);
                proof {
                    crate::encoding::lemma_be_value_bound(body@.subrange(1, 5));
                    lemma_pow256_values();
                }
                (raw % 0x400000) as u32
            } else {
                0
            };
            Ok(UnconfirmedRequest::IAm(IAmRequest {
                device_instance,
                max_apdu_length_accepted: 1476,
                segmentation_supported: Segmentation::NoSegmentation,
                vendor_id: 999,
            }))
        } else {
            Err(decode_error("unknown unconfirmed service"))
        }
    }
}

/// A Who-Is request reads back from its octets: with both limits, as it
/// was; with one limit missing the limits are not written, and it reads
/// back without limits.
pub proof fn lemma_whois_roundtrip(w: WhoIsRequest)
    ensures
        spec_unconfirmed_decode(whois_octets(w)) == Some(UnconfirmedRequest::WhoIs(match (w.low_limit, w.high_limit) {
            (Some(_), Some(_)) => w,
            _ => WhoIsRequest { low_limit: None, high_limit: None },
        })),
{
    let b = whois_octets(w);
    let body = b.subrange(2, b.len() as int);
    match (w.low_limit, w.high_limit) {
        (Some(lo), Some(hi)) => {
            let a = ctx_unsigned_octets(0, lo);
            let c = ctx_unsigned_octets(1, hi);
            assert(body =~= a + c);
            lemma_ctx_unsigned_roundtrip(0, lo, c);
            assert(c =~= c + Seq::<u8>::empty());
            assert((a + c).subrange(a.len() as int, (a + c).len() as int) =~= c);
            lemma_ctx_unsigned_roundtrip(1, hi, Seq::<u8>::empty());
            lemma_ctx_unsigned_shift(a, c, 1);
        },
        _ => {
            assert(body =~= Seq::<u8>::empty());
        },
    }
}

/// The body decoded from the octets of an I-Am request carries the device
/// instance (modulo 2^22, the width of an instance number).
pub proof fn lemma_iam_roundtrip(i: IAmRequest)
    ensures
        spec_iam_body(iam_octets(i).subrange(2, iam_octets(i).len() as int)).device_instance
            == i.device_instance % 0x400000,
{
    let b = iam_octets(i);
    let body = b.subrange(2, b.len() as int);
    let raw = object_id_raw(device_oid(i.device_instance));
    lemma_pow256_values();
    assert(raw < pow256(4));
    lemma_be_roundtrip(raw, 4);
    assert(body[0] == 0xC4u8);
    assert(body.subrange(1, 5) =~= be_bytes(raw, 4));
    let inst = i.device_instance as nat % 0x400000;
    assert((8 * 0x400000 + inst) % 0x400000 == inst) by (nonlinear_arith)
        requires inst < 0x400000;
}

} // verus!
