//! Confirmed-Request APDUs and the bodies of the confirmed services.
use vstd::prelude::*;
use crate::buffers::{bytes_mut_view, put_u8};
use crate::encoding::{
    decode_application_value, decode_ctx_bool, decode_ctx_object_id, decode_ctx_property_id,
    decode_ctx_u32, decode_error, has_context_tag, is_closing, is_opening, closing_octet, opening_octet,
    spec_ctx_bool, spec_ctx_object_id, spec_ctx_unsigned, spec_decode_app, spec_has_context_tag,
    lemma_pow256_values, pow256,
};
use crate::types::{property_from_code, BacnetError, ObjectId, PValue, PropertyIdentifier, PropertyValue};

verus! {

/// BACnet confirmed-service choice codes (ASHRAE 135 Clause 21).
#[derive(Debug, Clone, Copy, PartialEq, Eq)]
pub enum ConfirmedServiceChoice {
    AcknowledgeAlarm,
    CovNotification,
    EventNotification,
    GetAlarmSummary,
    GetEnrollmentSummary,
    SubscribeCov,
    AtomicReadFile,
    AtomicWriteFile,
    AddListElement,
    RemoveListElement,
    CreateObject,
    DeleteObject,
    ReadProperty,
    ReadPropertyMultiple,
    WriteProperty,
    WritePropertyMultiple,
    DeviceCommunicationControl,
    PrivateTransfer,
    TextMessage,
    ReinitializeDevice,
    VtOpen,
    VtClose,
    VtData,
    Authenticate,
    RequestKey,
    ReadRange,
    LifeSafetyOperation,
    SubscribeCovProperty,
    GetEventInformation,
    SubscribeCovPropertyMultiple,
    ConfirmedCovNotificationMultiple,
    ConfirmedAuditNotification,
    AuditLogQuery,
}

/// Segmentation support options.
#[derive(Debug, Clone, Copy, PartialEq, Eq, Default)]
pub enum Segmentation {
    Both,
    Transmit,
    Receive,
    #[default]
    NoSegmentation,
}

/// Max segments accepted by the peer.
#[derive(Debug, Clone, Copy, PartialEq, Eq)]
pub enum MaxSegments {
    Two,
    Four,
    Eight,
    Sixteen,
    ThirtyTwo,
    SixtyFour,
    MoreThan64,
    Unspecified,
}

/// ReadProperty service request.
#[derive(Debug, Clone, Copy, PartialEq, Eq)]
pub struct ReadPropertyRequest {
    pub object_id: ObjectId,
    pub property_id: PropertyIdentifier,
    pub array_index: Option<u32>,
}

/// WriteProperty service request.
#[derive(Debug, Clone, PartialEq)]
pub struct WritePropertyRequest {
    pub object_id: ObjectId,
    pub property_id: PropertyIdentifier,
    pub array_index: Option<u32>,
    pub value: PropertyValue,
    pub priority: Option<u8>,
}

/// SubscribeCOV service request.
#[derive(Debug, Clone, Copy, PartialEq, Eq)]
pub struct SubscribeCovRequest {
    pub subscriber_process_id: u32,
    pub monitored_object: ObjectId,
    /// `None` asks to cancel the subscription.
    pub issue_confirmed: Option<bool>,
    pub lifetime: Option<u32>,
}

/// Who-Is request.
#[derive(Debug, Clone, Copy, PartialEq, Eq)]
pub struct WhoIsRequest {
    pub low_limit: Option<u32>,
    pub high_limit: Option<u32>,
}

/// The property references of one object in a ReadPropertyMultiple request.
pub type PropertyRefs = Vec<(PropertyIdentifier, Option<u32>)>;

/// Union of the confirmed service request bodies this library handles.
#[derive(Debug, Clone, PartialEq)]
pub enum ConfirmedServiceRequest {
    ReadProperty(ReadPropertyRequest),
    WriteProperty(WritePropertyRequest),
    SubscribeCov(SubscribeCovRequest),
    ReadPropertyMultiple(Vec<(ObjectId, PropertyRefs)>),
}

/// A BACnet Confirmed-Request PDU.
#[derive(Debug, Clone, PartialEq)]
pub struct ConfirmedRequest {
    pub segmented_accepted: bool,
    pub more_follows: bool,
    pub segmented_response_accepted: bool,
    pub max_segments: MaxSegments,
    pub max_response: u16,
    pub invoke_id: u8,
    pub sequence_number: Option<u8>,
    pub proposed_window: Option<u8>,
    pub service: ConfirmedServiceRequest,
}

/// The service choice code of a request body.
pub open spec fn service_choice_code(s: ConfirmedServiceRequest) -> u8 {
    match s {
        ConfirmedServiceRequest::ReadProperty(_) => 12,
        ConfirmedServiceRequest::WriteProperty(_) => 15,
        ConfirmedServiceRequest::SubscribeCov(_) => 5,
        ConfirmedServiceRequest::ReadPropertyMultiple(_) => 14,
    }
}

/// The four header octets written for a Confirmed-Request PDU.
pub open spec fn confirmed_header_octets(r: ConfirmedRequest) -> Seq<u8> {
    let flags: u8 = ((if r.segmented_accepted { 0x08u8 } else { 0u8 }) + (if r.more_follows { 0x04u8 } else { 0u8 })) as u8;
    seq![flags, 0x04u8, r.invoke_id, service_choice_code(r.service)]
}

impl ConfirmedRequest {
    /// Appends the PDU header: flags, the max-segments/max-response octet,
    /// the invoke id and the service choice.
    pub fn encode(&self, buf: &mut bytes::BytesMut)
        ensures
            bytes_mut_view(*final(buf)) == bytes_mut_view(*old(buf)) + confirmed_header_octets(*self),
    {
        let flags: u8 = (if self.segmented_accepted { 0x08u8 } else { 0x00u8 }) + (if self.more_follows { 0x04u8 } else { 0x00u8 });
        put_u8(buf, flags);
        put_u8(buf, 0x04);
        put_u8(buf, self.invoke_id);
        let choice: u8 = match &self.service {
            ConfirmedServiceRequest::ReadProperty(_) => 12,
            ConfirmedServiceRequest::WriteProperty(_) => 15,
            ConfirmedServiceRequest::SubscribeCov(_) => 5,
            ConfirmedServiceRequest::ReadPropertyMultiple(_) => 14,
        };
        put_u8(buf, choice);
        assert(bytes_mut_view(*buf) =~= bytes_mut_view(*old(buf)) + confirmed_header_octets(*self));
    }
}

// ---------------------------------------------------------------------------
// Specifications of the service bodies
// ---------------------------------------------------------------------------

/// An optional context-tagged unsigned at `pos`: absent when no context tag
/// `tag` starts there; `None` when one does but is malformed.
pub open spec fn spec_opt_ctx_unsigned(body: Seq<u8>, pos: int, tag: u8) -> Option<(Option<u32>, int)> {
    if spec_has_context_tag(body, pos, tag) {
        match spec_ctx_unsigned(body, pos, tag) {
            Some((v, next)) => Some((Some(v as u32), next)),
            None => None,
        }
    } else {
        Some((None, pos))
    }
}

/// A ReadProperty-Request body: object ([0]), property ([1]), optional
/// array index ([2]).
pub open spec fn spec_read_property(body: Seq<u8>) -> Option<ReadPropertyRequest> {
    match spec_ctx_object_id(body, 0, 0) {
        None => None,
        Some((o, p1)) => match spec_ctx_unsigned(body, p1, 1) {
            None => None,
            Some((pid, p2)) => match spec_opt_ctx_unsigned(body, p2, 2) {
                None => None,
                Some((idx, _)) => Some(ReadPropertyRequest {
                    object_id: o,
                    property_id: property_from_code(pid as u32),
                    array_index: idx,
                }),
            },
        },
    }
}

/// The model of a WriteProperty-Request body.
pub struct WritePropertyModel {
    pub object_id: ObjectId,
    pub property_id: PropertyIdentifier,
    pub array_index: Option<u32>,
    pub value: PValue,
    pub priority: Option<u8>,
}

/// A WriteProperty-Request body: object ([0]), property ([1]), optional
/// array index ([2]), the value between opening and closing tag [3], and
/// an optional priority ([4], its low octet kept).
pub open spec fn spec_write_property(body: Seq<u8>) -> Option<WritePropertyModel> {
    match spec_ctx_object_id(body, 0, 0) {
        None => None,
        Some((o, p1)) => match spec_ctx_unsigned(body, p1, 1) {
            None => None,
            Some((pid, p2)) => match spec_opt_ctx_unsigned(body, p2, 2) {
                None => None,
                Some((idx, p3)) => {
                    if !(p3 < body.len() && body[p3] == opening_octet(3)) {
                        None
                    } else {
                        match spec_decode_app(body, p3 + 1) {
                            None => None,
                            Some((v, p4)) => {
                                if !(p4 < body.len() && body[p4] == closing_octet(3)) {
                                    None
                                } else {
                                    match spec_opt_ctx_unsigned(body, p4 + 1, 4) {
                                        None => None,
                                        Some((prio, _)) => Some(WritePropertyModel {
                                            object_id: o,
                                            property_id: property_from_code(pid as u32),
                                            array_index: idx,
                                            value: v,
                                            priority: match prio {
                                                Some(p) => Some(p as u8),
                                                None => None,
                                            },
                                        }),
                                    }
                                }
                            },
                        }
                    }
                },
            },
        },
    }
}

/// A SubscribeCOV-Request body: process id ([0]), object ([1]), optional
/// issue-confirmed flag ([2]) and lifetime ([3]).
pub open spec fn spec_subscribe_cov(body: Seq<u8>) -> Option<SubscribeCovRequest> {
    match spec_ctx_unsigned(body, 0, 0) {
        None => None,
        Some((pid, p1)) => match spec_ctx_object_id(body, p1, 1) {
            None => None,
            Some((o, p2)) => {
                let conf: Option<(Option<bool>, int)> = if spec_has_context_tag(body, p2, 2) {
                    match spec_ctx_bool(body, p2, 2) {
                        Some((b, next)) => Some((Some(b), next)),
                        None => None,
                    }
                } else {
                    Some((None, p2))
                };
                match conf {
                    None => None,
                    Some((c, p3)) => match spec_opt_ctx_unsigned(body, p3, 3) {
                        None => None,
                        Some((life, _)) => Some(SubscribeCovRequest {
                            subscriber_process_id: pid as u32,
                            monitored_object: o,
                            issue_confirmed: c,
                            lifetime: life,
                        }),
                    },
                }
            },
        },
    }
}

/// The property references of a ReadPropertyMultiple list from `pos` up to
/// its closing tag [1]: the references and the position of that tag.
pub open spec fn spec_rpm_refs(body: Seq<u8>, pos: int) -> Option<(Seq<(PropertyIdentifier, Option<u32>)>, int)>
    decreases body.len() - pos,
{
    if pos < body.len() && body[pos] == closing_octet(1) {
        Some((Seq::empty(), pos))
    } else if pos >= body.len() || pos < 0 {
        None
    } else {
        match spec_ctx_unsigned(body, pos, 0) {
            None => None,
            Some((pid, p2)) => match spec_opt_ctx_unsigned(body, p2, 1) {
                None => None,
                Some((idx, p3)) => {
                    if p3 <= pos {
                        None
                    } else {
                        match spec_rpm_refs(body, p3) {
                            None => None,
                            Some((rest, end)) => Some((seq![(property_from_code(pid as u32), idx)] + rest, end)),
                        }
                    }
                },
            },
        }
    }
}

/// The object specifications of a ReadPropertyMultiple request from `pos`
/// to the end of the body.
pub open spec fn spec_rpm_from(body: Seq<u8>, pos: int) -> Option<Seq<(ObjectId, Seq<(PropertyIdentifier, Option<u32>)>)>>
    decreases body.len() - pos,
{
    if pos >= body.len() || pos < 0 {
        Some(Seq::empty())
    } else {
        match spec_ctx_object_id(body, pos, 0) {
            None => None,
            Some((o, p1)) => {
                if !(p1 < body.len() && body[p1] == opening_octet(1)) {
                    None
                } else {
                    match spec_rpm_refs(body, p1 + 1) {
                        None => None,
                        Some((refs, end)) => {
                            if end + 1 <= pos || end >= body.len() {
                                None
                            } else {
                                match spec_rpm_from(body, end + 1) {
                                    None => None,
                                    Some(rest) => Some(seq![(o, refs)] + rest),
                                }
                            }
                        },
                    }
                }
            },
        }
    }
}

/// The model of a decoded ReadPropertyMultiple request.
pub open spec fn rpm_view(specs: Seq<(ObjectId, PropertyRefs)>) -> Seq<(ObjectId, Seq<(PropertyIdentifier, Option<u32>)>)> {
    specs.map_values(|e: (ObjectId, PropertyRefs)| (e.0, e.1@))
}

pub proof fn lemma_ctx_unsigned_advances(body: Seq<u8>, pos: int, tag: u8)
    ensures
        spec_ctx_unsigned(body, pos, tag) matches Some((v, next)) ==> next > pos && next <= body.len()
            && v < pow256(4),
{
    if let Some((v, next)) = spec_ctx_unsigned(body, pos, tag) {
        let (number, context, lvt, len, start) = crate::encoding::spec_tag_header(body, pos).unwrap();
        crate::encoding::lemma_be_value_bound(body.subrange(start, start + len));
        crate::encoding::pow256_monotone(len, 4);
    }
}

// ---------------------------------------------------------------------------
// Service body decoders
// ---------------------------------------------------------------------------


/// Reads an optional context-tagged unsigned at `*pos`.
pub(crate) fn decode_opt_ctx_u32(body: &[u8], pos: &mut usize, tag: u8) -> (r: Result<Option<u32>, BacnetError>)
    ensures
        match r {
            Ok(v) => spec_opt_ctx_unsigned(body@, *old(pos) as int, tag) == Some((v, *final(pos) as int)),
            Err(e) => spec_opt_ctx_unsigned(body@, *old(pos) as int, tag) is None && e is DecodeError,
        },
{
    if has_context_tag(body, *pos, tag) {
        let v = decode_ctx_u32(body, pos, tag)?;
        Ok(Some(v))
    } else {
        Ok(None)
    }
}

/// Decodes a ReadProperty-Request body.
pub fn decode_read_property(body: &[u8]) -> (r: Result<ReadPropertyRequest, BacnetError>)
    ensures
        match r {
            Ok(req) => spec_read_property(body@) == Some(req),
            Err(e) => spec_read_property(body@) is None && e is DecodeError,
        },
{
    let mut pos: usize = 0;
    let object_id = decode_ctx_object_id(body, &mut pos, 0)?;
    let property_id = decode_ctx_property_id(body, &mut pos, 1)?;
    let array_index = decode_opt_ctx_u32(body, &mut pos, 2)?;
    Ok(ReadPropertyRequest { object_id, property_id, array_index })
}

/// Decodes a WriteProperty-Request body.
pub fn decode_write_property(body: &[u8]) -> (r: Result<WritePropertyRequest, BacnetError>)
    ensures
        match r {
            Ok(req) => spec_write_property(body@) == Some(WritePropertyModel {
                object_id: req.object_id,
                property_id: req.property_id,
                array_index: req.array_index,
                value: req.value@,
                priority: req.priority,
            }),
            Err(e) => spec_write_property(body@) is None && e is DecodeError,
        },
{
    let blen = body.len();
    let mut pos: usize = 0;
    let object_id = decode_ctx_object_id(body, &mut pos, 0)?;
    let property_id = decode_ctx_property_id(body, &mut pos, 1)?;
    let array_index = decode_opt_ctx_u32(body, &mut pos, 2)?;
    if !is_opening(body, pos, 3) {
        return Err(decode_error("WriteProperty: expected opening tag [3] for property-value"));
    }
    pos = pos + 1;
    let value = decode_application_value(body, &mut pos)?;
    if !is_closing(body, pos, 3) {
        return Err(decode_error("WriteProperty: expected closing tag [3] for property-value"));
    }
    pos = pos + 1;
    let priority = match decode_opt_ctx_u32(body, &mut pos, 4)? {
        Some(p) => Some(p as u8),
        None => None,
    };
    Ok(WritePropertyRequest { object_id, property_id, array_index, value, priority })
}

/// A property reference list that parses ends at its closing tag, at or
/// after where it starts.
pub proof fn lemma_rpm_refs_end(body: Seq<u8>, pos: int)
    ensures
        spec_rpm_refs(body, pos) matches Some((refs, end)) ==> pos <= end < body.len()
            && body[end] == closing_octet(1),
    decreases body.len() - pos,
{
    if !(pos < body.len() && body[pos] == closing_octet(1)) && 0 <= pos < body.len() {
        if let Some((pid, p2)) = spec_ctx_unsigned(body, pos, 0) {
            if let Some((idx, p3)) = spec_opt_ctx_unsigned(body, p2, 1) {
                lemma_ctx_unsigned_advances(body, pos, 0);
                lemma_ctx_unsigned_advances(body, p2, 1);
                if p3 > pos {
                    lemma_rpm_refs_end(body, p3);
                }
            }
        }
    }
}

/// Decodes the property references of one object, from `*pos` up to and
/// not including the closing tag [1].
fn decode_rpm_refs(body: &[u8], pos: &mut usize) -> (r: Result<PropertyRefs, BacnetError>)
    ensures
        match r {
            Ok(refs) => spec_rpm_refs(body@, *old(pos) as int) == Some((refs@, *final(pos) as int)),
            Err(e) => spec_rpm_refs(body@, *old(pos) as int) is None && e is DecodeError,
        },
{
    let ghost start = *pos as int;
    let mut props: PropertyRefs = Vec::new();
    let blen = body.len();
    while !is_closing(body, *pos, 1)
        invariant
            blen == body@.len(),
            start == *old(pos) as int,
            spec_rpm_refs(body@, start) == (match spec_rpm_refs(body@, *pos as int) {
                Some((rest, end)) => Some((props@ + rest, end)),
                None => None::<(Seq<(PropertyIdentifier, Option<u32>)>, int)>,
            }),
        decreases blen - *pos,
    {
        if *pos >= blen {
            return Err(decode_error("RPM: unexpected end of buffer in property list"));
        }
        let ghost p0 = *pos as int;
        proof { lemma_ctx_unsigned_advances(body@, p0, 0); }
        let pid = match decode_ctx_u32(body, pos, 0) {
            Ok(v) => v,
            Err(e) => return Err(e),
        };
        let prop_id = PropertyIdentifier::from_u32(pid);
        let ghost p2 = *pos as int;
        proof { lemma_ctx_unsigned_advances(body@, p2, 1); }
        let arr_idx = match decode_opt_ctx_u32(body, pos, 1) {
            Ok(v) => v,
            Err(e) => return Err(e),
        };
        proof {
            let tail = spec_rpm_refs(body@, *pos as int);
            assert(spec_rpm_refs(body@, p0) == (match tail {
                Some((rest, end)) => Some((seq![(prop_id, arr_idx)] + rest, end)),
                None => None::<(Seq<(PropertyIdentifier, Option<u32>)>, int)>,
            }));
            if let Some((rest, end)) = tail {
                assert(props@.push((prop_id, arr_idx)) + rest =~= props@ + (seq![(prop_id, arr_idx)] + rest));
            }
        }
        props.push((prop_id, arr_idx));
    }
    assert(props@ + Seq::<(PropertyIdentifier, Option<u32>)>::empty() =~= props@);
    Ok(props)
}

pub proof fn lemma_ctx_object_id_advances(body: Seq<u8>, pos: int, tag: u8)
    ensures
        spec_ctx_object_id(body, pos, tag) matches Some((o, next)) ==> next > pos && next <= body.len(),
{
}

/// Decodes a ReadPropertyMultiple-Request body: object identifiers, each
/// followed by its property references between tags [1].
pub fn decode_rpm(body: &[u8]) -> (r: Result<Vec<(ObjectId, PropertyRefs)>, BacnetError>)
    ensures
        match r {
            Ok(specs) => spec_rpm_from(body@, 0) == Some(rpm_view(specs@)),
            Err(e) => spec_rpm_from(body@, 0) is None && e is DecodeError,
        },
{
    let mut pos: usize = 0;
    let mut specs: Vec<(ObjectId, PropertyRefs)> = Vec::new();
    let blen = body.len();
    while pos < blen
        invariant
            blen == body@.len(),
            spec_rpm_from(body@, 0) == (match spec_rpm_from(body@, pos as int) {
                Some(rest) => Some(rpm_view(specs@) + rest),
                None => None::<Seq<(ObjectId, Seq<(PropertyIdentifier, Option<u32>)>)>>,
            }),
        decreases blen - pos,
    {
        let ghost p0 = pos as int;
        proof { lemma_ctx_object_id_advances(body@, p0, 0); }
        let object_id = decode_ctx_object_id(body, &mut pos, 0)?;
        if !is_opening(body, pos, 1) {
            return Err(decode_error("RPM: expected opening tag [1] for property list"));
        }
        pos = pos + 1;
        let ghost p1 = pos as int;
        proof { lemma_rpm_refs_end(body@, p1); }
        let props = decode_rpm_refs(body, &mut pos)?;
        proof {
            let tail = spec_rpm_from(body@, pos + 1);
            assert(spec_rpm_from(body@, p0) == (match tail {
                Some(rest) => Some(seq![(object_id, props@)] + rest),
                None => None::<Seq<(ObjectId, Seq<(PropertyIdentifier, Option<u32>)>)>>,
            }));
            assert(rpm_view(specs@.push((object_id, props))) =~= rpm_view(specs@).push((object_id, props@)));
            if let Some(rest) = tail {
                assert(rpm_view(specs@).push((object_id, props@)) + rest =~= rpm_view(specs@) + (seq![(object_id, props@)] + rest));
            }
        }
        pos = pos + 1;
        specs.push((object_id, props));
    }
    assert(rpm_view(specs@) + Seq::<(ObjectId, Seq<(PropertyIdentifier, Option<u32>)>)>::empty() =~= rpm_view(specs@));
    Ok(specs)
}

/// Decodes a SubscribeCOV-Request body.
pub fn decode_subscribe_cov(body: &[u8]) -> (r: Result<SubscribeCovRequest, BacnetError>)
    ensures
        match r {
            Ok(req) => spec_subscribe_cov(body@) == Some(req),
            Err(e) => spec_subscribe_cov(body@) is None && e is DecodeError,
        },
{
    let mut pos: usize = 0;
    let subscriber_process_id = decode_ctx_u32(body, &mut pos, 0)?;
    let monitored_object = decode_ctx_object_id(body, &mut pos, 1)?;
    let issue_confirmed = if has_context_tag(body, pos, 2) {
        Some(decode_ctx_bool(body, &mut pos, 2)?)
    } else {
        None
    };
    let lifetime = decode_opt_ctx_u32(body, &mut pos, 3)?;
    Ok(SubscribeCovRequest { subscriber_process_id, monitored_object, issue_confirmed, lifetime })
}

/// Whether `body` decodes as the body of the service with choice `choice`.
pub open spec fn confirmed_body_decodes(choice: u8, body: Seq<u8>) -> bool {
    if choice == 12 {
        spec_read_property(body) is Some
    } else if choice == 14 {
        spec_rpm_from(body, 0) is Some
    } else if choice == 15 {
        spec_write_property(body) is Some
    } else if choice == 5 {
        spec_subscribe_cov(body) is Some
    } else {
        false
    }
}

/// Whether `s` is what the body of service `choice` decodes to.
pub open spec fn confirmed_service_of(s: ConfirmedServiceRequest, choice: u8, body: Seq<u8>) -> bool {
    match s {
        ConfirmedServiceRequest::ReadProperty(rp) => choice == 12 && spec_read_property(body) == Some(rp),
        ConfirmedServiceRequest::ReadPropertyMultiple(specs) => choice == 14
            && spec_rpm_from(body, 0) == Some(rpm_view(specs@)),
        ConfirmedServiceRequest::WriteProperty(wp) => choice == 15 && spec_write_property(body) == Some(
            WritePropertyModel {
                object_id: wp.object_id,
                property_id: wp.property_id,
                array_index: wp.array_index,
                value: wp.value@,
                priority: wp.priority,
            },
        ),
        ConfirmedServiceRequest::SubscribeCov(sc) => choice == 5 && spec_subscribe_cov(body) == Some(sc),
    }
}

/// Whether `buf` decodes as a Confirmed-Request PDU.
pub open spec fn confirmed_decodes(buf: Seq<u8>) -> bool {
    buf.len() >= 4 && confirmed_body_decodes(buf[3], buf.subrange(4, buf.len() as int))
}

/// Whether `req` is what `buf` decodes to: the flags and invoke id read
/// from the header, the service from the body, and the fields the PDU does
/// not carry at their defaults.
pub open spec fn confirmed_request_from(buf: Seq<u8>, req: ConfirmedRequest) -> bool {
    &&& req.segmented_accepted == (buf[0] & 0x08 != 0)
    &&& req.more_follows == (buf[0] & 0x04 != 0)
    &&& req.segmented_response_accepted
    &&& req.max_segments == MaxSegments::Unspecified
    &&& req.max_response == 480
    &&& req.invoke_id == buf[2]
    &&& req.sequence_number is None
    &&& req.proposed_window is None
    &&& confirmed_service_of(req.service, buf[3], buf.subrange(4, buf.len() as int))
}

impl ConfirmedRequest {
    /// Decodes a Confirmed-Request PDU:
    /// `[PDU type] [max-segments/max-response] [invoke id] [service choice] [body]`.
    pub fn decode(buf: &[u8]) -> (r: Result<ConfirmedRequest, BacnetError>)
        ensures
            r is Ok <==> confirmed_decodes(buf@),
            match r {
                Ok(req) => confirmed_request_from(buf@, req),
                Err(e) => e is DecodeError,
            },
    {
        let blen = buf.len();
        if blen < 4 {
            return Err(decode_error("confirmed request too short"));
        }
        let flags = buf[0];
        let invoke_id = buf[2];
        let service_choice = buf[3];
        let body = &buf[4..blen];
        let service = if service_choice == 12 {
            ConfirmedServiceRequest::ReadProperty(decode_read_property(body)?)
        } else if service_choice == 14 {
            ConfirmedServiceRequest::ReadPropertyMultiple(decode_rpm(body)?)
        } else if service_choice == 15 {
            ConfirmedServiceRequest::WriteProperty(decode_write_property(body)?)
        } else if service_choice == 5 {
            ConfirmedServiceRequest::SubscribeCov(decode_subscribe_cov(body)?)
        } else {
            return Err(decode_error("unsupported confirmed service choice"));
        };
        Ok(ConfirmedRequest {
            segmented_accepted: (flags & 0x08) != 0,
            more_follows: (flags & 0x04) != 0,
            segmented_response_accepted: true,
            max_segments: MaxSegments::Unspecified,
            max_response: 480,
            invoke_id,
            sequence_number: None,
            proposed_window: None,
            service,
        })
    }
}

} // verus!
