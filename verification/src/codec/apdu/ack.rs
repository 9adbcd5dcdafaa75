//! ComplexACK and SimpleACK PDUs.
use vstd::prelude::*;
use crate::buffers::{bytes_mut_view, put_u8};
use crate::encoding::{
    app_encodable, app_octets, closing_octet, ctx_object_id_octets, ctx_unsigned_octets, decode_error,
    encode_closing_tag, encode_ctx_object_id, encode_ctx_u32, encode_opening_tag, encode_property_value,
    opening_octet,
};
use crate::types::{
    error_class_number, property_code, BacnetError, ErrorClass, ErrorCode, ObjectId, ObjectType,
    PropertyIdentifier, PropertyValue,
};

verus! {

/// ReadProperty-ACK payload.
#[derive(Debug, Clone, PartialEq)]
pub struct ReadPropertyAck {
    pub object_id: ObjectId,
    pub property_id: PropertyIdentifier,
    pub array_index: Option<u32>,
    pub value: PropertyValue,
}

/// The service carried by a ComplexACK.
#[derive(Debug, Clone, PartialEq)]
pub enum ComplexAckService {
    ReadProperty(ReadPropertyAck),
    ReadPropertyMultiple(Vec<ObjectPropertyResult>),
}

/// The results for one object in a ReadPropertyMultiple-ACK.
#[derive(Debug, Clone, PartialEq)]
pub struct ObjectPropertyResult {
    pub object_id: ObjectId,
    pub property_results: Vec<PropertyResult>,
}

/// The result for one property in a ReadPropertyMultiple-ACK.
#[derive(Debug, PartialEq)]
pub struct PropertyResult {
    pub property_id: PropertyIdentifier,
    pub array_index: Option<u32>,
    pub value: Result<PropertyValue, BacnetError>,
}

impl Clone for PropertyResult {
    fn clone(&self) -> (r: PropertyResult)
        ensures
            r.property_id == self.property_id,
            r.array_index == self.array_index,
            match (r.value, self.value) {
                (Ok(a), Ok(b)) => a@ == b@,
                (Err(_), Err(_)) => true,
                _ => false,
            },
    {
        let value = match &self.value {
            Ok(v) => Ok(v.clone()),
            Err(e) => Err(e.clone()),
        };
        PropertyResult { property_id: self.property_id, array_index: self.array_index, value }
    }
}

/// A BACnet ComplexACK PDU.
#[derive(Debug, Clone, PartialEq)]
pub struct ComplexAck {
    pub invoke_id: u8,
    pub service: ComplexAckService,
}

/// The error code number of `c`.
pub open spec fn error_code_number(c: ErrorCode) -> u32 {
    match c {
        ErrorCode::UnknownObject => 31,
        ErrorCode::UnknownProperty => 32,
        ErrorCode::WriteAccessDenied => 40,
        ErrorCode::ValueOutOfRange => 37,
        ErrorCode::InvalidDataType => 9,
        ErrorCode::ServiceRequestDenied => 29,
        ErrorCode::NotConfigured => 140,
        ErrorCode::Other(v) => v,
    }
}

/// The (error class, error code) numbers reported for an error.
pub open spec fn error_class_code_spec(e: BacnetError) -> (u32, u32) {
    match e {
        BacnetError::UnknownObject => (1, 31),
        BacnetError::UnknownProperty => (2, 32),
        BacnetError::WriteAccessDenied => (2, 40),
        BacnetError::ValueOutOfRange => (2, 37),
        BacnetError::InvalidDataType => (2, 9),
        BacnetError::ServiceError { error_class, error_code } => (
            error_class_number(error_class),
            error_code_number(error_code),
        ),
        _ => (5, 0),
    }
}

/// Maps an error to its (error class, error code) numbers.
pub fn error_class_code(e: &BacnetError) -> (r: (u32, u32))
    ensures
        r == error_class_code_spec(*e),
{
    match e {
        BacnetError::UnknownObject => (1, 31),
        BacnetError::UnknownProperty => (2, 32),
        BacnetError::WriteAccessDenied => (2, 40),
        BacnetError::ValueOutOfRange => (2, 37),
        BacnetError::InvalidDataType => (2, 9),
        BacnetError::ServiceError { error_class, error_code } => {
            let ec: u32 = error_class.to_u32();
            let code: u32 = match error_code {
                ErrorCode::UnknownObject => 31,
                ErrorCode::UnknownProperty => 32,
                ErrorCode::WriteAccessDenied => 40,
                ErrorCode::ValueOutOfRange => 37,
                ErrorCode::InvalidDataType => 9,
                ErrorCode::ServiceRequestDenied => 29,
                ErrorCode::NotConfigured => 140,
                ErrorCode::Other(v) => *v,
            };
            (ec, code)
        },
        _ => (5, 0),
    }
}

/// The octets of an optional context-tagged array index.
pub open spec fn opt_index_octets(tag: u8, idx: Option<u32>) -> Seq<u8> {
    match idx {
        Some(i) => ctx_unsigned_octets(tag, i),
        None => Seq::<u8>::empty(),
    }
}

/// The body of a ReadProperty-ACK: object [0], property [1], optional index
/// [2], then the value between tags [3].
pub open spec fn rp_ack_octets(a: ReadPropertyAck) -> Seq<u8> {
    ctx_object_id_octets(0, a.object_id) + ctx_unsigned_octets(1, property_code(a.property_id))
        + opt_index_octets(2, a.array_index) + seq![opening_octet(3)] + app_octets(a.value@) + seq![closing_octet(3)]
}

/// The octets of one property result: property [2], optional index [3],
/// then the value between tags [4] or the error class and code between
/// tags [5].
pub open spec fn prop_result_octets(p: PropertyResult) -> Seq<u8> {
    ctx_unsigned_octets(2, property_code(p.property_id)) + opt_index_octets(3, p.array_index) + match p.value {
        Ok(v) => seq![opening_octet(4)] + app_octets(v@) + seq![closing_octet(4)],
        Err(e) => seq![opening_octet(5)] + ctx_unsigned_octets(0, error_class_code_spec(e).0)
            + ctx_unsigned_octets(1, error_class_code_spec(e).1) + seq![closing_octet(5)],
    }
}

/// The octets of property results, one after another.
pub open spec fn prop_results_octets(s: Seq<PropertyResult>) -> Seq<u8>
    decreases s.len(),
{
    if s.len() == 0 {
        Seq::<u8>::empty()
    } else {
        prop_results_octets(s.drop_last()) + prop_result_octets(s.last())
    }
}

/// The octets of the results of one object: object [0], then its property
/// results between tags [1].
pub open spec fn object_result_octets(o: ObjectPropertyResult) -> Seq<u8> {
    ctx_object_id_octets(0, o.object_id) + seq![opening_octet(1)] + prop_results_octets(o.property_results@)
        + seq![closing_octet(1)]
}

/// The body of a ReadPropertyMultiple-ACK.
pub open spec fn rpm_ack_octets(s: Seq<ObjectPropertyResult>) -> Seq<u8>
    decreases s.len(),
{
    if s.len() == 0 {
        Seq::<u8>::empty()
    } else {
        rpm_ack_octets(s.drop_last()) + object_result_octets(s.last())
    }
}

/// Whether a property result's value can be encoded.
pub open spec fn result_encodable(p: PropertyResult) -> bool {
    p.value matches Ok(v) ==> app_encodable(v@)
}

/// Whether every value of an RPM result list can be encoded.
pub open spec fn rpm_results_encodable(s: Seq<ObjectPropertyResult>) -> bool {
    forall|i: int, j: int|
        0 <= i < s.len() && 0 <= j < s[i].property_results@.len() ==> #[trigger] result_encodable(
            s[i].property_results@[j],
        )
}

/// Whether the values of an ACK can be encoded.
pub open spec fn complex_ack_encodable(a: ComplexAck) -> bool {
    match a.service {
        ComplexAckService::ReadProperty(ack) => app_encodable(ack.value@),
        ComplexAckService::ReadPropertyMultiple(r) => rpm_results_encodable(r@),
    }
}

/// The octets of a ComplexACK PDU.
pub open spec fn complex_ack_octets(a: ComplexAck) -> Seq<u8> {
    match a.service {
        ComplexAckService::ReadProperty(ack) => seq![0x30u8, a.invoke_id, 12u8] + rp_ack_octets(ack),
        ComplexAckService::ReadPropertyMultiple(r) => seq![0x30u8, a.invoke_id, 14u8] + rpm_ack_octets(r@),
    }
}

fn encode_opt_index(buf: &mut bytes::BytesMut, tag: u8, idx: Option<u32>)
    requires
        tag <= 14,
    ensures
        bytes_mut_view(*final(buf)) == bytes_mut_view(*old(buf)) + opt_index_octets(tag, idx),
{
    match idx {
        Some(i) => encode_ctx_u32(buf, tag, i),
        None => {
            assert(bytes_mut_view(*buf) =~= bytes_mut_view(*old(buf)) + opt_index_octets(tag, idx));
        },
    }
}

fn encode_read_property_ack(buf: &mut bytes::BytesMut, ack: &ReadPropertyAck)
    requires
        app_encodable(ack.value@),
    ensures
        bytes_mut_view(*final(buf)) == bytes_mut_view(*old(buf)) + rp_ack_octets(*ack),
{
    encode_ctx_object_id(buf, 0, ack.object_id);
    encode_ctx_u32(buf, 1, ack.property_id.to_u32());
    encode_opt_index(buf, 2, ack.array_index);
    encode_opening_tag(buf, 3);
    encode_property_value(buf, &ack.value);
    encode_closing_tag(buf, 3);
    assert(bytes_mut_view(*buf) =~= bytes_mut_view(*old(buf)) + rp_ack_octets(*ack));
}

fn encode_prop_result(buf: &mut bytes::BytesMut, prop: &PropertyResult)
    requires
        result_encodable(*prop),
    ensures
        bytes_mut_view(*final(buf)) == bytes_mut_view(*old(buf)) + prop_result_octets(*prop),
{
    encode_ctx_u32(buf, 2, prop.property_id.to_u32());
    encode_opt_index(buf, 3, prop.array_index);
    match &prop.value {
        Ok(pv) => {
            encode_opening_tag(buf, 4);
            encode_property_value(buf, pv);
            encode_closing_tag(buf, 4);
        },
        Err(e) => {
            encode_opening_tag(buf, 5);
            let (ec, code) = error_class_code(e);
            encode_ctx_u32(buf, 0, ec);
            encode_ctx_u32(buf, 1, code);
            encode_closing_tag(buf, 5);
        },
    }
    assert(bytes_mut_view(*buf) =~= bytes_mut_view(*old(buf)) + prop_result_octets(*prop));
}

fn encode_object_result(buf: &mut bytes::BytesMut, obj: &ObjectPropertyResult)
    requires
        forall|j: int| 0 <= j < obj.property_results@.len() ==> #[trigger] result_encodable(obj.property_results@[j]),
    ensures
        bytes_mut_view(*final(buf)) == bytes_mut_view(*old(buf)) + object_result_octets(*obj),
{
    encode_ctx_object_id(buf, 0, obj.object_id);
    encode_opening_tag(buf, 1);
    let ghost start = bytes_mut_view(*buf);
    let props = &obj.property_results;
    let n = props.len();
    let mut i: usize = 0;
    while i < n
        invariant
            n == props@.len(),
            i <= n,
            props == obj.property_results,
            forall|j: int| 0 <= j < props@.len() ==> #[trigger] result_encodable(props@[j]),
            bytes_mut_view(*buf) == start + prop_results_octets(props@.take(i as int)),
        decreases n - i,
    {
        assert(props@.take(i + 1).drop_last() =~= props@.take(i as int));
        encode_prop_result(buf, &props[i]);
        i = i + 1;
        assert(bytes_mut_view(*buf) =~= start + prop_results_octets(props@.take(i as int)));
    }
    assert(props@.take(n as int) =~= props@);
    encode_closing_tag(buf, 1);
    assert(bytes_mut_view(*buf) =~= bytes_mut_view(*old(buf)) + object_result_octets(*obj));
}

/// Appends the body of a ReadPropertyMultiple-ACK.
pub fn encode_rpm_ack(buf: &mut bytes::BytesMut, results: &[ObjectPropertyResult])
    requires
        rpm_results_encodable(results@),
    ensures
        bytes_mut_view(*final(buf)) == bytes_mut_view(*old(buf)) + rpm_ack_octets(results@),
{
    let n = results.len();
    let mut i: usize = 0;
    while i < n
        invariant
            n == results@.len(),
            i <= n,
            rpm_results_encodable(results@),
            bytes_mut_view(*buf) == bytes_mut_view(*old(buf)) + rpm_ack_octets(results@.take(i as int)),
        decreases n - i,
    {
        assert(results@.take(i + 1).drop_last() =~= results@.take(i as int));
        let obj = &results[i];
        assert forall|j: int| 0 <= j < obj.property_results@.len() implies #[trigger] result_encodable(obj.property_results@[j]) by {
            assert(result_encodable(results@[i as int].property_results@[j]));
        }
        encode_object_result(buf, obj);
        i = i + 1;
        assert(bytes_mut_view(*buf) =~= bytes_mut_view(*old(buf)) + rpm_ack_octets(results@.take(i as int)));
    }
    assert(results@.take(n as int) =~= results@);
}

impl ComplexAck {
    /// Appends the ComplexACK PDU: type, invoke id, service choice, then the
    /// service's body.
    pub fn encode(&self, buf: &mut bytes::BytesMut)
        requires
            complex_ack_encodable(*self),
        ensures
            bytes_mut_view(*final(buf)) == bytes_mut_view(*old(buf)) + complex_ack_octets(*self),
    {
        put_u8(buf, 0x30);
        put_u8(buf, self.invoke_id);
        match &self.service {
            ComplexAckService::ReadProperty(ack) => {
                put_u8(buf, 12);
                encode_read_property_ack(buf, ack);
            },
            ComplexAckService::ReadPropertyMultiple(results) => {
                put_u8(buf, 14);
                encode_rpm_ack(buf, results.as_slice());
            },
        }
        assert(bytes_mut_view(*buf) =~= bytes_mut_view(*old(buf)) + complex_ack_octets(*self));
    }

    /// Reads the header of a ComplexACK: only the invoke id is taken; the
    /// service is reported as a ReadProperty-ACK of the Null value for
    /// object Device 0, property Object_Identifier.
    pub fn decode(buf: &[u8]) -> (r: Result<ComplexAck, BacnetError>)
        ensures
            r is Ok <==> (buf@.len() >= 3 && buf@[0] / 16 == 3),
            r matches Ok(a) ==> a.invoke_id == buf@[1] && a.service == ComplexAckService::ReadProperty(
                ReadPropertyAck {
                    object_id: ObjectId { object_type: ObjectType::Device, instance: 0 },
                    property_id: PropertyIdentifier::ObjectIdentifier,
                    array_index: None,
                    value: PropertyValue::Null,
                },
            ),
            r matches Err(e) ==> e is DecodeError,
    {
        if buf.len() < 3 {
            return Err(decode_error("complex ACK too short"));
        }
        let b0 = buf[0];
        assert((b0 & 0xF0 == 0x30) == (b0 / 16 == 3)) by (bit_vector);
        if (b0 & 0xF0) != 0x30 {
            return Err(decode_error("expected ComplexACK"));
        }
        Ok(ComplexAck {
            invoke_id: buf[1],
            service: ComplexAckService::ReadProperty(ReadPropertyAck {
                object_id: ObjectId { object_type: ObjectType::Device, instance: 0 },
                property_id: PropertyIdentifier::ObjectIdentifier,
                array_index: None,
                value: PropertyValue::Null,
            }),
        })
    }
}

/// A BACnet SimpleACK PDU.
#[derive(Debug, Clone, Copy, PartialEq, Eq)]
pub struct SimpleAck {
    pub invoke_id: u8,
    pub service_choice: u8,
}

impl SimpleAck {
    /// Appends the SimpleACK PDU: type, invoke id, service choice.
    pub fn encode(&self, buf: &mut bytes::BytesMut)
        ensures
            bytes_mut_view(*final(buf)) == bytes_mut_view(*old(buf)) + seq![0x20u8, self.invoke_id, self.service_choice],
    {
        put_u8(buf, 0x20);
        put_u8(buf, self.invoke_id);
        put_u8(buf, self.service_choice);
        assert(bytes_mut_view(*buf) =~= bytes_mut_view(*old(buf)) + seq![0x20u8, self.invoke_id, self.service_choice]);
    }
}

} // verus!
