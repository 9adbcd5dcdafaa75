//! The service handlers of a simulated device: Who-Is, ReadProperty,
//! ReadPropertyMultiple and WriteProperty.
use vstd::prelude::*;
use crate::codec::apdu::ack::{ComplexAck, ComplexAckService, ObjectPropertyResult, PropertyResult, ReadPropertyAck};
use crate::codec::apdu::confirmed::{PropertyRefs, ReadPropertyRequest, Segmentation, WritePropertyRequest};
use crate::codec::apdu::unconfirmed::{IAmRequest, UnconfirmedRequest};
use crate::object::property::{props_view, BacnetObject};
use crate::object::store::{ObjectStore, StoredObject};
use crate::types::{BacnetError, DeviceId, ObjectId, PValue, PropertyIdentifier, PropertyValue};

verus! {

/// Whether device `id` answers a Who-Is with limits `low` and `high`: a
/// range applies only when both limits are given.
pub open spec fn who_is_matches(low: Option<u32>, high: Option<u32>, id: u32) -> bool {
    match (low, high) {
        (Some(lo), Some(hi)) => lo <= id <= hi,
        _ => true,
    }
}

/// A Who-Is with both limits reaches exactly the devices whose instance lies
/// between them (both included): one above the high limit or below the low
/// limit stays silent.  Narrowing the range never wakes a device that a wider
/// range leaves silent, and without both limits every device answers.
pub proof fn lemma_who_is_range(lo: u32, hi: u32, id: u32, lo2: u32, hi2: u32)
    ensures
        who_is_matches(Some(lo), Some(hi), id) ==> lo <= id && id <= hi,
        lo <= id && id <= hi ==> who_is_matches(Some(lo), Some(hi), id),
        id > hi ==> !who_is_matches(Some(lo), Some(hi), id),
        id < lo ==> !who_is_matches(Some(lo), Some(hi), id),
        lo <= lo2 && hi2 <= hi && who_is_matches(Some(lo2), Some(hi2), id) ==> who_is_matches(Some(lo), Some(hi), id),
        who_is_matches(None, None, id),
        who_is_matches(Some(lo), None, id),
        who_is_matches(None, Some(hi), id),
{
}

/// The I-Am of `device_id` when it answers a Who-Is with these limits.
pub fn handle_who_is(low: Option<u32>, high: Option<u32>, device_id: DeviceId, max_apdu: u16, vendor_id: u16) -> (r: Option<UnconfirmedRequest>)
    ensures
        who_is_matches(low, high, device_id.0) ==> r == Some(UnconfirmedRequest::IAm(IAmRequest {
            device_instance: device_id.0,
            max_apdu_length_accepted: max_apdu,
            segmentation_supported: Segmentation::NoSegmentation,
            vendor_id,
        })),
        !who_is_matches(low, high, device_id.0) ==> r is None,
{
    let id = device_id.0;
    let in_range = match (low, high) {
        (Some(lo), Some(hi)) => id >= lo && id <= hi,
        _ => true,
    };
    if in_range {
        Some(UnconfirmedRequest::IAm(IAmRequest {
            device_instance: id,
            max_apdu_length_accepted: max_apdu,
            segmentation_supported: Segmentation::NoSegmentation,
            vendor_id,
        }))
    } else {
        None
    }
}

/// Whether `r` answers the ReadProperty request `req` to device
/// `device_id`.
pub open spec fn read_property_outcome(store: ObjectStore, req: ReadPropertyRequest, device_id: DeviceId, r: Result<ComplexAck, BacnetError>) -> bool {
    match store.object(device_id, req.object_id) {
        None => r == Err::<ComplexAck, BacnetError>(BacnetError::UnknownObject),
        Some(o) => match r {
            Ok(ack) => ack.invoke_id == 0 && (ack.service matches ComplexAckService::ReadProperty(a) && a.object_id
                == req.object_id && a.property_id == req.property_id && a.array_index == req.array_index
                && o.read_spec(req.property_id, req.array_index, Ok(a.value))),
            Err(e) => o.read_spec(req.property_id, req.array_index, Err(e)),
        },
    }
}

/// Reads one property for a ReadProperty request.  The ACK carries invoke
/// id 0.  `UnknownObject` when the device holds no such object; otherwise
/// the object's answer.
pub fn handle_read_property(req: ReadPropertyRequest, store: &ObjectStore, device_id: DeviceId) -> (r: Result<ComplexAck, BacnetError>)
    requires
        store.wf(),
    ensures
        read_property_outcome(*store, req, device_id, r),
{
    let obj = match store.get(device_id, req.object_id) {
        Some(o) => o,
        None => {
            return Err(BacnetError::UnknownObject);
        },
    };
    let value = obj.read_property(req.property_id, req.array_index)?;
    Ok(ComplexAck {
        invoke_id: 0,
        service: ComplexAckService::ReadProperty(ReadPropertyAck {
            object_id: req.object_id,
            property_id: req.property_id,
            array_index: req.array_index,
            value,
        }),
    })
}

/// Whether a property reference list asks for every property.
pub open spec fn asks_all(props: Seq<(PropertyIdentifier, Option<u32>)>) -> bool {
    exists|j: int| 0 <= j < props.len() && (#[trigger] props[j]).0 == PropertyIdentifier::All
}

/// The (property, value) pairs of results that all succeeded without an
/// array index.
pub open spec fn all_results_view(s: Seq<PropertyResult>) -> Seq<(PropertyIdentifier, PValue)> {
    s.map_values(|p: PropertyResult| (p.property_id, p.value->Ok_0@))
}

/// Whether `res` is the result of one object of a ReadPropertyMultiple
/// request for the properties `props` of object `oid`, given what the
/// store holds there.
pub open spec fn rpm_object_result(held: Option<StoredObject>, oid: ObjectId, props: Seq<(PropertyIdentifier, Option<u32>)>, res: ObjectPropertyResult) -> bool {
    let pr = res.property_results@;
    &&& res.object_id == oid
    &&& match held {
        None => pr.len() == props.len() && forall|j: int| 0 <= j < props.len() ==> {
            &&& (#[trigger] pr[j]).property_id == props[j].0
            &&& pr[j].array_index == props[j].1
            &&& pr[j].value == Err::<PropertyValue, BacnetError>(BacnetError::UnknownObject)
        },
        Some(o) => if asks_all(props) {
            &&& forall|j: int| 0 <= j < pr.len() ==> (#[trigger] pr[j]).array_index is None && pr[j].value is Ok
            &&& o.lists(all_results_view(pr))
        } else {
            pr.len() == props.len() && forall|j: int| 0 <= j < props.len() ==> {
                &&& (#[trigger] pr[j]).property_id == props[j].0
                &&& pr[j].array_index == props[j].1
                &&& o.read_spec(props[j].0, props[j].1, pr[j].value)
            }
        },
    }
}

fn has_all(props: &PropertyRefs) -> (r: bool)
    ensures
        r == asks_all(props@),
{
    let mut i: usize = 0;
    while i < props.len()
        invariant
            i <= props@.len(),
            forall|j: int| 0 <= j < i ==> (#[trigger] props@[j]).0 != PropertyIdentifier::All,
        decreases props.len() - i,
    {
        if props[i].0 == PropertyIdentifier::All {
            return true;
        }
        i = i + 1;
    }
    false
}

fn object_results(store: &ObjectStore, device_id: DeviceId, object_id: ObjectId, props: &PropertyRefs) -> (r: ObjectPropertyResult)
    requires
        store.wf(),
    ensures
        rpm_object_result(store.object(device_id, object_id), object_id, props@, r),
{
    let mut property_results: Vec<PropertyResult> = Vec::new();
    match store.get(device_id, object_id) {
        None => {
            let mut j: usize = 0;
            while j < props.len()
                invariant
                    j <= props@.len(),
                    property_results@.len() == j,
                    forall|k: int| 0 <= k < j ==> {
                        &&& (#[trigger] property_results@[k]).property_id == props@[k].0
                        &&& property_results@[k].array_index == props@[k].1
                        &&& property_results@[k].value == Err::<PropertyValue, BacnetError>(BacnetError::UnknownObject)
                    },
                decreases props.len() - j,
            {
                let (prop_id, array_index) = props[j];
                property_results.push(PropertyResult { property_id: prop_id, array_index, value: Err(BacnetError::UnknownObject) });
                j = j + 1;
            }
        },
        Some(obj) => {
            if has_all(props) {
                let all = obj.all_properties();
                let n = all.len();
                let mut j: usize = 0;
                while j < n
                    invariant
                        n == all@.len(),
                        j <= n,
                        obj.lists(props_view(all@)),
                        property_results@.len() == j,
                        forall|k: int| 0 <= k < j ==> (#[trigger] property_results@[k]).array_index is None
                            && property_results@[k].value is Ok,
                        all_results_view(property_results@) =~= props_view(all@).take(j as int),
                    decreases n - j,
                {
                    let (pid, v) = (all[j].0, all[j].1.clone());
                    property_results.push(PropertyResult { property_id: pid, array_index: None, value: Ok(v) });
                    j = j + 1;
                }
                assert(props_view(all@).take(n as int) =~= props_view(all@));
            } else {
                let mut j: usize = 0;
                while j < props.len()
                    invariant
                        j <= props@.len(),
                        property_results@.len() == j,
                        forall|k: int| 0 <= k < j ==> {
                            &&& (#[trigger] property_results@[k]).property_id == props@[k].0
                            &&& property_results@[k].array_index == props@[k].1
                            &&& obj.read_spec(props@[k].0, props@[k].1, property_results@[k].value)
                        },
                    decreases props.len() - j,
                {
                    let (prop_id, array_index) = props[j];
                    let value = obj.read_property(prop_id, array_index);
                    property_results.push(PropertyResult { property_id: prop_id, array_index, value });
                    j = j + 1;
                }
            }
        },
    }
    ObjectPropertyResult { object_id, property_results }
}

/// Whether `r` answers a ReadPropertyMultiple request for `specs` to
/// device `device_id`.
pub open spec fn rpm_outcome(store: ObjectStore, specs: Seq<(ObjectId, PropertyRefs)>, device_id: DeviceId, invoke_id: u8, r: ComplexAck) -> bool {
    &&& r.invoke_id == invoke_id
    &&& r.service matches ComplexAckService::ReadPropertyMultiple(results) && results@.len() == specs.len()
        && forall|i: int| 0 <= i < specs.len() ==> #[trigger] rpm_object_result(
            store.object(device_id, specs[i].0),
            specs[i].0,
            specs[i].1@,
            results@[i],
        )
}

/// Answers a ReadPropertyMultiple request: for each object in order, the
/// result of each property asked for (every property when `ALL` is among
/// them), with `UnknownObject` for each property of an object the device
/// does not hold.
pub fn handle_read_property_multiple(
    specs: Vec<(ObjectId, PropertyRefs)>,
    store: &ObjectStore,
    device_id: DeviceId,
    invoke_id: u8,
) -> (r: ComplexAck)
    requires
        store.wf(),
    ensures
        rpm_outcome(*store, specs@, device_id, invoke_id, r),
{
    let mut results: Vec<ObjectPropertyResult> = Vec::new();
    let n = specs.len();
    let mut i: usize = 0;
    while i < n
        invariant
            n == specs@.len(),
            i <= n,
            store.wf(),
            results@.len() == i,
            forall|k: int| 0 <= k < i ==> #[trigger] rpm_object_result(
                store.object(device_id, specs@[k].0),
                specs@[k].0,
                specs@[k].1@,
                results@[k],
            ),
        decreases n - i,
    {
        let res = object_results(store, device_id, specs[i].0, &specs[i].1);
        results.push(res);
        i = i + 1;
    }
    ComplexAck { invoke_id, service: ComplexAckService::ReadPropertyMultiple(results) }
}

/// Whether `new` and `r` are what the WriteProperty request `req` to
/// device `device_id` leaves.
pub open spec fn write_property_outcome(old: ObjectStore, new: ObjectStore, req: WritePropertyRequest, device_id: DeviceId, r: Result<(), BacnetError>) -> bool {
    &&& new.wf()
    &&& match old.object(device_id, req.object_id) {
        None => r == Err::<(), BacnetError>(BacnetError::UnknownObject) && new.view() == old.view(),
        Some(o) => exists|n: StoredObject| {
            &&& o.write_spec(req.property_id, req.value, req.priority, false, n, r)
            &&& new.view() == old.view().insert(crate::object::store::store_key(device_id, req.object_id), n)
        },
    }
}

/// Applies a WriteProperty request.  `UnknownObject` when the device holds
/// no such object; otherwise the object's answer.
pub fn handle_write_property(req: WritePropertyRequest, store: &mut ObjectStore, device_id: DeviceId) -> (r: Result<(), BacnetError>)
    requires
        old(store).wf(),
    ensures
        write_property_outcome(*old(store), *final(store), req, device_id, r),
{
    store.write_property(device_id, req.object_id, req.property_id, req.array_index, req.value, req.priority, false)
}

/// Through the services, a read gives back what a write wrote: once a
/// WriteProperty request sets the present value of an Analog Value, a
/// ReadProperty request for it succeeds with the value written.
pub proof fn lemma_service_read_after_write(
    s0: ObjectStore,
    s1: ObjectStore,
    device_id: DeviceId,
    object_id: ObjectId,
    bits: u32,
    priority: Option<u8>,
    wr: Result<(), BacnetError>,
    rr: Result<ComplexAck, BacnetError>,
)
    requires
        s0.object(device_id, object_id) matches Some(o) && o is AnalogValue,
        write_property_outcome(
            s0,
            s1,
            WritePropertyRequest {
                object_id,
                property_id: PropertyIdentifier::PresentValue,
                array_index: None,
                value: PropertyValue::Real(bits),
                priority,
            },
            device_id,
            wr,
        ),
        read_property_outcome(
            s1,
            ReadPropertyRequest { object_id, property_id: PropertyIdentifier::PresentValue, array_index: None },
            device_id,
            rr,
        ),
    ensures
        wr is Ok,
        rr matches Ok(ack) && ack.service matches ComplexAckService::ReadProperty(a) && a.object_id == object_id
            && a.value@ == PValue::Real(bits),
{
    let o = s0.object(device_id, object_id).unwrap();
    let n = choose|n: StoredObject| {
        &&& o.write_spec(PropertyIdentifier::PresentValue, PropertyValue::Real(bits), priority, false, n, wr)
        &&& s1.view() == s0.view().insert(crate::object::store::store_key(device_id, object_id), n)
    };
    assert(s1.object(device_id, object_id) == Some(n));
    match rr {
        Ok(ack) => {
            let a = ack.service->ReadProperty_0;
            crate::object::store::lemma_analog_value_read_after_write(o, bits, priority, false, n, wr, Ok(a.value));
        },
        Err(e) => {
            crate::object::store::lemma_analog_value_read_after_write(o, bits, priority, false, n, wr, Err(e));
        },
    }
}

} // verus!
