//! The APDU dispatcher: what a simulated device answers to each inbound
//! frame.  The receive loop that feeds it frames and sends its answers runs
//! outside.
use vstd::prelude::*;
use crate::buffers::{bytes_as_slice, bytes_mut_as_slice, bytes_mut_new, bytes_mut_view, bytes_view};
use crate::codec::apdu::ack::{complex_ack_encodable, complex_ack_octets, error_class_code_spec, error_code_number, ComplexAck, ComplexAckService, SimpleAck};
use crate::codec::apdu::confirmed::{
    confirmed_decodes, confirmed_request_from, ConfirmedRequest, ConfirmedServiceChoice, ConfirmedServiceRequest,
};
use crate::codec::apdu::error::{error_pdu_octets, ErrorPdu};
use crate::codec::apdu::unconfirmed::{iam_octets, spec_unconfirmed_decode, IAmRequest, UnconfirmedRequest};
use crate::codec::apdu::confirmed::Segmentation;
use crate::codec::npdu::{npdu_lengths_fit, npdu_local_octets, spec_npdu_decode, Npdu};
use crate::encoding::value_encodable;
use crate::object::store::ObjectStore;
use crate::stack::services::{
    handle_read_property, handle_read_property_multiple, handle_who_is, read_property_outcome, rpm_outcome,
    who_is_matches, write_property_outcome, handle_write_property,
};
use crate::transport::{frames_view, Destination, InboundFrame, OutboundFrame};
use crate::text::{decimal, decimal_text};
use crate::types::{error_class_number, BacnetError, DeviceId, ErrorClass, ErrorCode, NetworkAddress};

verus! {

/// Static metadata of one simulated device.
#[derive(Debug, Clone)]
pub struct DeviceInfo {
    pub device_id: DeviceId,
    pub max_apdu: u16,
    pub vendor_id: u16,
    pub vendor_name: String,
    pub model_name: String,
    pub firmware_revision: String,
    pub description: String,
}

/// The description of a simulated device: "Simulated device " and its
/// identifier.
fn device_description(device_id: u32) -> (r: String)
    ensures
        r@ == seq!['S', 'i', 'm', 'u', 'l', 'a', 't', 'e', 'd', ' ', 'd', 'e', 'v', 'i', 'c', 'e', ' ']
            + decimal(device_id as nat),
{
    let mut s = String::from_str("Simulated device ");
    let digits = decimal_text(device_id);
    s.append(digits.as_str());
    proof {
        reveal_strlit("Simulated device ");
    }
    assert(s@ =~= seq!['S', 'i', 'm', 'u', 'l', 'a', 't', 'e', 'd', ' ', 'd', 'e', 'v', 'i', 'c', 'e', ' ']
        + decimal(device_id as nat));
    s
}

impl DeviceInfo {
    /// The metadata of a simulated device: 1476-octet APDUs, vendor 999.
    pub fn new(device_id: u32) -> (r: DeviceInfo)
        ensures
            r.device_id == DeviceId(device_id),
            r.max_apdu == 1476,
            r.vendor_id == 999,
            r.vendor_name@ == "bacnet-sim"@,
            r.model_name@ == "bacnet-sim"@,
            r.firmware_revision@ == "1.0.0"@,
            r.description@ == seq!['S', 'i', 'm', 'u', 'l', 'a', 't', 'e', 'd', ' ', 'd', 'e', 'v', 'i', 'c', 'e', ' ']
                + decimal(device_id as nat),
    {
        DeviceInfo {
            device_id: DeviceId(device_id),
            max_apdu: 1476,
            vendor_id: 999,
            vendor_name: String::from_str("bacnet-sim"),
            model_name: String::from_str("bacnet-sim"),
            firmware_revision: String::from_str("1.0.0"),
            description: device_description(device_id),
        }
    }
}

/// Routes inbound frames to the service handlers.  Devices are kept in
/// order of registration, each identifier once.
pub struct ApduDispatcher {
    devices: Vec<DeviceInfo>,
}

/// The (class, code) an error is reported with in an Error PDU.
pub open spec fn error_pdu_class_code(e: BacnetError) -> (ErrorClass, ErrorCode) {
    match e {
        BacnetError::UnknownObject => (ErrorClass::Object, ErrorCode::UnknownObject),
        BacnetError::UnknownProperty => (ErrorClass::Property, ErrorCode::UnknownProperty),
        BacnetError::WriteAccessDenied => (ErrorClass::Property, ErrorCode::WriteAccessDenied),
        BacnetError::ValueOutOfRange => (ErrorClass::Property, ErrorCode::ValueOutOfRange),
        BacnetError::InvalidDataType => (ErrorClass::Property, ErrorCode::InvalidDataType),
        BacnetError::ServiceError { error_class, error_code } => (error_class, error_code),
        _ => (ErrorClass::Services, ErrorCode::Other(0)),
    }
}

/// An Error PDU reports each error with the class and code that the same
/// error has in a ReadPropertyMultiple result; each of the named errors with
/// the error code of the same name (unknown-object in class object, the
/// others in class property), a service error with its own class and code.
pub proof fn lemma_error_pdu_names_error(e: BacnetError)
    ensures
        error_class_number(error_pdu_class_code(e).0) == error_class_code_spec(e).0,
        error_code_number(error_pdu_class_code(e).1) == error_class_code_spec(e).1,
        e == BacnetError::UnknownObject ==> error_pdu_class_code(e) == (ErrorClass::Object, ErrorCode::UnknownObject),
        e == BacnetError::UnknownProperty ==> error_pdu_class_code(e) == (ErrorClass::Property, ErrorCode::UnknownProperty),
        e == BacnetError::WriteAccessDenied ==> error_pdu_class_code(e) == (
            ErrorClass::Property,
            ErrorCode::WriteAccessDenied,
        ),
        e == BacnetError::ValueOutOfRange ==> error_pdu_class_code(e) == (ErrorClass::Property, ErrorCode::ValueOutOfRange),
        e == BacnetError::InvalidDataType ==> error_pdu_class_code(e) == (ErrorClass::Property, ErrorCode::InvalidDataType),
        e matches BacnetError::ServiceError { error_class, error_code } ==> error_pdu_class_code(e) == (
            error_class,
            error_code,
        ),
{
}

/// The Error PDU octets for error `e` of service `service_choice`.
pub open spec fn error_response(invoke_id: u8, service_choice: u8, e: BacnetError) -> Seq<u8> {
    error_pdu_octets(ErrorPdu {
        invoke_id,
        service: service_choice,
        error_class: error_pdu_class_code(e).0,
        error_code: error_pdu_class_code(e).1,
    })
}

/// Encodes the Error PDU answering service `service_choice` with error `e`.
pub fn encode_error_pdu(invoke_id: u8, service_choice: u8, e: &BacnetError) -> (r: bytes::BytesMut)
    ensures
        bytes_mut_view(r) == error_response(invoke_id, service_choice, *e),
{
    let (class, code) = match e {
        BacnetError::UnknownObject => (ErrorClass::Object, ErrorCode::UnknownObject),
        BacnetError::UnknownProperty => (ErrorClass::Property, ErrorCode::UnknownProperty),
        BacnetError::WriteAccessDenied => (ErrorClass::Property, ErrorCode::WriteAccessDenied),
        BacnetError::ValueOutOfRange => (ErrorClass::Property, ErrorCode::ValueOutOfRange),
        BacnetError::InvalidDataType => (ErrorClass::Property, ErrorCode::InvalidDataType),
        BacnetError::ServiceError { error_class, error_code } => (*error_class, *error_code),
        _ => (ErrorClass::Services, ErrorCode::Other(0)),
    };
    let mut buf = bytes_mut_new();
    ErrorPdu { invoke_id, service: service_choice, error_class: class, error_code: code }.encode(&mut buf);
    assert(bytes_mut_view(buf) =~= error_response(invoke_id, service_choice, *e));
    buf
}

/// The service choice named by `v`.  Every value maps to ReadProperty.
pub fn u8_to_service_choice(v: u8) -> (r: ConfirmedServiceChoice)
    ensures
        r == ConfirmedServiceChoice::ReadProperty,
{
    ConfirmedServiceChoice::ReadProperty
}

/// The octets of a SimpleACK.
pub open spec fn simple_ack_octets(invoke_id: u8, service_choice: u8) -> Seq<u8> {
    seq![0x20u8, invoke_id, service_choice]
}

/// The I-Am broadcasts that devices `ds` answer a Who-Is with, in order.
pub open spec fn iam_frames(ds: Seq<DeviceInfo>, low: Option<u32>, high: Option<u32>) -> Seq<(Destination, Seq<u8>)>
    decreases ds.len(),
{
    if ds.len() == 0 {
        Seq::empty()
    } else {
        let d = ds.last();
        iam_frames(ds.drop_last(), low, high) + if who_is_matches(low, high, d.device_id.0) {
            seq![(Destination::Broadcast { network_number: 0 }, npdu_local_octets(false, iam_octets(IAmRequest {
                device_instance: d.device_id.0,
                max_apdu_length_accepted: d.max_apdu,
                segmentation_supported: Segmentation::NoSegmentation,
                vendor_id: d.vendor_id,
            })))]
        } else {
            Seq::empty()
        }
    }
}

/// A single unicast answer to `src` holding `apdu`.
pub open spec fn unicast_answer(src: NetworkAddress, apdu: Seq<u8>) -> Seq<(Destination, Seq<u8>)> {
    seq![(Destination::Unicast(src), npdu_local_octets(false, apdu))]
}

fn no_answer() -> (r: Vec<OutboundFrame>)
    ensures
        frames_view(r@) == Seq::<(Destination, Seq<u8>)>::empty(),
{
    let r: Vec<OutboundFrame> = Vec::new();
    assert(frames_view(r@) =~= Seq::<(Destination, Seq<u8>)>::empty());
    r
}

fn answer(src: NetworkAddress, apdu: &bytes::BytesMut) -> (r: Vec<OutboundFrame>)
    ensures
        frames_view(r@) == unicast_answer(src, bytes_mut_view(*apdu)),
{
    let npdu = Npdu::encode_local(false, bytes_mut_as_slice(apdu));
    let r = vec![OutboundFrame { dst: Destination::Unicast(src), npdu }];
    assert(frames_view(r@) =~= unicast_answer(src, bytes_mut_view(*apdu)));
    r
}

fn ack_encodable(ack: &ComplexAck) -> (r: bool)
    ensures
        r == complex_ack_encodable(*ack),
{
    match &ack.service {
        ComplexAckService::ReadProperty(a) => value_encodable(&a.value),
        ComplexAckService::ReadPropertyMultiple(results) => {
            let mut i: usize = 0;
            while i < results.len()
                invariant
                    ack.service == ComplexAckService::ReadPropertyMultiple(*results),
                    i <= results@.len(),
                    forall|k: int, j: int| 0 <= k < i && 0 <= j < results@[k].property_results@.len()
                        ==> #[trigger] crate::codec::apdu::ack::result_encodable(results@[k].property_results@[j]),
                decreases results.len() - i,
            {
                let prs = &results[i].property_results;
                let mut j: usize = 0;
                while j < prs.len()
                    invariant
                        ack.service == ComplexAckService::ReadPropertyMultiple(*results),
                        i < results@.len(),
                        prs == results@[i as int].property_results,
                        j <= prs@.len(),
                        forall|k: int, jj: int| 0 <= k < i && 0 <= jj < results@[k].property_results@.len()
                            ==> #[trigger] crate::codec::apdu::ack::result_encodable(results@[k].property_results@[jj]),
                        forall|jj: int| 0 <= jj < j ==> #[trigger] crate::codec::apdu::ack::result_encodable(prs@[jj]),
                    decreases prs.len() - j,
                {
                    let ok = match &prs[j].value {
                        Ok(v) => value_encodable(v),
                        Err(_) => true,
                    };
                    if !ok {
                        assert(!crate::codec::apdu::ack::result_encodable(results@[i as int].property_results@[j as int]));
                        assert(!crate::codec::apdu::ack::rpm_results_encodable(results@));
                        return false;
                    }
                    j = j + 1;
                }
                i = i + 1;
            }
            true
        },
    }
}

impl ApduDispatcher {
    /// The devices, in order of registration.
    pub closed spec fn devices(&self) -> Seq<DeviceInfo> {
        self.devices@
    }

    /// Each device identifier is registered once.
    pub closed spec fn wf(&self) -> bool {
        forall|i: int, j: int| 0 <= i < j < self.devices@.len() ==> self.devices@[i].device_id != self.devices@[j].device_id
    }

    /// A dispatcher with no device.
    pub fn new() -> (r: ApduDispatcher)
        ensures
            r.wf(),
            r.devices() == Seq::<DeviceInfo>::empty(),
    {
        ApduDispatcher { devices: Vec::new() }
    }

    /// The numbers of the registered devices, in registration order.
    pub fn device_ids(&self) -> (r: Vec<u32>)
        ensures
            r@ == self.devices().map_values(|d: DeviceInfo| d.device_id.0),
    {
        let mut out: Vec<u32> = Vec::new();
        let n = self.devices.len();
        let mut i: usize = 0;
        while i < n
            invariant
                n == self.devices@.len(),
                i <= n,
                out@ == self.devices@.take(i as int).map_values(|d: DeviceInfo| d.device_id.0),
            decreases n - i,
        {
            out.push(self.devices[i].device_id.0);
            i = i + 1;
            assert(out@ =~= self.devices@.take(i as int).map_values(|d: DeviceInfo| d.device_id.0));
        }
        assert(self.devices@.take(n as int) =~= self.devices@);
        out
    }

    /// Registers a device, replacing one registered under the same
    /// identifier (which keeps its place).
    pub fn register_device(&mut self, info: DeviceInfo)
        requires
            old(self).wf(),
        ensures
            final(self).wf(),
            (exists|i: int| 0 <= i < old(self).devices().len() && old(self).devices()[i].device_id == info.device_id) ==> exists|i: int|
                0 <= i < old(self).devices().len() && old(self).devices()[i].device_id == info.device_id
                    && final(self).devices() == old(self).devices().update(i, info),
            (forall|i: int| 0 <= i < old(self).devices().len() ==> old(self).devices()[i].device_id != info.device_id)
                ==> final(self).devices() == old(self).devices().push(info),
    {
        let mut i: usize = 0;
        while i < self.devices.len()
            invariant
                i <= self.devices@.len(),
                self.devices@ == old(self).devices@,
                old(self).wf(),
                forall|k: int| 0 <= k < i ==> self.devices@[k].device_id != info.device_id,
            decreases self.devices.len() - i,
        {
            if self.devices[i].device_id == info.device_id {
                let ghost before = self.devices@;
                self.devices.set(i, info);
                assert(self.devices@ == before.update(i as int, info));
                assert forall|a: int, b: int| 0 <= a < b < self.devices@.len() implies self.devices@[a].device_id != self.devices@[b].device_id by {
                    assert(old(self).devices@[a].device_id != old(self).devices@[b].device_id);
                }
                return;
            }
            i = i + 1;
        }
        self.devices.push(info);
    }

    /// Whether `r` answers an unconfirmed request: a Who-Is is answered by
    /// an I-Am broadcast from every matching device; other requests get no
    /// answer.
    pub open spec fn unconfirmed_outcome(&self, req: UnconfirmedRequest, r: Seq<(Destination, Seq<u8>)>) -> bool {
        match req {
            UnconfirmedRequest::WhoIs(w) => r == iam_frames(self.devices(), w.low_limit, w.high_limit),
            _ => r.len() == 0,
        }
    }

    fn handle_unconfirmed(&self, req: UnconfirmedRequest, src: NetworkAddress) -> (r: Vec<OutboundFrame>)
        ensures
            self.unconfirmed_outcome(req, frames_view(r@)),
    {
        let mut out: Vec<OutboundFrame> = Vec::new();
        match req {
            UnconfirmedRequest::WhoIs(w) => {
                let n = self.devices.len();
                let mut i: usize = 0;
                while i < n
                    invariant
                        n == self.devices@.len(),
                        i <= n,
                        frames_view(out@) == iam_frames(self.devices@.take(i as int), w.low_limit, w.high_limit),
                    decreases n - i,
                {
                    let dev = &self.devices[i];
                    proof {
                        assert(self.devices@.take(i + 1).drop_last() =~= self.devices@.take(i as int));
                    }
                    let ghost before = out@;
                    if let Some(iam) = handle_who_is(w.low_limit, w.high_limit, dev.device_id, dev.max_apdu, dev.vendor_id) {
                        let mut buf = bytes_mut_new();
                        iam.encode(&mut buf);
                        let npdu = Npdu::encode_local(false, bytes_mut_as_slice(&buf));
                        out.push(OutboundFrame { dst: Destination::Broadcast { network_number: 0 }, npdu });
                        assert(bytes_mut_view(buf) =~= iam_octets(IAmRequest {
                            device_instance: dev.device_id.0,
                            max_apdu_length_accepted: dev.max_apdu,
                            segmentation_supported: Segmentation::NoSegmentation,
                            vendor_id: dev.vendor_id,
                        }));
                    }
                    i = i + 1;
                    assert(frames_view(out@) =~= iam_frames(self.devices@.take(i as int), w.low_limit, w.high_limit));
                }
                assert(self.devices@.take(n as int) =~= self.devices@);
            },
            _ => {},
        }
        assert(frames_view(out@) =~= frames_view(out@));
        out
    }

    /// Whether `new` and `r` are what a confirmed request leaves: the first
    /// registered device answers (`UnknownObject`, with no answer, when
    /// there is none) with a unicast to the requester holding a ComplexACK,
    /// a SimpleACK or an Error PDU, each carrying the request's invoke id.  An ACK holding a value too long to
    /// encode is not sent: the answer is then `ValueOutOfRange`.
    pub open spec fn confirmed_outcome(
        &self,
        old: ObjectStore,
        new: ObjectStore,
        req: ConfirmedRequest,
        src: NetworkAddress,
        r: Result<Seq<(Destination, Seq<u8>)>, BacnetError>,
    ) -> bool {
        if self.devices().len() == 0 {
            r == Err::<Seq<(Destination, Seq<u8>)>, BacnetError>(BacnetError::UnknownObject) && new == old
        } else {
            let id = self.devices()[0].device_id;
            let invoke = req.invoke_id;
            match req.service {
                ConfirmedServiceRequest::ReadProperty(rp) => new == old && exists|rr: Result<ComplexAck, BacnetError>| {
                    &&& read_property_outcome(old, rp, id, rr)
                    &&& match rr {
                        Ok(ack) => {
                            let sent = ComplexAck { invoke_id: invoke, service: ack.service };
                            if complex_ack_encodable(sent) {
                                r == Ok::<Seq<(Destination, Seq<u8>)>, BacnetError>(unicast_answer(src, complex_ack_octets(sent)))
                            } else {
                                r == Err::<Seq<(Destination, Seq<u8>)>, BacnetError>(BacnetError::ValueOutOfRange)
                            }
                        },
                        Err(e) => r == Ok::<Seq<(Destination, Seq<u8>)>, BacnetError>(unicast_answer(src, error_response(invoke, 12, e))),
                    }
                },
                ConfirmedServiceRequest::ReadPropertyMultiple(specs) => new == old && exists|ack: ComplexAck| {
                    &&& rpm_outcome(old, specs@, id, invoke, ack)
                    &&& if complex_ack_encodable(ack) {
                        r == Ok::<Seq<(Destination, Seq<u8>)>, BacnetError>(unicast_answer(src, complex_ack_octets(ack)))
                    } else {
                        r == Err::<Seq<(Destination, Seq<u8>)>, BacnetError>(BacnetError::ValueOutOfRange)
                    }
                },
                ConfirmedServiceRequest::WriteProperty(w) => exists|wr: Result<(), BacnetError>| {
                    &&& write_property_outcome(old, new, w, id, wr)
                    &&& match wr {
                        Ok(()) => r == Ok::<Seq<(Destination, Seq<u8>)>, BacnetError>(unicast_answer(src, simple_ack_octets(invoke, 15))),
                        Err(e) => r == Ok::<Seq<(Destination, Seq<u8>)>, BacnetError>(unicast_answer(src, error_response(invoke, 15, e))),
                    }
                },
                ConfirmedServiceRequest::SubscribeCov(_) => new == old && r == Ok::<Seq<(Destination, Seq<u8>)>, BacnetError>(
                    unicast_answer(src, simple_ack_octets(invoke, 5)),
                ),
            }
        }
    }

    fn handle_confirmed(&self, req: ConfirmedRequest, src: NetworkAddress, store: &mut ObjectStore) -> (r: Result<Vec<OutboundFrame>, BacnetError>)
        requires
            old(store).wf(),
        ensures
            final(store).wf(),
            self.confirmed_outcome(*old(store), *final(store), req, src, match r {
                Ok(fs) => Ok(frames_view(fs@)),
                Err(e) => Err(e),
            }),
    {
        if self.devices.len() == 0 {
            return Err(BacnetError::UnknownObject);
        }
        let device_id = self.devices[0].device_id;
        let invoke_id = req.invoke_id;
        match req.service {
            ConfirmedServiceRequest::ReadProperty(rp) => {
                let rr = handle_read_property(rp, store, device_id);
                match rr {
                    Ok(found) => {
                        let ack = ComplexAck { invoke_id, service: found.service };
                        if !ack_encodable(&ack) {
                            return Err(BacnetError::ValueOutOfRange);
                        }
                        let mut buf = bytes_mut_new();
                        ack.encode(&mut buf);
                        Ok(answer(src, &buf))
                    },
                    Err(e) => {
                        let buf = encode_error_pdu(invoke_id, 12, &e);
                        Ok(answer(src, &buf))
                    },
                }
            },
            ConfirmedServiceRequest::ReadPropertyMultiple(specs) => {
                let ack = handle_read_property_multiple(specs, store, device_id, invoke_id);
                if !ack_encodable(&ack) {
                    return Err(BacnetError::ValueOutOfRange);
                }
                let mut buf = bytes_mut_new();
                ack.encode(&mut buf);
                Ok(answer(src, &buf))
            },
            ConfirmedServiceRequest::WriteProperty(w) => {
                let wr = handle_write_property(w, store, device_id);
                match wr {
                    Ok(()) => {
                        let mut buf = bytes_mut_new();
                        SimpleAck { invoke_id, service_choice: 15 }.encode(&mut buf);
                        Ok(answer(src, &buf))
                    },
                    Err(e) => {
                        let buf = encode_error_pdu(invoke_id, 15, &e);
                        Ok(answer(src, &buf))
                    },
                }
            },
            ConfirmedServiceRequest::SubscribeCov(_) => {
                let mut buf = bytes_mut_new();
                SimpleAck { invoke_id, service_choice: 5 }.encode(&mut buf);
                Ok(answer(src, &buf))
            },
        }
    }

    /// Whether `new` and `r` are what an inbound frame leaves.  An NPDU that
    /// does not decode is an error; a network message, an empty APDU, a PDU
    /// type other than confirmed or unconfirmed request, or a request that
    /// does not decode gets no answer.
    pub open spec fn frame_outcome(
        &self,
        old: ObjectStore,
        new: ObjectStore,
        frame: InboundFrame,
        r: Result<Seq<(Destination, Seq<u8>)>, BacnetError>,
    ) -> bool {
        match spec_npdu_decode(bytes_view(frame.npdu)) {
            None => r matches Err(e) && e is DecodeError && new == old,
            Some(n) => {
                let apdu = n.apdu;
                if n.control.network_message || apdu.len() == 0 {
                    r == Ok::<Seq<(Destination, Seq<u8>)>, BacnetError>(Seq::empty()) && new == old
                } else if apdu[0] / 16 == 0 {
                    if confirmed_decodes(apdu) {
                        exists|req: ConfirmedRequest| confirmed_request_from(apdu, req) && self.confirmed_outcome(old, new, req, frame.src, r)
                    } else {
                        r == Ok::<Seq<(Destination, Seq<u8>)>, BacnetError>(Seq::empty()) && new == old
                    }
                } else if apdu[0] / 16 == 1 {
                    match spec_unconfirmed_decode(apdu) {
                        Some(q) => new == old && (r matches Ok(fs) && self.unconfirmed_outcome(q, fs)),
                        None => r == Ok::<Seq<(Destination, Seq<u8>)>, BacnetError>(Seq::empty()) && new == old,
                    }
                } else {
                    r == Ok::<Seq<(Destination, Seq<u8>)>, BacnetError>(Seq::empty()) && new == old
                }
            },
        }
    }

    /// The answers to an inbound frame, with the effect of its request on
    /// the object store.
    pub fn handle_frame(&self, store: &mut ObjectStore, frame: &InboundFrame) -> (r: Result<Vec<OutboundFrame>, BacnetError>)
        requires
            old(store).wf(),
            npdu_lengths_fit(bytes_view(frame.npdu)),
        ensures
            final(store).wf(),
            self.frame_outcome(*old(store), *final(store), *frame, match r {
                Ok(fs) => Ok(frames_view(fs@)),
                Err(e) => Err(e),
            }),
    {
        let npdu = Npdu::decode(bytes_as_slice(&frame.npdu))?;
        if npdu.control.network_message {
            return Ok(no_answer());
        }
        let apdu = bytes_as_slice(&npdu.apdu);
        if apdu.len() == 0 {
            return Ok(no_answer());
        }
        let b0 = apdu[0];
        assert((b0 & 0xF0 == 0x00) == (b0 / 16 == 0) && (b0 & 0xF0 == 0x10) == (b0 / 16 == 1)) by (bit_vector);
        if (b0 & 0xF0) == 0x00 {
            match ConfirmedRequest::decode(apdu) {
                Ok(req) => self.handle_confirmed(req, frame.src, store),
                Err(_) => Ok(no_answer()),
            }
        } else if (b0 & 0xF0) == 0x10 {
            match UnconfirmedRequest::decode(apdu) {
                Ok(req) => Ok(self.handle_unconfirmed(req, frame.src)),
                Err(_) => Ok(no_answer()),
            }
        } else {
            Ok(no_answer())
        }
    }
}

} // verus!
