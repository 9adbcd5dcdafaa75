//! Error, Reject and Abort PDUs.
use vstd::prelude::*;
use crate::buffers::{bytes_mut_view, put_u8};
use crate::types::{error_class_number, ErrorClass, ErrorCode};

verus! {

/// A BACnet Error PDU.
#[derive(Debug, Clone, Copy, PartialEq, Eq)]
pub struct ErrorPdu {
    pub invoke_id: u8,
    pub service: u8,
    pub error_class: ErrorClass,
    pub error_code: ErrorCode,
}

/// The octet written for an error code; `Other` keeps the low eight bits of
/// its value.
pub open spec fn error_code_octet(c: ErrorCode) -> u8 {
    match c {
        ErrorCode::UnknownObject => 31,
        ErrorCode::UnknownProperty => 32,
        ErrorCode::WriteAccessDenied => 40,
        ErrorCode::InvalidDataType => 9,
        ErrorCode::ValueOutOfRange => 37,
        ErrorCode::ServiceRequestDenied => 29,
        ErrorCode::NotConfigured => 133,
        ErrorCode::Other(v) => (v % 256) as u8,
    }
}

/// The octets of an Error PDU: type, invoke id, service, then class and
/// code as one-octet Enumerated values.
pub open spec fn error_pdu_octets(e: ErrorPdu) -> Seq<u8> {
    seq![0x50u8, e.invoke_id, e.service, 0x91u8, error_class_number(e.error_class) as u8, 0x91u8, error_code_octet(e.error_code)]
}

impl ErrorPdu {
    /// Appends the Error PDU.
    pub fn encode(&self, buf: &mut bytes::BytesMut)
        ensures
            bytes_mut_view(*final(buf)) == bytes_mut_view(*old(buf)) + error_pdu_octets(*self),
    {
        put_u8(buf, 0x50);
        put_u8(buf, self.invoke_id);
        put_u8(buf, self.service);
        put_u8(buf, 0x91);
        put_u8(buf, self.error_class_byte());
        put_u8(buf, 0x91);
        put_u8(buf, self.error_code_byte());
        assert(bytes_mut_view(*buf) =~= bytes_mut_view(*old(buf)) + error_pdu_octets(*self));
    }

    fn error_class_byte(&self) -> (r: u8)
        ensures
            r == error_class_number(self.error_class),
    {
        match self.error_class {
            ErrorClass::Device => 0,
            ErrorClass::Object => 1,
            ErrorClass::Property => 2,
            ErrorClass::Resources => 3,
            ErrorClass::Security => 4,
            ErrorClass::Services => 5,
            ErrorClass::Vt => 6,
            ErrorClass::Communication => 7,
        }
    }

    fn error_code_byte(&self) -> (r: u8)
        ensures
            r == error_code_octet(self.error_code),
    {
        match self.error_code {
            ErrorCode::UnknownObject => 31,
            ErrorCode::UnknownProperty => 32,
            ErrorCode::WriteAccessDenied => 40,
            ErrorCode::InvalidDataType => 9,
            ErrorCode::ValueOutOfRange => 37,
            ErrorCode::ServiceRequestDenied => 29,
            ErrorCode::NotConfigured => 133,
            ErrorCode::Other(v) => (v % 256) as u8,
        }
    }
}

/// A BACnet Reject PDU.
#[derive(Debug, Clone, Copy, PartialEq, Eq)]
pub struct RejectPdu {
    pub invoke_id: u8,
    pub reason: RejectReason,
}

/// Reject reasons.
#[derive(Debug, Clone, Copy, PartialEq, Eq)]
pub enum RejectReason {
    Other,
    BufferOverflow,
    InconsistentParameters,
    InvalidParameterDataType,
    InvalidTag,
    MissingRequiredParameter,
    ParameterOutOfRange,
    TooManyArguments,
    UndefinedEnumeration,
    UnrecognizedService,
}

/// The enumeration value of a reject reason.
pub open spec fn reject_reason_code(r: RejectReason) -> u8 {
    match r {
        RejectReason::Other => 0,
        RejectReason::BufferOverflow => 1,
        RejectReason::InconsistentParameters => 2,
        RejectReason::InvalidParameterDataType => 3,
        RejectReason::InvalidTag => 4,
        RejectReason::MissingRequiredParameter => 5,
        RejectReason::ParameterOutOfRange => 6,
        RejectReason::TooManyArguments => 7,
        RejectReason::UndefinedEnumeration => 8,
        RejectReason::UnrecognizedService => 9,
    }
}

impl RejectReason {
    /// The enumeration value of this reason.
    pub fn to_u8(self) -> (r: u8)
        ensures
            r == reject_reason_code(self),
    {
        match self {
            RejectReason::Other => 0,
            RejectReason::BufferOverflow => 1,
            RejectReason::InconsistentParameters => 2,
            RejectReason::InvalidParameterDataType => 3,
            RejectReason::InvalidTag => 4,
            RejectReason::MissingRequiredParameter => 5,
            RejectReason::ParameterOutOfRange => 6,
            RejectReason::TooManyArguments => 7,
            RejectReason::UndefinedEnumeration => 8,
            RejectReason::UnrecognizedService => 9,
        }
    }
}

impl RejectPdu {
    /// Appends the Reject PDU: type, invoke id, reason.
    pub fn encode(&self, buf: &mut bytes::BytesMut)
        ensures
            bytes_mut_view(*final(buf)) == bytes_mut_view(*old(buf)) + seq![
                0x60u8,
                self.invoke_id,
                reject_reason_code(self.reason),
            ],
    {
        put_u8(buf, 0x60);
        put_u8(buf, self.invoke_id);
        put_u8(buf, self.reason.to_u8());
        assert(bytes_mut_view(*buf) =~= bytes_mut_view(*old(buf)) + seq![0x60u8, self.invoke_id, reject_reason_code(self.reason)]);
    }
}

/// A BACnet Abort PDU.
#[derive(Debug, Clone, Copy, PartialEq, Eq)]
pub struct AbortPdu {
    pub invoke_id: u8,
    pub server: bool,
    pub reason: AbortReason,
}

/// Abort reasons.
#[derive(Debug, Clone, Copy, PartialEq, Eq)]
pub enum AbortReason {
    Other,
    BufferOverflow,
    InvalidApduInThisState,
    PreemptedByHigherPriorityTask,
    SegmentationNotSupported,
}

/// The enumeration value of an abort reason.
pub open spec fn abort_reason_code(r: AbortReason) -> u8 {
    match r {
        AbortReason::Other => 0,
        AbortReason::BufferOverflow => 1,
        AbortReason::InvalidApduInThisState => 2,
        AbortReason::PreemptedByHigherPriorityTask => 3,
        AbortReason::SegmentationNotSupported => 4,
    }
}

impl AbortReason {
    /// The enumeration value of this reason.
    pub fn to_u8(self) -> (r: u8)
        ensures
            r == abort_reason_code(self),
    {
        match self {
            AbortReason::Other => 0,
            AbortReason::BufferOverflow => 1,
            AbortReason::InvalidApduInThisState => 2,
            AbortReason::PreemptedByHigherPriorityTask => 3,
            AbortReason::SegmentationNotSupported => 4,
        }
    }
}

impl AbortPdu {
    /// Appends the Abort PDU: type (with the server bit), invoke id, reason.
    pub fn encode(&self, buf: &mut bytes::BytesMut)
        ensures
            bytes_mut_view(*final(buf)) == bytes_mut_view(*old(buf)) + seq![
                if self.server { 0x71u8 } else { 0x70u8 },
                self.invoke_id,
                abort_reason_code(self.reason),
            ],
    {
        let server_bit: u8 = if self.server { 0x01 } else { 0x00 };
        put_u8(buf, 0x70 | server_bit);
        assert((0x70u8 | 0x01u8) == 0x71u8 && (0x70u8 | 0x00u8) == 0x70u8) by (bit_vector);
        put_u8(buf, self.invoke_id);
        put_u8(buf, self.reason.to_u8());
        assert(bytes_mut_view(*buf) =~= bytes_mut_view(*old(buf)) + seq![
            if self.server { 0x71u8 } else { 0x70u8 },
            self.invoke_id,
            abort_reason_code(self.reason),
        ]);
    }
}

} // verus!
