//! Core BACnet data types: identifiers, property values, errors and
//! network addresses.
use vstd::prelude::*;

verus! {

/// A device instance number.
#[derive(Debug, Clone, Copy, PartialEq, Eq, Structural, Hash)]
pub struct DeviceId(pub u32);

/// BACnet object types (ASHRAE 135 Clause 21, BACnetObjectType).
#[derive(Debug, Clone, Copy, PartialEq, Eq, Structural, Hash)]
pub enum ObjectType {
    AnalogInput,
    AnalogOutput,
    AnalogValue,
    BinaryInput,
    BinaryOutput,
    BinaryValue,
    Calendar,
    Command,
    Device,
    EventEnrollment,
    File,
    Group,
    Loop,
    MultiStateInput,
    MultiStateOutput,
    NotificationClass,
    Program,
    Schedule,
    Averaging,
    MultiStateValue,
    TrendLog,
}

/// The enumeration value of an object type.
pub open spec fn object_type_code(t: ObjectType) -> u16 {
    match t {
        ObjectType::AnalogInput => 0,
        ObjectType::AnalogOutput => 1,
        ObjectType::AnalogValue => 2,
        ObjectType::BinaryInput => 3,
        ObjectType::BinaryOutput => 4,
        ObjectType::BinaryValue => 5,
        ObjectType::Calendar => 6,
        ObjectType::Command => 7,
        ObjectType::Device => 8,
        ObjectType::EventEnrollment => 9,
        ObjectType::File => 10,
        ObjectType::Group => 11,
        ObjectType::Loop => 12,
        ObjectType::MultiStateInput => 13,
        ObjectType::MultiStateOutput => 14,
        ObjectType::NotificationClass => 15,
        ObjectType::Program => 16,
        ObjectType::Schedule => 17,
        ObjectType::Averaging => 18,
        ObjectType::MultiStateValue => 19,
        ObjectType::TrendLog => 20,
    }
}

impl ObjectType {
    /// The enumeration value of this object type.
    pub fn to_u32(self) -> (r: u32)
        ensures
            r == object_type_code(self),
    {
        match self {
            ObjectType::AnalogInput => 0,
            ObjectType::AnalogOutput => 1,
            ObjectType::AnalogValue => 2,
            ObjectType::BinaryInput => 3,
            ObjectType::BinaryOutput => 4,
            ObjectType::BinaryValue => 5,
            ObjectType::Calendar => 6,
            ObjectType::Command => 7,
            ObjectType::Device => 8,
            ObjectType::EventEnrollment => 9,
            ObjectType::File => 10,
            ObjectType::Group => 11,
            ObjectType::Loop => 12,
            ObjectType::MultiStateInput => 13,
            ObjectType::MultiStateOutput => 14,
            ObjectType::NotificationClass => 15,
            ObjectType::Program => 16,
            ObjectType::Schedule => 17,
            ObjectType::Averaging => 18,
            ObjectType::MultiStateValue => 19,
            ObjectType::TrendLog => 20,
        }
    }

    /// The object type with enumeration value `v`, if this library knows it.
    pub fn from_u16(v: u16) -> (r: Option<ObjectType>)
        ensures
            r matches Some(t) ==> object_type_code(t) == v,
            r is None <==> v > 20,
    {
        match v {
            0 => Some(ObjectType::AnalogInput),
            1 => Some(ObjectType::AnalogOutput),
            2 => Some(ObjectType::AnalogValue),
            3 => Some(ObjectType::BinaryInput),
            4 => Some(ObjectType::BinaryOutput),
            5 => Some(ObjectType::BinaryValue),
            6 => Some(ObjectType::Calendar),
            7 => Some(ObjectType::Command),
            8 => Some(ObjectType::Device),
            9 => Some(ObjectType::EventEnrollment),
            10 => Some(ObjectType::File),
            11 => Some(ObjectType::Group),
            12 => Some(ObjectType::Loop),
            13 => Some(ObjectType::MultiStateInput),
            14 => Some(ObjectType::MultiStateOutput),
            15 => Some(ObjectType::NotificationClass),
            16 => Some(ObjectType::Program),
            17 => Some(ObjectType::Schedule),
            18 => Some(ObjectType::Averaging),
            19 => Some(ObjectType::MultiStateValue),
            20 => Some(ObjectType::TrendLog),
            _ => None,
        }
    }
}

/// Distinct object types have distinct enumeration values.
pub proof fn lemma_object_type_code_injective(a: ObjectType, b: ObjectType)
    ensures
        object_type_code(a) == object_type_code(b) ==> a == b,
{
}

/// An object identifier: object type and instance number.
#[derive(Debug, Clone, Copy, PartialEq, Eq, Structural, Hash)]
pub struct ObjectId {
    pub object_type: ObjectType,
    pub instance: u32,
}

/// BACnet property identifiers (BACnetPropertyIdentifier); identifiers this
/// library has no name for are carried as `Unknown`.
#[derive(Debug, Clone, Copy, PartialEq, Eq, Structural, Hash)]
pub enum PropertyIdentifier {
    All,
    ApduTimeout,
    ApplicationSoftwareVersion,
    NotificationClass,
    CovIncrement,
    DaylightSavingsStatus,
    Description,
    EventState,
    FirmwareRevision,
    HighLimit,
    LocalDate,
    LocalTime,
    LowLimit,
    MaxApduLengthAccepted,
    ModelName,
    NumberOfApduRetries,
    NumberOfStates,
    ObjectIdentifier,
    ObjectList,
    ObjectName,
    ObjectType,
    OutOfService,
    PresentValue,
    PriorityArray,
    ProtocolObjectTypesSupported,
    ProtocolServicesSupported,
    ProtocolVersion,
    Reliability,
    RelinquishDefault,
    SegmentationSupported,
    StatusFlags,
    SystemStatus,
    Units,
    UtcOffset,
    VendorIdentifier,
    VendorName,
    BufferSize,
    Enable,
    LogInterval,
    ProtocolRevision,
    RecordCount,
    StopWhenFull,
    TotalRecordCount,
    DatabaseRevision,
    ScheduleDefault,
    PropertyList,
    Unknown(u32),
}

/// The enumeration value of a property identifier.
pub open spec fn property_code(p: PropertyIdentifier) -> u32 {
    match p {
        PropertyIdentifier::All => 8,
        PropertyIdentifier::ApduTimeout => 11,
        PropertyIdentifier::ApplicationSoftwareVersion => 12,
        PropertyIdentifier::NotificationClass => 17,
        PropertyIdentifier::CovIncrement => 22,
        PropertyIdentifier::DaylightSavingsStatus => 24,
        PropertyIdentifier::Description => 28,
        PropertyIdentifier::EventState => 36,
        PropertyIdentifier::FirmwareRevision => 44,
        PropertyIdentifier::HighLimit => 45,
        PropertyIdentifier::LocalDate => 56,
        PropertyIdentifier::LocalTime => 57,
        PropertyIdentifier::LowLimit => 59,
        PropertyIdentifier::MaxApduLengthAccepted => 62,
        PropertyIdentifier::ModelName => 70,
        PropertyIdentifier::NumberOfApduRetries => 73,
        PropertyIdentifier::NumberOfStates => 74,
        PropertyIdentifier::ObjectIdentifier => 75,
        PropertyIdentifier::ObjectList => 76,
        PropertyIdentifier::ObjectName => 77,
        PropertyIdentifier::ObjectType => 79,
        PropertyIdentifier::OutOfService => 81,
        PropertyIdentifier::PresentValue => 85,
        PropertyIdentifier::PriorityArray => 87,
        PropertyIdentifier::ProtocolObjectTypesSupported => 96,
        PropertyIdentifier::ProtocolServicesSupported => 97,
        PropertyIdentifier::ProtocolVersion => 98,
        PropertyIdentifier::Reliability => 103,
        PropertyIdentifier::RelinquishDefault => 104,
        PropertyIdentifier::SegmentationSupported => 107,
        PropertyIdentifier::StatusFlags => 111,
        PropertyIdentifier::SystemStatus => 112,
        PropertyIdentifier::Units => 117,
        PropertyIdentifier::UtcOffset => 119,
        PropertyIdentifier::VendorIdentifier => 120,
        PropertyIdentifier::VendorName => 121,
        PropertyIdentifier::BufferSize => 126,
        PropertyIdentifier::Enable => 133,
        PropertyIdentifier::LogInterval => 134,
        PropertyIdentifier::ProtocolRevision => 139,
        PropertyIdentifier::RecordCount => 141,
        PropertyIdentifier::StopWhenFull => 144,
        PropertyIdentifier::TotalRecordCount => 145,
        PropertyIdentifier::DatabaseRevision => 155,
        PropertyIdentifier::ScheduleDefault => 174,
        PropertyIdentifier::PropertyList => 371,
        PropertyIdentifier::Unknown(v) => v,
    }
}

/// The property identifier named by enumeration value `v` (`Unknown(v)` for
/// a value this library has no name for).
pub open spec fn property_from_code(v: u32) -> PropertyIdentifier {
    if v == 8 { PropertyIdentifier::All }
    else if v == 11 { PropertyIdentifier::ApduTimeout }
    else if v == 12 { PropertyIdentifier::ApplicationSoftwareVersion }
    else if v == 17 { PropertyIdentifier::NotificationClass }
    else if v == 22 { PropertyIdentifier::CovIncrement }
    else if v == 24 { PropertyIdentifier::DaylightSavingsStatus }
    else if v == 28 { PropertyIdentifier::Description }
    else if v == 36 { PropertyIdentifier::EventState }
    else if v == 44 { PropertyIdentifier::FirmwareRevision }
    else if v == 45 { PropertyIdentifier::HighLimit }
    else if v == 56 { PropertyIdentifier::LocalDate }
    else if v == 57 { PropertyIdentifier::LocalTime }
    else if v == 59 { PropertyIdentifier::LowLimit }
    else if v == 62 { PropertyIdentifier::MaxApduLengthAccepted }
    else if v == 70 { PropertyIdentifier::ModelName }
    else if v == 73 { PropertyIdentifier::NumberOfApduRetries }
    else if v == 74 { PropertyIdentifier::NumberOfStates }
    else if v == 75 { PropertyIdentifier::ObjectIdentifier }
    else if v == 76 { PropertyIdentifier::ObjectList }
    else if v == 77 { PropertyIdentifier::ObjectName }
    else if v == 79 { PropertyIdentifier::ObjectType }
    else if v == 81 { PropertyIdentifier::OutOfService }
    else if v == 85 { PropertyIdentifier::PresentValue }
    else if v == 87 { PropertyIdentifier::PriorityArray }
    else if v == 96 { PropertyIdentifier::ProtocolObjectTypesSupported }
    else if v == 97 { PropertyIdentifier::ProtocolServicesSupported }
    else if v == 98 { PropertyIdentifier::ProtocolVersion }
    else if v == 103 { PropertyIdentifier::Reliability }
    else if v == 104 { PropertyIdentifier::RelinquishDefault }
    else if v == 107 { PropertyIdentifier::SegmentationSupported }
    else if v == 111 { PropertyIdentifier::StatusFlags }
    else if v == 112 { PropertyIdentifier::SystemStatus }
    else if v == 117 { PropertyIdentifier::Units }
    else if v == 119 { PropertyIdentifier::UtcOffset }
    else if v == 120 { PropertyIdentifier::VendorIdentifier }
    else if v == 121 { PropertyIdentifier::VendorName }
    else if v == 126 { PropertyIdentifier::BufferSize }
    else if v == 133 { PropertyIdentifier::Enable }
    else if v == 134 { PropertyIdentifier::LogInterval }
    else if v == 139 { PropertyIdentifier::ProtocolRevision }
    else if v == 141 { PropertyIdentifier::RecordCount }
    else if v == 144 { PropertyIdentifier::StopWhenFull }
    else if v == 145 { PropertyIdentifier::TotalRecordCount }
    else if v == 155 { PropertyIdentifier::DatabaseRevision }
    else if v == 174 { PropertyIdentifier::ScheduleDefault }
    else if v == 371 { PropertyIdentifier::PropertyList }
    else { PropertyIdentifier::Unknown(v) }
}

impl PropertyIdentifier {
    /// The enumeration value of this property identifier.
    pub fn to_u32(self) -> (r: u32)
        ensures
            r == property_code(self),
    {
        match self {
            PropertyIdentifier::All => 8,
            PropertyIdentifier::ApduTimeout => 11,
            PropertyIdentifier::ApplicationSoftwareVersion => 12,
            PropertyIdentifier::NotificationClass => 17,
            PropertyIdentifier::CovIncrement => 22,
            PropertyIdentifier::DaylightSavingsStatus => 24,
            PropertyIdentifier::Description => 28,
            PropertyIdentifier::EventState => 36,
            PropertyIdentifier::FirmwareRevision => 44,
            PropertyIdentifier::HighLimit => 45,
            PropertyIdentifier::LocalDate => 56,
            PropertyIdentifier::LocalTime => 57,
            PropertyIdentifier::LowLimit => 59,
            PropertyIdentifier::MaxApduLengthAccepted => 62,
            PropertyIdentifier::ModelName => 70,
            PropertyIdentifier::NumberOfApduRetries => 73,
            PropertyIdentifier::NumberOfStates => 74,
            PropertyIdentifier::ObjectIdentifier => 75,
            PropertyIdentifier::ObjectList => 76,
            PropertyIdentifier::ObjectName => 77,
            PropertyIdentifier::ObjectType => 79,
            PropertyIdentifier::OutOfService => 81,
            PropertyIdentifier::PresentValue => 85,
            PropertyIdentifier::PriorityArray => 87,
            PropertyIdentifier::ProtocolObjectTypesSupported => 96,
            PropertyIdentifier::ProtocolServicesSupported => 97,
            PropertyIdentifier::ProtocolVersion => 98,
            PropertyIdentifier::Reliability => 103,
            PropertyIdentifier::RelinquishDefault => 104,
            PropertyIdentifier::SegmentationSupported => 107,
            PropertyIdentifier::StatusFlags => 111,
            PropertyIdentifier::SystemStatus => 112,
            PropertyIdentifier::Units => 117,
            PropertyIdentifier::UtcOffset => 119,
            PropertyIdentifier::VendorIdentifier => 120,
            PropertyIdentifier::VendorName => 121,
            PropertyIdentifier::BufferSize => 126,
            PropertyIdentifier::Enable => 133,
            PropertyIdentifier::LogInterval => 134,
            PropertyIdentifier::ProtocolRevision => 139,
            PropertyIdentifier::RecordCount => 141,
            PropertyIdentifier::StopWhenFull => 144,
            PropertyIdentifier::TotalRecordCount => 145,
            PropertyIdentifier::DatabaseRevision => 155,
            PropertyIdentifier::ScheduleDefault => 174,
            PropertyIdentifier::PropertyList => 371,
            PropertyIdentifier::Unknown(v) => v,
        }
    }

    /// The property identifier named by enumeration value `v`.
    pub fn from_u32(v: u32) -> (r: PropertyIdentifier)
        ensures
            r == property_from_code(v),
    {
        match v {
            8 => PropertyIdentifier::All,
            11 => PropertyIdentifier::ApduTimeout,
            12 => PropertyIdentifier::ApplicationSoftwareVersion,
            17 => PropertyIdentifier::NotificationClass,
            22 => PropertyIdentifier::CovIncrement,
            24 => PropertyIdentifier::DaylightSavingsStatus,
            28 => PropertyIdentifier::Description,
            36 => PropertyIdentifier::EventState,
            44 => PropertyIdentifier::FirmwareRevision,
            45 => PropertyIdentifier::HighLimit,
            56 => PropertyIdentifier::LocalDate,
            57 => PropertyIdentifier::LocalTime,
            59 => PropertyIdentifier::LowLimit,
            62 => PropertyIdentifier::MaxApduLengthAccepted,
            70 => PropertyIdentifier::ModelName,
            73 => PropertyIdentifier::NumberOfApduRetries,
            74 => PropertyIdentifier::NumberOfStates,
            75 => PropertyIdentifier::ObjectIdentifier,
            76 => PropertyIdentifier::ObjectList,
            77 => PropertyIdentifier::ObjectName,
            79 => PropertyIdentifier::ObjectType,
            81 => PropertyIdentifier::OutOfService,
            85 => PropertyIdentifier::PresentValue,
            87 => PropertyIdentifier::PriorityArray,
            96 => PropertyIdentifier::ProtocolObjectTypesSupported,
            97 => PropertyIdentifier::ProtocolServicesSupported,
            98 => PropertyIdentifier::ProtocolVersion,
            103 => PropertyIdentifier::Reliability,
            104 => PropertyIdentifier::RelinquishDefault,
            107 => PropertyIdentifier::SegmentationSupported,
            111 => PropertyIdentifier::StatusFlags,
            112 => PropertyIdentifier::SystemStatus,
            117 => PropertyIdentifier::Units,
            119 => PropertyIdentifier::UtcOffset,
            120 => PropertyIdentifier::VendorIdentifier,
            121 => PropertyIdentifier::VendorName,
            126 => PropertyIdentifier::BufferSize,
            133 => PropertyIdentifier::Enable,
            134 => PropertyIdentifier::LogInterval,
            139 => PropertyIdentifier::ProtocolRevision,
            141 => PropertyIdentifier::RecordCount,
            144 => PropertyIdentifier::StopWhenFull,
            145 => PropertyIdentifier::TotalRecordCount,
            155 => PropertyIdentifier::DatabaseRevision,
            174 => PropertyIdentifier::ScheduleDefault,
            371 => PropertyIdentifier::PropertyList,
            _ => PropertyIdentifier::Unknown(v),
        }
    }
}

/// Reading a property identifier back from its enumeration value gives the
/// same enumeration value.
pub proof fn lemma_property_code_roundtrip(v: u32)
    ensures
        property_code(property_from_code(v)) == v,
{
}

/// Days of the week, Monday first.
#[derive(Debug, Clone, Copy, PartialEq, Eq, Structural)]
pub enum Weekday {
    Monday,
    Tuesday,
    Wednesday,
    Thursday,
    Friday,
    Saturday,
    Sunday,
}

/// The BACnet day-of-week number of a weekday (1 = Monday .. 7 = Sunday).
pub open spec fn weekday_number(w: Weekday) -> u8 {
    match w {
        Weekday::Monday => 1,
        Weekday::Tuesday => 2,
        Weekday::Wednesday => 3,
        Weekday::Thursday => 4,
        Weekday::Friday => 5,
        Weekday::Saturday => 6,
        Weekday::Sunday => 7,
    }
}

/// A calendar date.
#[derive(Debug, Clone, Copy, PartialEq, Eq, Structural)]
pub struct BacnetDate {
    pub year: u16,
    pub month: u8,
    pub day: u8,
    pub weekday: Weekday,
}

/// A time of day.
#[derive(Debug, Clone, Copy, PartialEq, Eq, Structural)]
pub struct BacnetTime {
    pub hour: u8,
    pub minute: u8,
    pub second: u8,
    pub hundredths: u8,
}

/// A BACnet bit string.
#[derive(Debug, Clone, PartialEq, Eq)]
pub struct BitString {
    pub bits: Vec<bool>,
}

impl BitString {
    /// The bit string holding `bits`, first bit first.
    pub fn from_bits(bits: &[bool]) -> (r: BitString)
        ensures
            r.bits@ == bits@,
    {
        BitString { bits: vstd::slice::slice_to_vec(bits) }
    }
}

/// The four status flags of an object.
#[derive(Debug, Clone, Copy, PartialEq, Eq, Structural, Default)]
pub struct StatusFlags {
    pub in_alarm: bool,
    pub fault: bool,
    pub overridden: bool,
    pub out_of_service: bool,
}

/// The event state of an object (BACnetEventState).
#[derive(Debug, Clone, Copy, PartialEq, Eq, Structural)]
pub enum EventState {
    Normal,
    Fault,
    OffNormal,
    HighLimit,
    LowLimit,
    LifeSafetyAlarm,
}

pub open spec fn event_state_code(s: EventState) -> u32 {
    match s {
        EventState::Normal => 0,
        EventState::Fault => 1,
        EventState::OffNormal => 2,
        EventState::HighLimit => 3,
        EventState::LowLimit => 4,
        EventState::LifeSafetyAlarm => 5,
    }
}

impl EventState {
    /// The enumeration value of this event state.
    pub fn to_u32(self) -> (r: u32)
        ensures
            r == event_state_code(self),
    {
        match self {
            EventState::Normal => 0,
            EventState::Fault => 1,
            EventState::OffNormal => 2,
            EventState::HighLimit => 3,
            EventState::LowLimit => 4,
            EventState::LifeSafetyAlarm => 5,
        }
    }
}

/// The reliability of an object (BACnetReliability).
#[derive(Debug, Clone, Copy, PartialEq, Eq, Structural)]
pub enum Reliability {
    NoFaultDetected,
    NoSensor,
    OverRange,
    UnderRange,
    OpenLoop,
    ShortedLoop,
    NoOutput,
    UnreliableOther,
}

pub open spec fn reliability_code(r: Reliability) -> u32 {
    match r {
        Reliability::NoFaultDetected => 0,
        Reliability::NoSensor => 1,
        Reliability::OverRange => 2,
        Reliability::UnderRange => 3,
        Reliability::OpenLoop => 4,
        Reliability::ShortedLoop => 5,
        Reliability::NoOutput => 6,
        Reliability::UnreliableOther => 7,
    }
}

impl Reliability {
    /// The enumeration value of this reliability.
    pub fn to_u32(self) -> (r: u32)
        ensures
            r == reliability_code(self),
    {
        match self {
            Reliability::NoFaultDetected => 0,
            Reliability::NoSensor => 1,
            Reliability::OverRange => 2,
            Reliability::UnderRange => 3,
            Reliability::OpenLoop => 4,
            Reliability::ShortedLoop => 5,
            Reliability::NoOutput => 6,
            Reliability::UnreliableOther => 7,
        }
    }
}

/// Engineering units (BACnetEngineeringUnits), the subset the simulator uses.
#[derive(Debug, Clone, Copy, PartialEq, Eq, Structural)]
pub enum EngineeringUnits {
    Amperes,
    Volts,
    Hertz,
    Watts,
    Kilowatts,
    PoundsPerSquareInch,
    DegreesCelsius,
    Kelvin,
    DegreesFahrenheit,
    NoUnits,
    Percent,
}

pub open spec fn units_code(u: EngineeringUnits) -> u32 {
    match u {
        EngineeringUnits::Amperes => 3,
        EngineeringUnits::Volts => 5,
        EngineeringUnits::Hertz => 27,
        EngineeringUnits::Watts => 47,
        EngineeringUnits::Kilowatts => 48,
        EngineeringUnits::PoundsPerSquareInch => 56,
        EngineeringUnits::DegreesCelsius => 62,
        EngineeringUnits::Kelvin => 63,
        EngineeringUnits::DegreesFahrenheit => 64,
        EngineeringUnits::NoUnits => 95,
        EngineeringUnits::Percent => 98,
    }
}

impl EngineeringUnits {
    /// The enumeration value of these units.
    pub fn to_u32(self) -> (r: u32)
        ensures
            r == units_code(self),
    {
        match self {
            EngineeringUnits::Amperes => 3,
            EngineeringUnits::Volts => 5,
            EngineeringUnits::Hertz => 27,
            EngineeringUnits::Watts => 47,
            EngineeringUnits::Kilowatts => 48,
            EngineeringUnits::PoundsPerSquareInch => 56,
            EngineeringUnits::DegreesCelsius => 62,
            EngineeringUnits::Kelvin => 63,
            EngineeringUnits::DegreesFahrenheit => 64,
            EngineeringUnits::NoUnits => 95,
            EngineeringUnits::Percent => 98,
        }
    }
}

/// A property value.  `Real` and `Double` carry the IEEE-754 bit patterns of
/// the single and double precision numbers.
#[derive(Debug, PartialEq)]
pub enum PropertyValue {
    Null,
    Boolean(bool),
    Unsigned(u32),
    Integer(i32),
    Real(u32),
    Double(u64),
    OctetString(Vec<u8>),
    CharacterString(String),
    BitString(BitString),
    Enumerated(u32),
    Date(BacnetDate),
    Time(BacnetTime),
    ObjectId(ObjectId),
    Array(Vec<PropertyValue>),
    List(Vec<PropertyValue>),
}

/// The mathematical model of a property value: strings, byte strings, bit
/// strings and arrays become sequences.
pub enum PValue {
    Null,
    Boolean(bool),
    Unsigned(u32),
    Integer(i32),
    Real(u32),
    Double(u64),
    OctetString(Seq<u8>),
    CharacterString(Seq<char>),
    BitString(Seq<bool>),
    Enumerated(u32),
    Date(BacnetDate),
    Time(BacnetTime),
    ObjectId(ObjectId),
    Array(Seq<PValue>),
    List(Seq<PValue>),
}

/// The model of a property value.
pub open spec fn pv_model(v: PropertyValue) -> PValue
    decreases v,
{
    match v {
        PropertyValue::Null => PValue::Null,
        PropertyValue::Boolean(b) => PValue::Boolean(b),
        PropertyValue::Unsigned(n) => PValue::Unsigned(n),
        PropertyValue::Integer(n) => PValue::Integer(n),
        PropertyValue::Real(b) => PValue::Real(b),
        PropertyValue::Double(b) => PValue::Double(b),
        PropertyValue::OctetString(v) => PValue::OctetString(v@),
        PropertyValue::CharacterString(s) => PValue::CharacterString(s@),
        PropertyValue::BitString(b) => PValue::BitString(b.bits@),
        PropertyValue::Enumerated(n) => PValue::Enumerated(n),
        PropertyValue::Date(d) => PValue::Date(d),
        PropertyValue::Time(t) => PValue::Time(t),
        PropertyValue::ObjectId(o) => PValue::ObjectId(o),
        PropertyValue::Array(v) => PValue::Array(values_view(v@)),
        PropertyValue::List(v) => PValue::List(values_view(v@)),
    }
}

/// The models of a sequence of property values.
pub open spec fn values_view(s: Seq<PropertyValue>) -> Seq<PValue>
    decreases s,
{
    if s.len() == 0 {
        Seq::<PValue>::empty()
    } else {
        values_view(s.drop_last()).push(pv_model(s.last()))
    }
}

/// The models of a sequence line up with the sequence.
pub proof fn lemma_values_view(s: Seq<PropertyValue>)
    ensures
        values_view(s).len() == s.len(),
        forall|i: int| 0 <= i < s.len() ==> #[trigger] values_view(s)[i] == pv_model(s[i]),
    decreases s.len(),
{
    if s.len() > 0 {
        lemma_values_view(s.drop_last());
        assert forall|i: int| 0 <= i < s.len() implies #[trigger] values_view(s)[i] == pv_model(s[i]) by {
            if i < s.len() - 1 {
                assert(s.drop_last()[i] == s[i]);
            }
        }
    }
}

impl View for PropertyValue {
    type V = PValue;

    open spec fn view(&self) -> PValue {
        pv_model(*self)
    }
}

impl PropertyValue {
    /// A copy of this value with the same model.
    pub fn copy(&self) -> (r: PropertyValue)
        ensures
            r@ == self@,
        decreases self,
    {
        match self {
            PropertyValue::Null => PropertyValue::Null,
            PropertyValue::Boolean(b) => PropertyValue::Boolean(*b),
            PropertyValue::Unsigned(n) => PropertyValue::Unsigned(*n),
            PropertyValue::Integer(n) => PropertyValue::Integer(*n),
            PropertyValue::Real(b) => PropertyValue::Real(*b),
            PropertyValue::Double(b) => PropertyValue::Double(*b),
            PropertyValue::OctetString(v) => PropertyValue::OctetString(vstd::slice::slice_to_vec(v.as_slice())),
            PropertyValue::CharacterString(s) => PropertyValue::CharacterString(s.clone()),
            PropertyValue::BitString(b) => PropertyValue::BitString(BitString::from_bits(b.bits.as_slice())),
            PropertyValue::Enumerated(n) => PropertyValue::Enumerated(*n),
            PropertyValue::Date(d) => PropertyValue::Date(*d),
            PropertyValue::Time(t) => PropertyValue::Time(*t),
            PropertyValue::ObjectId(o) => PropertyValue::ObjectId(*o),
            PropertyValue::Array(v) => {
                let out = Self::copy_all(self, v);
                let r = PropertyValue::Array(out);
                proof {
                    lemma_values_view(out@);
                    lemma_values_view(v@);
                    assert(values_view(out@) =~= values_view(v@));
                }
                r
            },
            PropertyValue::List(v) => {
                let out = Self::copy_all(self, v);
                let r = PropertyValue::List(out);
                proof {
                    lemma_values_view(out@);
                    lemma_values_view(v@);
                    assert(values_view(out@) =~= values_view(v@));
                }
                r
            },
        }
    }

    fn copy_all(outer: &PropertyValue, v: &Vec<PropertyValue>) -> (out: Vec<PropertyValue>)
        requires
            (outer is Array && outer->Array_0 == *v) || (outer is List && outer->List_0 == *v),
        ensures
            out@.len() == v@.len(),
            forall|j: int| 0 <= j < v@.len() ==> out@[j]@ == v@[j]@,
        decreases outer, 0nat,
    {
        let mut out: Vec<PropertyValue> = Vec::new();
        let mut i: usize = 0;
        while i < v.len()
            invariant
                (outer is Array && outer->Array_0 == *v) || (outer is List && outer->List_0 == *v),
                i <= v.len(),
                out@.len() == i,
                forall|j: int| 0 <= j < i ==> out@[j]@ == v@[j]@,
            decreases v.len() - i,
        {
            proof {
                if outer is Array {
                    assert(decreases_to!(*outer => outer->Array_0));
                } else {
                    assert(decreases_to!(*outer => outer->List_0));
                }
                assert(decreases_to!(*v => v@));
                assert(decreases_to!(v@ => v@[i as int]));
                assert(decreases_to!(*outer => v@[i as int]));
            }
            let c = v[i].copy();
            out.push(c);
            i += 1;
        }
        out
    }
}

impl Clone for PropertyValue {
    fn clone(&self) -> (r: Self)
        ensures
            r@ == self@,
    {
        self.copy()
    }
}

/// Error classes (BACnetErrorClass).
#[derive(Debug, Clone, Copy, PartialEq, Eq, Structural)]
pub enum ErrorClass {
    Device,
    Object,
    Property,
    Resources,
    Security,
    Services,
    Vt,
    Communication,
}

pub open spec fn error_class_number(c: ErrorClass) -> u32 {
    match c {
        ErrorClass::Device => 0,
        ErrorClass::Object => 1,
        ErrorClass::Property => 2,
        ErrorClass::Resources => 3,
        ErrorClass::Security => 4,
        ErrorClass::Services => 5,
        ErrorClass::Vt => 6,
        ErrorClass::Communication => 7,
    }
}

impl ErrorClass {
    /// The enumeration value of this error class.
    pub fn to_u32(self) -> (r: u32)
        ensures
            r == error_class_number(self),
    {
        match self {
            ErrorClass::Device => 0,
            ErrorClass::Object => 1,
            ErrorClass::Property => 2,
            ErrorClass::Resources => 3,
            ErrorClass::Security => 4,
            ErrorClass::Services => 5,
            ErrorClass::Vt => 6,
            ErrorClass::Communication => 7,
        }
    }
}

/// Error codes (BACnetErrorCode), the subset the services report.
#[derive(Debug, Clone, Copy, PartialEq, Eq, Structural)]
pub enum ErrorCode {
    UnknownObject,
    UnknownProperty,
    WriteAccessDenied,
    ValueOutOfRange,
    InvalidDataType,
    ServiceRequestDenied,
    NotConfigured,
    Other(u32),
}

/// Errors of the library.
#[derive(Debug, Clone, PartialEq, Eq)]
pub enum BacnetError {
    DecodeError(String),
    UnknownObject,
    UnknownProperty,
    WriteAccessDenied,
    ValueOutOfRange,
    InvalidDataType,
    ServiceError { error_class: ErrorClass, error_code: ErrorCode },
}

/// An IPv4 transport endpoint: address octets and UDP port.
#[derive(Debug, Clone, Copy, PartialEq, Eq, Hash)]
pub struct Ipv4Endpoint {
    pub octets: [u8; 4],
    pub port: u16,
}

/// A link-layer address.
#[derive(Debug, Clone, Copy, PartialEq, Eq, Hash)]
pub enum MacAddr {
    Ip(Ipv4Endpoint),
    MsTP(u8),
    Sc([u8; 6]),
}

/// A network number together with a link-layer address.
#[derive(Debug, Clone, Copy, PartialEq, Eq, Hash)]
pub struct NetworkAddress {
    pub network_number: u16,
    pub mac: MacAddr,
}

/// The identity of a BACnet/SC node.
#[derive(Debug, Clone, Copy, PartialEq, Eq, Hash)]
pub struct ScNodeId(pub [u8; 16]);

} // verus!
