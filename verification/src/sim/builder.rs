//! Building a simulation from its configuration: the objects of every
//! device, put in the store, and every device registered with the
//! dispatcher.
use vstd::prelude::*;
use crate::config::{DeviceGroupConfig, ObjectSpec, ProfileConfig};
use crate::object::analog_input::AnalogInput;
use crate::object::analog_output::AnalogOutput;
use crate::object::analog_value::AnalogValue;
use crate::object::binary_input::BinaryInput;
use crate::object::binary_output::BinaryOutput;
use crate::object::binary_value::BinaryValue;
use crate::object::device::{device_object_id, DeviceObject};
use crate::object::multistate::MultiStateInput;
use crate::text::{decimal, decimal_text};
use crate::object::store::{insert_all, lemma_insert_all_size, store_key, ObjectStore, StoredObject};
use crate::stack::dispatcher::{ApduDispatcher, DeviceInfo};
use crate::text::{chars_are, is_name, lowercase, to_lowercase, underscore, underscoring};
use crate::types::{DeviceId, EngineeringUnits, ObjectId, ObjectType};

verus! {

/// The units named by `n` (already lowercase); no units for an unknown name.
pub open spec fn units_named(n: Seq<char>) -> EngineeringUnits {
    if n == "degreescelsius"@ || n == "degrees_celsius"@ || n == "celsius"@ || n == "\u{b0}c"@ {
        EngineeringUnits::DegreesCelsius
    } else if n == "degreesfahrenheit"@ || n == "degrees_fahrenheit"@ || n == "fahrenheit"@ || n == "\u{b0}f"@ {
        EngineeringUnits::DegreesFahrenheit
    } else if n == "kelvin"@ || n == "k"@ {
        EngineeringUnits::Kelvin
    } else if n == "percent"@ || n == "%"@ {
        EngineeringUnits::Percent
    } else if n == "psi"@ || n == "poundspersquareinch"@ {
        EngineeringUnits::PoundsPerSquareInch
    } else if n == "watts"@ || n == "w"@ {
        EngineeringUnits::Watts
    } else if n == "kilowatts"@ || n == "kw"@ {
        EngineeringUnits::Kilowatts
    } else if n == "amperes"@ || n == "a"@ || n == "amps"@ {
        EngineeringUnits::Amperes
    } else if n == "volts"@ || n == "v"@ {
        EngineeringUnits::Volts
    } else if n == "hertz"@ || n == "hz"@ {
        EngineeringUnits::Hertz
    } else {
        EngineeringUnits::NoUnits
    }
}

/// The units a configuration string names, case-insensitively; no units
/// when absent or unknown.
pub fn parse_units(s: Option<&str>) -> (r: EngineeringUnits)
    ensures
        r == match s {
            Some(x) => units_named(lowercase(x@)),
            None => EngineeringUnits::NoUnits,
        },
{
    let n = match s {
        Some(x) => to_lowercase(x),
        None => {
            return EngineeringUnits::NoUnits;
        },
    };
    if is_name(&n, "degreescelsius") || is_name(&n, "degrees_celsius") || is_name(&n, "celsius") || is_name(&n, "\u{b0}c") {
        EngineeringUnits::DegreesCelsius
    } else if is_name(&n, "degreesfahrenheit") || is_name(&n, "degrees_fahrenheit") || is_name(&n, "fahrenheit") || is_name(&n, "\u{b0}f") {
        EngineeringUnits::DegreesFahrenheit
    } else if is_name(&n, "kelvin") || is_name(&n, "k") {
        EngineeringUnits::Kelvin
    } else if is_name(&n, "percent") || is_name(&n, "%") {
        EngineeringUnits::Percent
    } else if is_name(&n, "psi") || is_name(&n, "poundspersquareinch") {
        EngineeringUnits::PoundsPerSquareInch
    } else if is_name(&n, "watts") || is_name(&n, "w") {
        EngineeringUnits::Watts
    } else if is_name(&n, "kilowatts") || is_name(&n, "kw") {
        EngineeringUnits::Kilowatts
    } else if is_name(&n, "amperes") || is_name(&n, "a") || is_name(&n, "amps") {
        EngineeringUnits::Amperes
    } else if is_name(&n, "volts") || is_name(&n, "v") {
        EngineeringUnits::Volts
    } else if is_name(&n, "hertz") || is_name(&n, "hz") {
        EngineeringUnits::Hertz
    } else {
        EngineeringUnits::NoUnits
    }
}

/// The object types a profile can ask for.
#[derive(Debug, Clone, Copy, PartialEq, Eq)]
pub enum ObjectKind {
    AnalogInput,
    AnalogOutput,
    AnalogValue,
    BinaryInput,
    BinaryOutput,
    BinaryValue,
    MultiStateInput,
}

/// The object kind a normalised type name names.
pub open spec fn kind_named(n: Seq<char>) -> Option<ObjectKind> {
    if n == "analoginput"@ || n == "analog_input"@ {
        Some(ObjectKind::AnalogInput)
    } else if n == "analogoutput"@ || n == "analog_output"@ {
        Some(ObjectKind::AnalogOutput)
    } else if n == "analogvalue"@ || n == "analog_value"@ {
        Some(ObjectKind::AnalogValue)
    } else if n == "binaryinput"@ || n == "binary_input"@ {
        Some(ObjectKind::BinaryInput)
    } else if n == "binaryoutput"@ || n == "binary_output"@ {
        Some(ObjectKind::BinaryOutput)
    } else if n == "binaryvalue"@ || n == "binary_value"@ {
        Some(ObjectKind::BinaryValue)
    } else if n == "multistateinput"@ || n == "multistate_input"@ || n == "msi"@ {
        Some(ObjectKind::MultiStateInput)
    } else {
        None
    }
}

/// The kind a configured type names: case-insensitive, spaces and hyphens
/// read as underscores.
pub open spec fn kind_of_type_name(s: Seq<char>) -> Option<ObjectKind> {
    kind_named(underscoring(lowercase(s), true))
}

/// The kind of object a configured type name asks for.
fn parse_object_kind(s: &str) -> (r: Option<ObjectKind>)
    ensures
        r == kind_of_type_name(s@),
{
    let n = underscore(&to_lowercase(s), true);
    if chars_are(&n, "analoginput") || chars_are(&n, "analog_input") {
        Some(ObjectKind::AnalogInput)
    } else if chars_are(&n, "analogoutput") || chars_are(&n, "analog_output") {
        Some(ObjectKind::AnalogOutput)
    } else if chars_are(&n, "analogvalue") || chars_are(&n, "analog_value") {
        Some(ObjectKind::AnalogValue)
    } else if chars_are(&n, "binaryinput") || chars_are(&n, "binary_input") {
        Some(ObjectKind::BinaryInput)
    } else if chars_are(&n, "binaryoutput") || chars_are(&n, "binary_output") {
        Some(ObjectKind::BinaryOutput)
    } else if chars_are(&n, "binaryvalue") || chars_are(&n, "binary_value") {
        Some(ObjectKind::BinaryValue)
    } else if chars_are(&n, "multistateinput") || chars_are(&n, "multistate_input") || chars_are(&n, "msi") {
        Some(ObjectKind::MultiStateInput)
    } else {
        None
    }
}

/// The object type of a kind.
pub open spec fn kind_type(k: ObjectKind) -> ObjectType {
    match k {
        ObjectKind::AnalogInput => ObjectType::AnalogInput,
        ObjectKind::AnalogOutput => ObjectType::AnalogOutput,
        ObjectKind::AnalogValue => ObjectType::AnalogValue,
        ObjectKind::BinaryInput => ObjectType::BinaryInput,
        ObjectKind::BinaryOutput => ObjectType::BinaryOutput,
        ObjectKind::BinaryValue => ObjectType::BinaryValue,
        ObjectKind::MultiStateInput => ObjectType::MultiStateInput,
    }
}

/// `i` in decimal, padded with zeros to at least three digits.
pub open spec fn padded3(i: u32) -> Seq<char> {
    if i < 10 {
        seq!['0', '0'] + decimal(i as nat)
    } else if i < 100 {
        seq!['0'] + decimal(i as nat)
    } else {
        decimal(i as nat)
    }
}

/// The name of the `i`-th object of a profile entry: the prefix, a hyphen
/// and `i` padded to three digits.
fn numbered_name(prefix: &str, i: u32) -> (r: String)
    ensures
        r@ == prefix@ + seq!['-'] + padded3(i),
{
    let mut s = String::from_str(prefix);
    s.append("-");
    if i < 10 {
        s.append("00");
    } else if i < 100 {
        s.append("0");
    }
    let digits = decimal_text(i);
    s.append(digits.as_str());
    proof {
        reveal_strlit("-");
        reveal_strlit("00");
        reveal_strlit("0");
    }
    assert(s@ =~= prefix@ + seq!['-'] + padded3(i));
    s
}

/// The name of the Device object of device `n`: "device-" and `n`.
fn device_name(n: u32) -> (r: String)
    ensures
        r@ == seq!['d', 'e', 'v', 'i', 'c', 'e', '-'] + decimal(n as nat),
{
    let mut s = String::from_str("device-");
    let digits = decimal_text(n);
    s.append(digits.as_str());
    proof {
        reveal_strlit("device-");
    }
    assert(s@ =~= seq!['d', 'e', 'v', 'i', 'c', 'e', '-'] + decimal(n as nat));
    s
}

/// What the builder makes: the Device object of a device, or object
/// `instance` of a kind for device `dev`, with its name and units.
pub enum Planned {
    Device(DeviceId),
    Object { kind: ObjectKind, dev: DeviceId, instance: u32, name: Seq<char>, units: EngineeringUnits },
}

/// The device and identifier of a planned object.
pub open spec fn planned_id(p: Planned) -> (DeviceId, ObjectId) {
    match p {
        Planned::Device(d) => (d, device_object_id(d)),
        Planned::Object { kind, dev, instance, .. } => (dev, ObjectId { object_type: kind_type(kind), instance }),
    }
}

/// Whether the stored pair `e` is the fresh object `p` plans: its device
/// and identifier, its name, its units (for analog objects), in service,
/// and four states for a multi-state input.
pub open spec fn fulfils(e: (DeviceId, StoredObject), p: Planned) -> bool {
    &&& (e.0, e.1.oid()) == planned_id(p)
    &&& e.1.did() == e.0
    &&& match (p, e.1) {
        (Planned::Device(d), StoredObject::Device(o)) => o.object_name@ == seq!['d', 'e', 'v', 'i', 'c', 'e', '-'] + decimal(
            d.0 as nat,
        ),
        (Planned::Object { kind: ObjectKind::AnalogInput, name, units, .. }, StoredObject::AnalogInput(o)) => o.object_name@
            == name && o.units == units && !o.out_of_service,
        (Planned::Object { kind: ObjectKind::AnalogOutput, name, units, .. }, StoredObject::AnalogOutput(o)) => o.object_name@
            == name && o.units == units && !o.out_of_service,
        (Planned::Object { kind: ObjectKind::AnalogValue, name, units, .. }, StoredObject::AnalogValue(o)) => o.object_name@
            == name && o.units == units && !o.out_of_service,
        (Planned::Object { kind: ObjectKind::BinaryInput, name, .. }, StoredObject::BinaryInput(o)) => o.object_name@ == name
            && !o.out_of_service,
        (Planned::Object { kind: ObjectKind::BinaryOutput, name, .. }, StoredObject::BinaryOutput(o)) => o.object_name@ == name
            && !o.out_of_service,
        (Planned::Object { kind: ObjectKind::BinaryValue, name, .. }, StoredObject::BinaryValue(o)) => o.object_name@ == name
            && !o.out_of_service,
        (Planned::Object { kind: ObjectKind::MultiStateInput, name, .. }, StoredObject::MultiStateInput(o)) => o.object_name@
            == name && o.number_of_states == 4 && !o.out_of_service,
        _ => false,
    }
}

/// Whether the pairs of `b` are, one by one, the objects `plan` plans.
pub open spec fn batch_fulfils(b: Seq<(DeviceId, StoredObject)>, plan: Seq<Planned>) -> bool {
    &&& b.len() == plan.len()
    &&& forall|i: int| 0 <= i < b.len() ==> fulfils(#[trigger] b[i], plan[i])
}

proof fn lemma_fulfils_push(b: Seq<(DeviceId, StoredObject)>, plan: Seq<Planned>, e: (DeviceId, StoredObject), p: Planned)
    requires
        batch_fulfils(b, plan),
        fulfils(e, p),
    ensures
        batch_fulfils(b.push(e), plan.push(p)),
{
    assert forall|i: int| 0 <= i < b.push(e).len() implies fulfils(#[trigger] b.push(e)[i], plan.push(p)[i]) by {
        if i < b.len() {
            assert(b.push(e)[i] == b[i]);
            assert(plan.push(p)[i] == plan[i]);
        }
    }
}

/// The pairs and identifiers of a batch built to a plan are the plan's.
proof fn lemma_fulfils_ids(b: Seq<(DeviceId, StoredObject)>, plan: Seq<Planned>)
    requires
        batch_fulfils(b, plan),
    ensures
        batch_ids(b) == plan.map_values(|p: Planned| planned_id(p)),
{
    assert(batch_ids(b) =~= plan.map_values(|p: Planned| planned_id(p))) by {
        assert forall|i: int| 0 <= i < b.len() implies batch_ids(b)[i] == plan.map_values(|p: Planned| planned_id(p))[i] by {
            assert(fulfils(b[i], plan[i]));
        }
    }
}

/// An object of kind `kind`, instance `instance`, of device `dev`.
/// Multi-state inputs get four states.
fn make_object(kind: ObjectKind, dev: DeviceId, instance: u32, name: &str, units: EngineeringUnits) -> (r: StoredObject)
    ensures
        fulfils((dev, r), Planned::Object { kind, dev, instance, name: name@, units }),
{
    match kind {
        ObjectKind::AnalogInput => StoredObject::AnalogInput(AnalogInput::new(dev, instance, name, units)),
        ObjectKind::AnalogOutput => StoredObject::AnalogOutput(AnalogOutput::new(dev, instance, name, units)),
        ObjectKind::AnalogValue => StoredObject::AnalogValue(AnalogValue::new(dev, instance, name, units)),
        ObjectKind::BinaryInput => StoredObject::BinaryInput(BinaryInput::new(dev, instance, name)),
        ObjectKind::BinaryOutput => StoredObject::BinaryOutput(BinaryOutput::new(dev, instance, name)),
        ObjectKind::BinaryValue => StoredObject::BinaryValue(BinaryValue::new(dev, instance, name)),
        ObjectKind::MultiStateInput => StoredObject::MultiStateInput(MultiStateInput::new(dev, instance, name, 4)),
    }
}

/// The units a profile entry names.
pub open spec fn units_of(u: Option<String>) -> EngineeringUnits {
    match u {
        Some(s) => units_named(lowercase(s@)),
        None => EngineeringUnits::NoUnits,
    }
}

/// The objects one profile entry gives device `dev`: nothing for an unknown
/// type, else instances 1 to `count`, each named from the entry's prefix
/// and its number in three digits.
pub open spec fn entry_plan(spec: ObjectSpec, dev: DeviceId) -> Seq<Planned> {
    match kind_of_type_name(spec.object_type@) {
        Some(k) => Seq::new(
            spec.count as nat,
            |i: int|
                Planned::Object {
                    kind: k,
                    dev,
                    instance: (i + 1) as u32,
                    name: spec.name_prefix@ + seq!['-'] + padded3((i + 1) as u32),
                    units: units_of(spec.units),
                },
        ),
        None => Seq::empty(),
    }
}

/// The objects a profile gives device `dev`, entry by entry.
pub open spec fn profile_plan(objs: Seq<ObjectSpec>, dev: DeviceId) -> Seq<Planned>
    decreases objs.len(),
{
    if objs.len() == 0 {
        Seq::empty()
    } else {
        profile_plan(objs.drop_last(), dev) + entry_plan(objs.last(), dev)
    }
}

/// How many objects a profile gives each device: the counts of its entries
/// of a known type.
pub open spec fn planned_count(objs: Seq<ObjectSpec>) -> nat
    decreases objs.len(),
{
    if objs.len() == 0 {
        0
    } else {
        planned_count(objs.drop_last()) + match kind_of_type_name(objs.last().object_type@) {
            Some(_) => objs.last().count as nat,
            None => 0,
        }
    }
}

/// A profile gives every device the same number of objects.
pub proof fn lemma_profile_plan_len(objs: Seq<ObjectSpec>, dev: DeviceId)
    ensures
        profile_plan(objs, dev).len() == planned_count(objs),
    decreases objs.len(),
{
    if objs.len() > 0 {
        lemma_profile_plan_len(objs.drop_last(), dev);
    }
}

/// The identities and devices of a batch of objects.
pub open spec fn batch_ids(b: Seq<(DeviceId, StoredObject)>) -> Seq<(DeviceId, ObjectId)> {
    b.map_values(|e: (DeviceId, StoredObject)| (e.0, e.1.oid()))
}

/// Appends to `batch` the objects `profile_cfg` gives device `dev`, entry
/// by entry, each named from its entry's prefix and number, with the
/// entry's units.  Entries of an unknown type are skipped.
fn add_profile_objects(
    dev: DeviceId,
    profile_cfg: &ProfileConfig,
    batch: &mut Vec<(DeviceId, StoredObject)>,
    Ghost(plan): Ghost<Seq<Planned>>,
)
    requires
        batch_fulfils(old(batch)@, plan),
    ensures
        batch_fulfils(final(batch)@, plan + profile_plan(profile_cfg.objects@, dev)),
        forall|i: int| old(batch)@.len() <= i < final(batch)@.len() ==> (#[trigger] final(batch)@[i]).0 == dev,
        forall|i: int| 0 <= i < old(batch)@.len() ==> #[trigger] final(batch)@[i] == old(batch)@[i],
{
    let profile = profile_cfg.objects.as_slice();
    let n = profile.len();
    let mut k: usize = 0;
    while k < n
        invariant
            n == profile@.len(),
            profile@ == profile_cfg.objects@,
            k <= n,
            batch@.len() >= old(batch)@.len(),
            batch_fulfils(batch@, plan + profile_plan(profile@.take(k as int), dev)),
            forall|i: int| old(batch)@.len() <= i < batch@.len() ==> (#[trigger] batch@[i]).0 == dev,
            forall|i: int| 0 <= i < old(batch)@.len() ==> #[trigger] batch@[i] == old(batch)@[i],
        decreases n - k,
    {
        let spec = &profile[k];
        let ghost before_entry = plan + profile_plan(profile@.take(k as int), dev);
        proof {
            assert(profile@.take(k + 1).drop_last() =~= profile@.take(k as int));
        }
        let units = match &spec.units {
            Some(u) => parse_units(Some(u.as_str())),
            None => parse_units(None),
        };
        assert(units == units_of(spec.units));
        match parse_object_kind(spec.object_type.as_str()) {
            Some(kind) => {
                let count = spec.count;
                let mut i: u32 = 0;
                while i < count
                    invariant
                        i <= count,
                        count == spec.count,
                        units == units_of(spec.units),
                        batch@.len() >= old(batch)@.len(),
                        kind_of_type_name(spec.object_type@) == Some(kind),
                        batch_fulfils(batch@, before_entry + entry_plan(*spec, dev).take(i as int)),
                        forall|j: int| old(batch)@.len() <= j < batch@.len() ==> (#[trigger] batch@[j]).0 == dev,
                        forall|j: int| 0 <= j < old(batch)@.len() ==> #[trigger] batch@[j] == old(batch)@[j],
                    decreases count - i,
                {
                    let instance = i + 1;
                    let name = numbered_name(spec.name_prefix.as_str(), instance);
                    let obj = make_object(kind, dev, instance, name.as_str(), units);
                    let ghost before = batch@;
                    let ghost p = Planned::Object { kind, dev, instance, name: name@, units };
                    batch.push((dev, obj));
                    proof {
                        lemma_fulfils_push(before, before_entry + entry_plan(*spec, dev).take(i as int), (dev, obj), p);
                        assert(entry_plan(*spec, dev)[i as int] == p);
                        assert(before_entry + entry_plan(*spec, dev).take(instance as int) =~= (before_entry + entry_plan(
                            *spec,
                            dev,
                        ).take(i as int)).push(p));
                        assert forall|j: int| old(batch)@.len() <= j < batch@.len() implies (#[trigger] batch@[j]).0 == dev by {
                            if j < before.len() {
                                assert(batch@[j] == before[j]);
                            }
                        }
                        assert forall|j: int| 0 <= j < old(batch)@.len() implies #[trigger] batch@[j] == old(batch)@[j] by {
                            assert(batch@[j] == before[j]);
                        }
                    }
                    i = instance;
                }
                proof {
                    assert(entry_plan(*spec, dev).take(count as int) =~= entry_plan(*spec, dev));
                }
            },
            None => {
                assert(entry_plan(*spec, dev) =~= Seq::<Planned>::empty());
                assert(before_entry + entry_plan(*spec, dev) =~= before_entry);
            },
        }
        proof {
            assert(plan + profile_plan(profile@.take(k + 1), dev) =~= before_entry + entry_plan(*spec, dev));
        }
        k = k + 1;
    }
    assert(profile@.take(n as int) =~= profile@);
}

/// The profile registered under `name`: the first entry of `profiles`
/// that carries that name.
pub open spec fn profile_named(profiles: Seq<(String, ProfileConfig)>, name: Seq<char>) -> Option<ProfileConfig>
    decreases profiles.len(),
{
    if profiles.len() == 0 {
        None
    } else {
        match profile_named(profiles.drop_last(), name) {
            Some(p) => Some(p),
            None => if profiles.last().0@ == name {
                Some(profiles.last().1)
            } else {
                None
            },
        }
    }
}

fn find_profile<'a>(profiles: &'a [(String, ProfileConfig)], name: &String) -> (r: Option<&'a ProfileConfig>)
    ensures
        match r {
            Some(p) => profile_named(profiles@, name@) == Some(*p),
            None => profile_named(profiles@, name@) is None,
        },
{
    let n = profiles.len();
    let mut found: Option<&'a ProfileConfig> = None;
    let mut i: usize = 0;
    while i < n
        invariant
            n == profiles@.len(),
            i <= n,
            match found {
                Some(p) => profile_named(profiles@.take(i as int), name@) == Some(*p),
                None => profile_named(profiles@.take(i as int), name@) is None,
            },
        decreases n - i,
    {
        proof {
            assert(profiles@.take(i + 1).drop_last() =~= profiles@.take(i as int));
        }
        if found.is_none() {
            let entry = &profiles[i];
            if entry.0 == *name {
                found = Some(&entry.1);
            }
        }
        i = i + 1;
    }
    assert(profiles@.take(n as int) =~= profiles@);
    found
}

/// The objects one device gets: its Device object, then its profile's.
pub open spec fn device_plan(dev: DeviceId, objs: Seq<ObjectSpec>) -> Seq<Planned> {
    seq![Planned::Device(dev)] + profile_plan(objs, dev)
}

/// The objects of the `n` devices numbered from `first` on.
pub open spec fn devices_plan(first: u32, n: nat, objs: Seq<ObjectSpec>) -> Seq<Planned>
    decreases n,
{
    if n == 0 {
        Seq::empty()
    } else {
        devices_plan(first, (n - 1) as nat, objs) + device_plan(DeviceId((first + n - 1) as u32), objs)
    }
}

/// The objects one group of devices gets: none when its profile is
/// unknown or its range empty.
pub open spec fn group_plan(g: DeviceGroupConfig, profiles: Seq<(String, ProfileConfig)>) -> Seq<Planned> {
    match profile_named(profiles, g.profile@) {
        Some(p) => if g.id_range[0] <= g.id_range[1] {
            devices_plan(g.id_range[0], (g.id_range[1] - g.id_range[0] + 1) as nat, p.objects@)
        } else {
            Seq::empty()
        },
        None => Seq::empty(),
    }
}

/// The objects all groups get, group by group.
pub open spec fn simulation_plan(groups: Seq<DeviceGroupConfig>, profiles: Seq<(String, ProfileConfig)>) -> Seq<Planned>
    decreases groups.len(),
{
    if groups.len() == 0 {
        Seq::empty()
    } else {
        simulation_plan(groups.drop_last(), profiles) + group_plan(groups.last(), profiles)
    }
}

/// The devices and identifiers of the objects all groups get.
pub open spec fn simulation_ids(groups: Seq<DeviceGroupConfig>, profiles: Seq<(String, ProfileConfig)>) -> Seq<(DeviceId, ObjectId)> {
    simulation_plan(groups, profiles).map_values(|p: Planned| planned_id(p))
}

/// Every object of `ids` gets a key of its own, and none of those keys is
/// held in `m` yet.
pub open spec fn fresh_ids(m: Map<u128, StoredObject>, ids: Seq<(DeviceId, ObjectId)>) -> bool {
    &&& forall|i: int, j: int| 0 <= i < j < ids.len() ==> store_key(ids[i].0, ids[i].1) != store_key(ids[j].0, ids[j].1)
    &&& forall|i: int| 0 <= i < ids.len() ==> !m.dom().contains(#[trigger] store_key(ids[i].0, ids[i].1))
}

/// Each of `n` devices gets its Device object and the objects of its
/// profile.
pub proof fn lemma_devices_plan_len(first: u32, n: nat, objs: Seq<ObjectSpec>)
    ensures
        devices_plan(first, n, objs).len() == n * (1 + planned_count(objs)),
    decreases n,
{
    let c = planned_count(objs);
    if n > 0 {
        lemma_devices_plan_len(first, (n - 1) as nat, objs);
        let d = DeviceId((first + n - 1) as u32);
        lemma_profile_plan_len(objs, d);
        assert(devices_plan(first, n, objs) == devices_plan(first, (n - 1) as nat, objs) + device_plan(d, objs));
        assert(device_plan(d, objs).len() == 1 + c);
        assert(n * (1 + c) == (n - 1) * (1 + c) + (1 + c)) by (nonlinear_arith)
            requires n > 0;
    } else {
        assert(n * (1 + c) == 0) by (nonlinear_arith)
            requires n == 0;
    }
}

/// Device `id` is registered in `ds`.
pub open spec fn has_device(ds: Seq<DeviceInfo>, id: DeviceId) -> bool {
    exists|i: int| 0 <= i < ds.len() && ds[i].device_id == id
}

proof fn lemma_registered(before: Seq<DeviceInfo>, after: Seq<DeviceInfo>, info: DeviceInfo)
    requires
        (exists|i: int| 0 <= i < before.len() && before[i].device_id == info.device_id) ==> exists|i: int|
            0 <= i < before.len() && before[i].device_id == info.device_id && after == before.update(i, info),
        (forall|i: int| 0 <= i < before.len() ==> before[i].device_id != info.device_id) ==> after == before.push(info),
    ensures
        has_device(after, info.device_id),
        forall|id: DeviceId| has_device(before, id) ==> has_device(after, id),
{
    if exists|i: int| 0 <= i < before.len() && before[i].device_id == info.device_id {
        let i = choose|i: int| 0 <= i < before.len() && before[i].device_id == info.device_id && after == before.update(i, info);
        assert(after[i].device_id == info.device_id);
        assert forall|id: DeviceId| has_device(before, id) implies has_device(after, id) by {
            let j = choose|j: int| 0 <= j < before.len() && before[j].device_id == id;
            assert(after[j].device_id == id);
        }
    } else {
        assert(after[before.len() as int] == info);
        assert forall|id: DeviceId| has_device(before, id) implies has_device(after, id) by {
            let j = choose|j: int| 0 <= j < before.len() && before[j].device_id == id;
            assert(after[j] == before[j]);
        }
    }
}

/// Builds every device of every group whose profile is known: its Device
/// object (named "device-n") and its profile's objects go into the store,
/// and the device is registered with the dispatcher.  Groups with an
/// unknown profile are skipped.
pub fn build_simulation(
    devices: &[DeviceGroupConfig],
    profiles: &[(String, ProfileConfig)],
    store: &mut ObjectStore,
    dispatcher: &mut ApduDispatcher,
)
    requires
        old(store).wf(),
        old(dispatcher).wf(),
        old(store).size() + simulation_plan(devices@, profiles@).len() < usize::MAX,
    ensures
        final(store).wf(),
        final(dispatcher).wf(),
        exists|batch: Seq<(DeviceId, StoredObject)>| batch_fulfils(batch, simulation_plan(devices@, profiles@))
            && final(store).view() == insert_all(old(store).view(), batch),
        forall|i: int| 0 <= i < simulation_plan(devices@, profiles@).len()
            ==> has_device(final(dispatcher).devices(), planned_id(#[trigger] simulation_plan(devices@, profiles@)[i]).0),
        forall|id: DeviceId| has_device(old(dispatcher).devices(), id) ==> has_device(final(dispatcher).devices(), id),
        fresh_ids(old(store).view(), simulation_ids(devices@, profiles@))
            ==> final(store).size() == old(store).size() + simulation_plan(devices@, profiles@).len(),
{
    let mut batch: Vec<(DeviceId, StoredObject)> = Vec::new();
    let ng = devices.len();
    let mut g: usize = 0;
    while g < ng
        invariant
            ng == devices@.len(),
            g <= ng,
            dispatcher.wf(),
            batch_fulfils(batch@, simulation_plan(devices@.take(g as int), profiles@)),
            forall|i: int| 0 <= i < batch@.len() ==> has_device(dispatcher.devices(), (#[trigger] batch@[i]).0),
            forall|id: DeviceId| has_device(old(dispatcher).devices(), id) ==> has_device(dispatcher.devices(), id),
        decreases ng - g,
    {
        let group = &devices[g];
        proof {
            assert(devices@.take(g + 1).drop_last() =~= devices@.take(g as int));
        }
        let ghost done = simulation_plan(devices@.take(g as int), profiles@);
        match find_profile(profiles, &group.profile) {
            Some(profile) => {
                let lo = group.id_range[0];
                let hi = group.id_range[1];
                if lo <= hi {
                    let last: u64 = hi as u64;
                    let mut d: u64 = lo as u64;
                    while d <= last
                        invariant
                            lo <= d <= last + 1,
                            last == hi,
                            lo == group.id_range[0],
                            hi == group.id_range[1],
                            dispatcher.wf(),
                            batch_fulfils(batch@, done + devices_plan(lo, (d - lo) as nat, profile.objects@)),
                            forall|i: int| 0 <= i < batch@.len() ==> has_device(dispatcher.devices(), (#[trigger] batch@[i]).0),
                            forall|id: DeviceId| has_device(old(dispatcher).devices(), id) ==> has_device(dispatcher.devices(), id),
                        decreases last + 1 - d,
                    {
                        let n = d as u32;
                        let dev_id = DeviceId(n);
                        let dev_obj = DeviceObject::new(dev_id, device_name(n).as_str());
                        let ghost b0 = batch@;
                        let ghost plan0 = done + devices_plan(lo, (d - lo) as nat, profile.objects@);
                        batch.push((dev_id, StoredObject::Device(dev_obj)));
                        proof {
                            lemma_fulfils_push(b0, plan0, (dev_id, StoredObject::Device(dev_obj)), Planned::Device(dev_id));
                        }
                        let ghost b1 = batch@;
                        add_profile_objects(dev_id, profile, &mut batch, Ghost(plan0.push(Planned::Device(dev_id))));
                        let ghost b2 = batch@;
                        let ghost regs0 = dispatcher.devices();
                        let info = DeviceInfo::new(n);
                        dispatcher.register_device(info);
                        proof {
                            lemma_registered(regs0, dispatcher.devices(), info);
                            assert(devices_plan(lo, (d + 1 - lo) as nat, profile.objects@) =~= devices_plan(
                                lo,
                                (d - lo) as nat,
                                profile.objects@,
                            ) + device_plan(dev_id, profile.objects@));
                            assert(plan0.push(Planned::Device(dev_id)) + profile_plan(profile.objects@, dev_id) =~= done + devices_plan(
                                lo,
                                (d + 1 - lo) as nat,
                                profile.objects@,
                            ));
                            assert forall|i: int| 0 <= i < b2.len() implies has_device(dispatcher.devices(), (#[trigger] b2[i]).0) by {
                                if i < b0.len() {
                                    assert(b2[i] == b1[i]);
                                    assert(b1[i] == b0[i]);
                                    assert(has_device(regs0, b0[i].0));
                                } else if i == b0.len() {
                                    assert(b2[i] == b1[i]);
                                } else {
                                    assert(b2[i].0 == dev_id);
                                }
                            }
                        }
                        d = d + 1;
                    }
                    proof {
                        assert(simulation_plan(devices@.take(g + 1), profiles@) =~= done + devices_plan(
                            lo,
                            (hi - lo + 1) as nat,
                            profile.objects@,
                        ));
                    }
                } else {
                    assert(simulation_plan(devices@.take(g + 1), profiles@) =~= done);
                }
            },
            None => {
                assert(simulation_plan(devices@.take(g + 1), profiles@) =~= done);
            },
        }
        g = g + 1;
    }
    assert(devices@.take(ng as int) =~= devices@);
    let ghost b = batch@;
    let ghost plan = simulation_plan(devices@, profiles@);
    store.bulk_insert(batch);
    proof {
        lemma_fulfils_ids(b, plan);
        let ids = simulation_ids(devices@, profiles@);
        assert(ids == batch_ids(b));
        assert forall|i: int| 0 <= i < plan.len() implies has_device(dispatcher.devices(), planned_id(#[trigger] plan[i]).0) by {
            assert(fulfils(b[i], plan[i]));
            assert(has_device(dispatcher.devices(), b[i].0));
        }
        if fresh_ids(old(store).view(), ids) {
            assert forall|i: int| 0 <= i < b.len() implies store_key(b[i].0, b[i].1.oid()) == store_key(ids[i].0, ids[i].1) by {
                assert(batch_ids(b)[i] == (b[i].0, b[i].1.oid()));
            }
            old(store).lemma_finite();
            lemma_insert_all_size(old(store).view(), b);
        }
    }
}

} // verus!
