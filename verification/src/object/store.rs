//! The object store: every object of every simulated device, spread over
//! shards chosen by an FxHash of the object's key.
use vstd::prelude::*;
use std::collections::HashMap;
use std::hash::{Hash, Hasher};
use std::time::{Duration, Instant, SystemTime};
use crate::object::analog_input::AnalogInput;
use crate::object::analog_output::AnalogOutput;
use crate::object::analog_value::AnalogValue;
use crate::object::binary_input::BinaryInput;
use crate::object::binary_output::BinaryOutput;
use crate::object::binary_value::BinaryValue;
use crate::object::device::{device_object_id, device_read_outcome, DeviceObject};
use crate::object::multistate::MultiStateInput;
use crate::object::notification_class::NotificationClass;
use crate::object::property::{props_view, read_outcome, BacnetObject};
use crate::object::clock::{instant_ge, instant_gt, is_utc_of, unix_secs};
use crate::object::schedule::Schedule;
use crate::object::trend_log::TrendLog;
use crate::types::{object_type_code, BacnetDate, BacnetError, BacnetTime, DeviceId, ObjectId, PValue, PropertyIdentifier, PropertyValue};

verus! {

broadcast use vstd::std_specs::hash::group_hash_axioms;

/// Any object the store can hold.
pub enum StoredObject {
    AnalogInput(AnalogInput),
    AnalogOutput(AnalogOutput),
    AnalogValue(AnalogValue),
    BinaryInput(BinaryInput),
    BinaryOutput(BinaryOutput),
    BinaryValue(BinaryValue),
    Device(DeviceObject),
    MultiStateInput(MultiStateInput),
    NotificationClass(NotificationClass),
    Schedule(Schedule),
    TrendLog(TrendLog),
}

impl StoredObject {
    /// The identifier of the object.
    pub open spec fn oid(&self) -> ObjectId {
        match self {
            StoredObject::AnalogInput(a) => a.object_id,
            StoredObject::AnalogOutput(a) => a.object_id,
            StoredObject::AnalogValue(a) => a.object_id,
            StoredObject::BinaryInput(a) => a.object_id,
            StoredObject::BinaryOutput(a) => a.object_id,
            StoredObject::BinaryValue(a) => a.object_id,
            StoredObject::Device(d) => device_object_id(d.device_id),
            StoredObject::MultiStateInput(a) => a.object_id,
            StoredObject::NotificationClass(a) => a.object_id,
            StoredObject::Schedule(a) => a.object_id,
            StoredObject::TrendLog(a) => a.object_id,
        }
    }

    /// The device the object belongs to.
    pub open spec fn did(&self) -> DeviceId {
        match self {
            StoredObject::AnalogInput(a) => a.device_id,
            StoredObject::AnalogOutput(a) => a.device_id,
            StoredObject::AnalogValue(a) => a.device_id,
            StoredObject::BinaryInput(a) => a.device_id,
            StoredObject::BinaryOutput(a) => a.device_id,
            StoredObject::BinaryValue(a) => a.device_id,
            StoredObject::Device(d) => d.device_id,
            StoredObject::MultiStateInput(a) => a.device_id,
            StoredObject::NotificationClass(a) => a.device_id,
            StoredObject::Schedule(a) => a.device_id,
            StoredObject::TrendLog(a) => a.device_id,
        }
    }

    /// Whether `r` is what reading property `p` with index `idx` gives.
    pub open spec fn read_spec(&self, p: PropertyIdentifier, idx: Option<u32>, r: Result<PropertyValue, BacnetError>) -> bool {
        match self {
            StoredObject::AnalogInput(a) => read_outcome(r, a.property(p)),
            StoredObject::AnalogOutput(a) => read_outcome(r, a.property(p, idx)),
            StoredObject::AnalogValue(a) => read_outcome(r, a.property(p)),
            StoredObject::BinaryInput(a) => read_outcome(r, a.property(p)),
            StoredObject::BinaryOutput(a) => read_outcome(r, a.property(p)),
            StoredObject::BinaryValue(a) => read_outcome(r, a.property(p)),
            StoredObject::Device(d) => device_read_outcome(*d, p, idx, r),
            StoredObject::MultiStateInput(a) => read_outcome(r, a.property(p)),
            StoredObject::NotificationClass(a) => read_outcome(r, a.property(p)),
            StoredObject::Schedule(a) => read_outcome(r, a.property(p)),
            StoredObject::TrendLog(a) => read_outcome(r, a.property(p)),
        }
    }

    /// Whether `list` is what RPM `ALL` lists of this object: its property
    /// list (for a device, at the clock's date and time).
    pub open spec fn lists(&self, list: Seq<(PropertyIdentifier, PValue)>) -> bool {
        match self {
            StoredObject::Device(d) => d.lists_all(list),
            _ => list == self.property_list(),
        }
    }

    /// The properties listed for RPM `ALL` of an object that reads no clock.
    pub open spec fn property_list(&self) -> Seq<(PropertyIdentifier, PValue)> {
        match self {
            StoredObject::AnalogInput(a) => a.property_list(),
            StoredObject::AnalogOutput(a) => a.property_list(),
            StoredObject::AnalogValue(a) => a.property_list(),
            StoredObject::BinaryInput(a) => a.property_list(),
            StoredObject::BinaryOutput(a) => a.property_list(),
            StoredObject::BinaryValue(a) => a.property_list(),
            StoredObject::Device(_) => Seq::empty(),
            StoredObject::MultiStateInput(a) => a.property_list(),
            StoredObject::NotificationClass(a) => a.property_list(),
            StoredObject::Schedule(a) => a.property_list(),
            StoredObject::TrendLog(a) => a.property_list(),
        }
    }

    /// Whether `new` and `r` are what a write leaves: a client write, or
    /// with `forced` one made by the simulation (no priority, past the
    /// out-of-service guard).
    pub open spec fn write_spec(
        &self,
        p: PropertyIdentifier,
        v: PropertyValue,
        priority: Option<u8>,
        forced: bool,
        new: StoredObject,
        r: Result<(), BacnetError>,
    ) -> bool {
        match (*self, new) {
            (StoredObject::AnalogInput(a), StoredObject::AnalogInput(b)) => a.write_outcome(p, v, forced, b, r),
            (StoredObject::AnalogOutput(a), StoredObject::AnalogOutput(b)) => a.write_outcome(
                p,
                v,
                if forced { None } else { priority },
                b,
                r,
            ),
            (StoredObject::AnalogValue(a), StoredObject::AnalogValue(b)) => a.write_outcome(p, v, b, r),
            (StoredObject::BinaryInput(a), StoredObject::BinaryInput(b)) => a.write_outcome(p, v, forced, b, r),
            (StoredObject::BinaryOutput(a), StoredObject::BinaryOutput(b)) => a.write_outcome(
                p,
                v,
                if forced { None } else { priority },
                b,
                r,
            ),
            (StoredObject::BinaryValue(a), StoredObject::BinaryValue(b)) => a.write_outcome(p, v, b, r),
            (StoredObject::Device(a), StoredObject::Device(b)) => r == Err::<(), BacnetError>(BacnetError::WriteAccessDenied)
                && b == a,
            (StoredObject::MultiStateInput(a), StoredObject::MultiStateInput(b)) => a.write_outcome(p, v, forced, b, r),
            (StoredObject::NotificationClass(a), StoredObject::NotificationClass(b)) => r == Err::<(), BacnetError>(
                BacnetError::WriteAccessDenied,
            ) && b == a,
            (StoredObject::Schedule(a), StoredObject::Schedule(b)) => a.write_outcome(p, v, forced, b, r),
            (StoredObject::TrendLog(a), StoredObject::TrendLog(b)) => a.write_outcome(p, v, b, r),
            _ => false,
        }
    }

    /// The properties reported changed since `since`: the present value
    /// (with the status flags of an analog input) once the object changed
    /// at or after `since` (strictly after, for values, binary outputs and
    /// multi-state inputs); nothing for objects that do not track changes.
    pub open spec fn changed_spec(&self, since: Instant) -> Seq<PropertyIdentifier> {
        match self {
            StoredObject::AnalogInput(a) => if instant_ge(a.last_changed, since) {
                seq![PropertyIdentifier::PresentValue, PropertyIdentifier::StatusFlags]
            } else {
                Seq::empty()
            },
            StoredObject::AnalogOutput(a) => if instant_ge(a.last_changed, since) { seq![PropertyIdentifier::PresentValue] } else { Seq::empty() },
            StoredObject::AnalogValue(a) => if instant_gt(a.last_changed, since) { seq![PropertyIdentifier::PresentValue] } else { Seq::empty() },
            StoredObject::BinaryInput(a) => if instant_ge(a.last_changed, since) { seq![PropertyIdentifier::PresentValue] } else { Seq::empty() },
            StoredObject::BinaryOutput(a) => if instant_gt(a.last_changed, since) { seq![PropertyIdentifier::PresentValue] } else { Seq::empty() },
            StoredObject::BinaryValue(a) => if instant_gt(a.last_changed, since) { seq![PropertyIdentifier::PresentValue] } else { Seq::empty() },
            StoredObject::MultiStateInput(a) => if instant_gt(a.last_changed, since) { seq![PropertyIdentifier::PresentValue] } else { Seq::empty() },
            _ => Seq::empty(),
        }
    }

    /// Whether a write leaves the identity of the object as it was.
    pub open spec fn same_identity(&self, new: StoredObject) -> bool {
        new.oid() == self.oid() && new.did() == self.did()
    }
}

/// What a tick at `now` may make of `o`: a schedule in service takes the
/// value its weekly schedule gives for `now`, a trend log may mark a new
/// sample time, and every other object stays as it is.
pub open spec fn tick_outcome(o: StoredObject, n: StoredObject, now: SystemTime) -> bool {
    match (o, n) {
        (StoredObject::Schedule(a), StoredObject::Schedule(b)) => if a.out_of_service {
            b == a
        } else {
            b == (Schedule { present_value: b.present_value, ..a }) && b.present_value@ == a.value_at(unix_secs(now))
        },
        (StoredObject::TrendLog(a), StoredObject::TrendLog(b)) => b == (TrendLog { last_sample: b.last_sample, ..a }),
        (StoredObject::Schedule(_), _) => false,
        (StoredObject::TrendLog(_), _) => false,
        _ => n == o,
    }
}

/// Ticking twice at the same time gives what one tick may give.
pub proof fn lemma_tick_twice(o: StoredObject, n: StoredObject, m: StoredObject, now: SystemTime)
    requires
        tick_outcome(o, n, now),
        tick_outcome(n, m, now),
    ensures
        tick_outcome(o, m, now),
{
    match (o, n, m) {
        (StoredObject::Schedule(a), StoredObject::Schedule(b), StoredObject::Schedule(c)) => {
            if !a.out_of_service {
                assert(b.weekly_schedule == a.weekly_schedule);
                assert(b.schedule_default == a.schedule_default);
                assert(b.value_at(unix_secs(now)) == a.value_at(unix_secs(now)));
            }
        },
        _ => {},
    }
}

/// A successful write never changes which object it wrote to.
#[verifier::spinoff_prover]
pub proof fn lemma_write_keeps_identity(
    o: StoredObject,
    p: PropertyIdentifier,
    v: PropertyValue,
    priority: Option<u8>,
    forced: bool,
    new: StoredObject,
    r: Result<(), BacnetError>,
)
    requires
        o.write_spec(p, v, priority, forced, new, r),
    ensures
        o.same_identity(new),
{
    match o {
        StoredObject::AnalogInput(_) => {},
        StoredObject::AnalogOutput(_) => {},
        StoredObject::AnalogValue(_) => {},
        StoredObject::BinaryInput(_) => {},
        StoredObject::BinaryOutput(_) => {},
        StoredObject::BinaryValue(_) => {},
        StoredObject::Device(_) => {},
        StoredObject::MultiStateInput(_) => {},
        StoredObject::NotificationClass(_) => {},
        StoredObject::Schedule(_) => {},
        StoredObject::TrendLog(_) => {},
    }
}

impl BacnetObject for StoredObject {
    fn object_id(&self) -> (r: ObjectId)
        ensures
            r == self.oid(),
    {
        match self {
            StoredObject::AnalogInput(a) => a.object_id(),
            StoredObject::AnalogOutput(a) => a.object_id(),
            StoredObject::AnalogValue(a) => a.object_id(),
            StoredObject::BinaryInput(a) => a.object_id(),
            StoredObject::BinaryOutput(a) => a.object_id(),
            StoredObject::BinaryValue(a) => a.object_id(),
            StoredObject::Device(d) => d.object_id(),
            StoredObject::MultiStateInput(a) => a.object_id(),
            StoredObject::NotificationClass(a) => a.object_id(),
            StoredObject::Schedule(a) => a.object_id(),
            StoredObject::TrendLog(a) => a.object_id(),
        }
    }

    fn device_id(&self) -> (r: DeviceId)
        ensures
            r == self.did(),
    {
        match self {
            StoredObject::AnalogInput(a) => a.device_id(),
            StoredObject::AnalogOutput(a) => a.device_id(),
            StoredObject::AnalogValue(a) => a.device_id(),
            StoredObject::BinaryInput(a) => a.device_id(),
            StoredObject::BinaryOutput(a) => a.device_id(),
            StoredObject::BinaryValue(a) => a.device_id(),
            StoredObject::Device(d) => d.device_id(),
            StoredObject::MultiStateInput(a) => a.device_id(),
            StoredObject::NotificationClass(a) => a.device_id(),
            StoredObject::Schedule(a) => a.device_id(),
            StoredObject::TrendLog(a) => a.device_id(),
        }
    }

    fn read_property(&self, property_id: PropertyIdentifier, array_index: Option<u32>) -> (r: Result<PropertyValue, BacnetError>)
        ensures
            self.read_spec(property_id, array_index, r),
    {
        match self {
            StoredObject::AnalogInput(a) => a.read_property(property_id, array_index),
            StoredObject::AnalogOutput(a) => a.read_property(property_id, array_index),
            StoredObject::AnalogValue(a) => a.read_property(property_id, array_index),
            StoredObject::BinaryInput(a) => a.read_property(property_id, array_index),
            StoredObject::BinaryOutput(a) => a.read_property(property_id, array_index),
            StoredObject::BinaryValue(a) => a.read_property(property_id, array_index),
            StoredObject::Device(d) => d.read_property(property_id, array_index),
            StoredObject::MultiStateInput(a) => a.read_property(property_id, array_index),
            StoredObject::NotificationClass(a) => a.read_property(property_id, array_index),
            StoredObject::Schedule(a) => a.read_property(property_id, array_index),
            StoredObject::TrendLog(a) => a.read_property(property_id, array_index),
        }
    }

    fn write_property(&mut self, property_id: PropertyIdentifier, array_index: Option<u32>, value: PropertyValue, priority: Option<u8>) -> (r: Result<(), BacnetError>)
        ensures
            old(self).write_spec(property_id, value, priority, false, *final(self), r),
    {
        match self {
            StoredObject::AnalogInput(a) => a.write_property(property_id, array_index, value, priority),
            StoredObject::AnalogOutput(a) => a.write_property(property_id, array_index, value, priority),
            StoredObject::AnalogValue(a) => a.write_property(property_id, array_index, value, priority),
            StoredObject::BinaryInput(a) => a.write_property(property_id, array_index, value, priority),
            StoredObject::BinaryOutput(a) => a.write_property(property_id, array_index, value, priority),
            StoredObject::BinaryValue(a) => a.write_property(property_id, array_index, value, priority),
            StoredObject::Device(d) => d.write_property(property_id, array_index, value, priority),
            StoredObject::MultiStateInput(a) => a.write_property(property_id, array_index, value, priority),
            StoredObject::NotificationClass(a) => a.write_property(property_id, array_index, value, priority),
            StoredObject::Schedule(a) => a.write_property(property_id, array_index, value, priority),
            StoredObject::TrendLog(a) => a.write_property(property_id, array_index, value, priority),
        }
    }

    fn force_write_property(&mut self, property_id: PropertyIdentifier, value: PropertyValue) -> (r: Result<(), BacnetError>)
        ensures
            old(self).write_spec(property_id, value, None, true, *final(self), r),
    {
        match self {
            StoredObject::AnalogInput(a) => a.force_write_property(property_id, value),
            StoredObject::AnalogOutput(a) => a.force_write_property(property_id, value),
            StoredObject::AnalogValue(a) => a.force_write_property(property_id, value),
            StoredObject::BinaryInput(a) => a.force_write_property(property_id, value),
            StoredObject::BinaryOutput(a) => a.force_write_property(property_id, value),
            StoredObject::BinaryValue(a) => a.force_write_property(property_id, value),
            StoredObject::Device(d) => d.force_write_property(property_id, value),
            StoredObject::MultiStateInput(a) => a.force_write_property(property_id, value),
            StoredObject::NotificationClass(a) => a.force_write_property(property_id, value),
            StoredObject::Schedule(a) => a.force_write_property(property_id, value),
            StoredObject::TrendLog(a) => a.force_write_property(property_id, value),
        }
    }

    /// Each object's own tick; only schedules and trend logs change.
    fn tick(&mut self, now: SystemTime, delta: Duration)
        ensures
            final(self).oid() == old(self).oid(),
            final(self).did() == old(self).did(),
            tick_outcome(*old(self), *final(self), now),
    {
        match self {
            StoredObject::AnalogInput(a) => a.tick(now, delta),
            StoredObject::AnalogOutput(a) => a.tick(now, delta),
            StoredObject::AnalogValue(a) => a.tick(now, delta),
            StoredObject::BinaryInput(a) => a.tick(now, delta),
            StoredObject::BinaryOutput(a) => a.tick(now, delta),
            StoredObject::BinaryValue(a) => a.tick(now, delta),
            StoredObject::Device(d) => d.tick(now, delta),
            StoredObject::MultiStateInput(a) => a.tick(now, delta),
            StoredObject::NotificationClass(a) => a.tick(now, delta),
            StoredObject::Schedule(a) => a.tick(now, delta),
            StoredObject::TrendLog(a) => a.tick(now, delta),
        }
    }

    fn changed_since(&self, since: Instant) -> (r: Vec<PropertyIdentifier>)
        ensures
            r@ == self.changed_spec(since),
    {
        match self {
            StoredObject::AnalogInput(a) => a.changed_since(since),
            StoredObject::AnalogOutput(a) => a.changed_since(since),
            StoredObject::AnalogValue(a) => a.changed_since(since),
            StoredObject::BinaryInput(a) => a.changed_since(since),
            StoredObject::BinaryOutput(a) => a.changed_since(since),
            StoredObject::BinaryValue(a) => a.changed_since(since),
            StoredObject::Device(d) => d.changed_since(since),
            StoredObject::MultiStateInput(a) => a.changed_since(since),
            StoredObject::NotificationClass(a) => a.changed_since(since),
            StoredObject::Schedule(a) => a.changed_since(since),
            StoredObject::TrendLog(a) => a.changed_since(since),
        }
    }

    fn all_properties(&self) -> (r: Vec<(PropertyIdentifier, PropertyValue)>)
        ensures
            self.lists(props_view(r@)),
    {
        match self {
            StoredObject::AnalogInput(a) => a.all_properties(),
            StoredObject::AnalogOutput(a) => a.all_properties(),
            StoredObject::AnalogValue(a) => a.all_properties(),
            StoredObject::BinaryInput(a) => a.all_properties(),
            StoredObject::BinaryOutput(a) => a.all_properties(),
            StoredObject::BinaryValue(a) => a.all_properties(),
            StoredObject::Device(d) => d.all_properties(),
            StoredObject::MultiStateInput(a) => a.all_properties(),
            StoredObject::NotificationClass(a) => a.all_properties(),
            StoredObject::Schedule(a) => a.all_properties(),
            StoredObject::TrendLog(a) => a.all_properties(),
        }
    }
}

// ---------------------------------------------------------------------------
// The sharded store
// ---------------------------------------------------------------------------

/// The map after inserting each object of `s` in turn.
pub open spec fn insert_all(m: Map<u128, StoredObject>, s: Seq<(DeviceId, StoredObject)>) -> Map<u128, StoredObject>
    decreases s.len(),
{
    if s.len() == 0 {
        m
    } else {
        insert_all(m, s.drop_last()).insert(store_key(s.last().0, s.last().1.oid()), s.last().1)
    }
}

/// The keys `insert_all` stores under, for the objects of `s`.
pub open spec fn batch_keys(s: Seq<(DeviceId, StoredObject)>) -> Set<u128> {
    Set::new(|k: u128| exists|i: int| 0 <= i < s.len() && store_key(s[i].0, s[i].1.oid()) == k)
}

/// Inserting a batch adds exactly the keys of its objects.
pub proof fn lemma_insert_all_dom(m: Map<u128, StoredObject>, s: Seq<(DeviceId, StoredObject)>)
    ensures
        insert_all(m, s).dom() == m.dom().union(batch_keys(s)),
    decreases s.len(),
{
    if s.len() == 0 {
        assert(batch_keys(s) =~= Set::<u128>::empty());
        assert(m.dom().union(batch_keys(s)) =~= m.dom());
    } else {
        let t = s.drop_last();
        lemma_insert_all_dom(m, t);
        let k = store_key(s.last().0, s.last().1.oid());
        assert forall|x: u128| batch_keys(s).contains(x) <==> batch_keys(t).contains(x) || x == k by {
            if batch_keys(s).contains(x) {
                let i = choose|i: int| 0 <= i < s.len() && store_key(s[i].0, s[i].1.oid()) == x;
                if i < s.len() - 1 {
                    assert(t[i] == s[i]);
                }
            }
            if batch_keys(t).contains(x) {
                let i = choose|i: int| 0 <= i < t.len() && store_key(t[i].0, t[i].1.oid()) == x;
                assert(s[i] == t[i]);
            }
            if x == k {
                assert(store_key(s[s.len() - 1].0, s[s.len() - 1].1.oid()) == x);
            }
        }
        assert(insert_all(m, s).dom() =~= m.dom().union(batch_keys(s)));
    }
}

/// A batch of objects under distinct keys that the map does not hold grows
/// it by exactly the size of the batch.
pub proof fn lemma_insert_all_size(m: Map<u128, StoredObject>, s: Seq<(DeviceId, StoredObject)>)
    requires
        m.dom().finite(),
        forall|i: int, j: int| 0 <= i < j < s.len() ==> store_key(s[i].0, s[i].1.oid()) != store_key(s[j].0, s[j].1.oid()),
        forall|i: int| 0 <= i < s.len() ==> !m.dom().contains(#[trigger] store_key(s[i].0, s[i].1.oid())),
    ensures
        insert_all(m, s).dom().finite(),
        insert_all(m, s).dom().len() == m.dom().len() + s.len(),
    decreases s.len(),
{
    if s.len() > 0 {
        let t = s.drop_last();
        assert forall|i: int| 0 <= i < t.len() implies !m.dom().contains(#[trigger] store_key(t[i].0, t[i].1.oid())) by {
            assert(t[i] == s[i]);
        }
        lemma_insert_all_size(m, t);
        lemma_insert_all_dom(m, t);
        let k = store_key(s.last().0, s.last().1.oid());
        assert(!m.dom().contains(store_key(s[s.len() - 1].0, s[s.len() - 1].1.oid())));
        if batch_keys(t).contains(k) {
            let i = choose|i: int| 0 <= i < t.len() && store_key(t[i].0, t[i].1.oid()) == k;
            assert(t[i] == s[i]);
            assert(false);
        }
        assert(insert_all(m, s).dom() =~= insert_all(m, t).dom().insert(k));
    }
}

/// The number of shards.
pub const NUM_SHARDS: usize = 256;

/// The FxHash of a device key followed by an object key, on a machine
/// whose pointers have `pointer_bits` bits (the hash differs between 32-
/// and 64-bit machines).
pub uninterp spec fn fx_hash_pair(device_key: u64, object_key: u64, pointer_bits: u32) -> u64;

/// `rustc_hash::FxHasher`: the hash of `device_key` then `object_key`, as
/// `Hash::hash` feeds two `u64`s to a default hasher, and `finish`.
#[verifier::external_body]
fn fx_hash(device_key: u64, object_key: u64) -> (r: u64)
    ensures
        r == fx_hash_pair(device_key, object_key, usize::BITS),
{
    let mut h = rustc_hash::FxHasher::default();
    device_key.hash(&mut h);
    object_key.hash(&mut h);
    h.finish()
}

/// The object part of a store key: the type code above bit 22, or-ed with
/// the instance (instances of more than 22 bits overlap the type).
pub open spec fn object_key(o: ObjectId) -> u64 {
    ((object_type_code(o.object_type) as u64) << 22u64) | (o.instance as u64)
}

/// The key of object `o` of device `d`: the device number in the upper 64
/// bits, the object key in the lower.
pub open spec fn store_key(d: DeviceId, o: ObjectId) -> u128 {
    (d.0 as int * 0x1_0000_0000_0000_0000 + object_key(o) as int) as u128
}

/// The shard that holds key `k`.
pub open spec fn shard_of(k: u128) -> int {
    (fx_hash_pair((k / 0x1_0000_0000_0000_0000) as u64, (k % 0x1_0000_0000_0000_0000) as u64, usize::BITS) % 256) as int
}

fn object_key_exec(o: ObjectId) -> (r: u64)
    ensures
        r == object_key(o),
{
    ((o.object_type.to_u32() as u64) << 22u64) | (o.instance as u64)
}

/// The shard index and the two halves of the key of object `o` of device
/// `d`.
fn shard_key(d: DeviceId, o: ObjectId) -> (r: (usize, u128))
    ensures
        r.1 == store_key(d, o),
        r.0 == shard_of(r.1),
        r.0 < 256,
{
    let dk = d.0 as u64;
    let ok = object_key_exec(o);
    let key: u128 = (dk as u128) * 0x1_0000_0000_0000_0000 + ok as u128;
    assert(key / 0x1_0000_0000_0000_0000 == dk && key % 0x1_0000_0000_0000_0000 == ok);
    let h = fx_hash(dk, ok);
    ((h % 256) as usize, key)
}

/// The keys of a shard.
fn keys_of(m: &HashMap<u128, StoredObject>) -> (r: Vec<u128>)
    ensures
        forall|k: u128| #[trigger] m@.contains_key(k) ==> r@.contains(k),
        forall|i: int| 0 <= i < r@.len() ==> m@.contains_key(#[trigger] r@[i]),
{
    let mut out: Vec<u128> = Vec::new();
    let ghost mut pairs: Seq<(&u128, &StoredObject)> = Seq::empty();
    let ghost mm = m@;
    for e in it: m.iter()
        invariant
            mm == m@,
            out@.len() == it.index(),
            it.seq().len() == mm.dom().len(),
            forall|i: int| 0 <= i < it.seq().len() ==> mm.contains_key(*it.seq()[i].0),
            pairs == it.seq().take(it.index() as int),
            forall|k: u128| #[trigger] mm.contains_key(k) ==> exists|j: int| 0 <= j < it.seq().len()
                && #[trigger] it.seq()[j] == (&k, &mm[k]) && (j < it.index() ==> pairs[j] == it.seq()[j]),
            forall|i: int| 0 <= i < out@.len() ==> out@[i] == *pairs[i].0 && mm.contains_key(out@[i]),
    {
        proof { pairs = pairs.push(e); }
        let (k, _) = e;
        out.push(*k);
    }
    proof {
        assert(pairs.len() == mm.dom().len());
        assert forall|k: u128| #[trigger] m@.contains_key(k) implies out@.contains(k) by {
            assert(pairs.contains((&k, &mm[k])));
            let j = choose|j: int| 0 <= j < pairs.len() && pairs[j] == (&k, &mm[k]);
            assert(out@[j] == k);
        }
    }
    out
}

/// The objects of every device, sharded by key.
pub struct ObjectStore {
    shards: Vec<HashMap<u128, StoredObject>>,
    count: usize,
}

impl ObjectStore {
    /// The objects held, by key.
    pub closed spec fn view(&self) -> Map<u128, StoredObject> {
        Map::new(
            |k: u128| 0 <= shard_of(k) < self.shards@.len() && self.shards@[shard_of(k)]@.contains_key(k),
            |k: u128| self.shards@[shard_of(k)]@[k],
        )
    }

    /// The shards are all there, each key sits in its own shard, and the
    /// count is the number of objects.
    pub closed spec fn wf(&self) -> bool {
        &&& self.shards@.len() == 256
        &&& forall|i: int, k: u128|
            0 <= i < 256 && #[trigger] self.shards@[i]@.contains_key(k) ==> shard_of(k) == i
        &&& self.view().dom().finite()
        &&& self.count == self.view().dom().len()
    }

    /// The object `o` of device `d`, if held.
    pub open spec fn object(&self, d: DeviceId, o: ObjectId) -> Option<StoredObject> {
        if self.view().dom().contains(store_key(d, o)) {
            Some(self.view()[store_key(d, o)])
        } else {
            None
        }
    }

    /// The number of objects held.
    pub open spec fn size(&self) -> nat {
        self.view().dom().len()
    }

    /// A well-formed store holds finitely many objects.
    pub proof fn lemma_finite(&self)
        requires
            self.wf(),
        ensures
            self.view().dom().finite(),
    {
    }

    /// An empty store.
    pub fn new() -> (r: ObjectStore)
        ensures
            r.wf(),
            r.view() == Map::<u128, StoredObject>::empty(),
    {
        let mut shards: Vec<HashMap<u128, StoredObject>> = Vec::new();
        let mut i: usize = 0;
        while i < NUM_SHARDS
            invariant
                i <= 256,
                shards@.len() == i,
                forall|j: int| 0 <= j < i ==> #[trigger] shards@[j]@ == Map::<u128, StoredObject>::empty(),
            decreases 256 - i,
        {
            shards.push(HashMap::new());
            i = i + 1;
        }
        let r = ObjectStore { shards, count: 0 };
        assert(r.view() =~= Map::<u128, StoredObject>::empty());
        r
    }

    /// Stores `obj` under its device and identifier, replacing any object
    /// held there.
    pub fn insert(&mut self, device: DeviceId, obj: StoredObject)
        requires
            old(self).wf(),
            old(self).size() < usize::MAX,
        ensures
            final(self).wf(),
            final(self).view() == old(self).view().insert(store_key(device, obj.oid()), obj),
    {
        let oid = obj.object_id();
        let (idx, key) = shard_key(device, oid);
        let ghost before = self.view();
        let prev = self.shards[idx].insert(key, obj);
        if prev.is_none() {
            self.count = self.count + 1;
        }
        assert(self.view() =~= before.insert(key, obj));
        assert forall|i: int, k: u128| 0 <= i < 256 && #[trigger] self.shards@[i]@.contains_key(k) implies shard_of(k) == i by {
            if i != idx as int {
                assert(old(self).shards@[i]@.contains_key(k));
            }
        }
    }

    /// Stores each object in turn, as `insert` does.
    pub fn bulk_insert(&mut self, objects: Vec<(DeviceId, StoredObject)>)
        requires
            old(self).wf(),
            old(self).size() + objects@.len() < usize::MAX,
        ensures
            final(self).wf(),
            final(self).view() == insert_all(old(self).view(), objects@),
    {
        let ghost all = objects@;
        let ghost start = self.view();
        let ghost size0 = self.size();
        let mut pending = objects;
        let mut objects: Vec<(DeviceId, StoredObject)> = Vec::new();
        let ghost total = all.len();
        assert(pending@ =~= all.subrange(0, total as int));
        assert(objects@ =~= all.subrange(total as int, total as int).reverse());
        while pending.len() > 0
            invariant
                total == all.len(),
                pending@.len() <= total,
                pending@ == all.subrange(0, pending@.len() as int),
                objects@ == all.subrange(pending@.len() as int, total as int).reverse(),
            decreases pending@.len(),
        {
            let ghost n = pending@.len();
            let x = pending.pop().unwrap();
            objects.push(x);
            assert(pending@ =~= all.subrange(0, pending@.len() as int));
            assert(objects@ =~= all.subrange(pending@.len() as int, total as int).reverse());
        }
        while objects.len() > 0
            invariant
                self.wf(),
                objects@.len() <= total,
                total == all.len(),
                size0 + total < usize::MAX,
                self.size() <= size0 + (total - objects@.len()),
                objects@ == all.subrange(total - objects@.len(), total as int).reverse(),
                self.view() == insert_all(start, all.subrange(0, total - objects@.len())),
            decreases objects@.len(),
        {
            let ghost n = objects@.len();
            let (device, obj) = objects.pop().unwrap();
            proof {
                let done2 = all.subrange(0, total - n + 1);
                assert(done2.drop_last() =~= all.subrange(0, total - n));
                assert(done2.last() == all[total - n]);
                assert(objects@ =~= all.subrange(total - n + 1, total as int).reverse());
            }
            let ghost before = self.view();
            self.insert(device, obj);
            proof {
                let k = store_key(device, obj.oid());
                assert(self.view().dom() =~= before.dom().insert(k));
            }
        }
        assert(all.subrange(0, total as int) =~= all);
    }

    /// Ticks the object under `key` in shard `idx`, if one is held there.
    fn tick_key(&mut self, idx: usize, key: u128, now: SystemTime, delta: Duration)
        requires
            old(self).wf(),
            idx < 256,
            shard_of(key) == idx,
        ensures
            final(self).wf(),
            final(self).view().dom() == old(self).view().dom(),
            old(self).view().dom().contains(key) ==> tick_outcome(old(self).view()[key], final(self).view()[key], now),
            forall|k: u128| k != key && #[trigger] old(self).view().dom().contains(k) ==> final(self).view()[k] == old(self).view()[k],
    {
        let ghost before = self.view();
        match self.shards[idx].remove(&key) {
            None => {
                assert(self.view() =~= before);
            },
            Some(obj) => {
                let mut obj = obj;
                obj.tick(now, delta);
                let ghost n = obj;
                self.shards[idx].insert(key, obj);
                assert(self.view() =~= before.insert(key, n));
                assert(before.dom().contains(key));
                assert(before.insert(key, n).dom() =~= before.dom());
                assert forall|i: int, k: u128| 0 <= i < 256 && #[trigger] self.shards@[i]@.contains_key(k) implies shard_of(k) == i by {
                    if i != idx as int {
                        assert(old(self).shards@[i]@.contains_key(k));
                    } else if k != key {
                        assert(old(self).shards@[i]@.contains_key(k));
                    }
                }
            },
        }
    }

    /// Ticks every object held at `now`, shard by shard, each once.
    pub fn tick_all(&mut self, now: SystemTime, delta: Duration)
        requires
            old(self).wf(),
        ensures
            final(self).wf(),
            final(self).view().dom() == old(self).view().dom(),
            forall|k: u128| #[trigger] old(self).view().dom().contains(k) ==> tick_outcome(old(self).view()[k], final(self).view()[k], now),
    {
        let mut idx: usize = 0;
        while idx < NUM_SHARDS
            invariant
                idx <= 256,
                self.wf(),
                self.view().dom() == old(self).view().dom(),
                forall|k: u128| #[trigger] old(self).view().dom().contains(k) ==> if shard_of(k) < idx {
                    tick_outcome(old(self).view()[k], self.view()[k], now)
                } else {
                    self.view()[k] == old(self).view()[k]
                },
            decreases 256 - idx,
        {
            let keys = keys_of(&self.shards[idx]);
            proof {
                assert forall|k: u128| #[trigger] self.view().dom().contains(k) && shard_of(k) == idx implies keys@.contains(k) by {
                    assert(self.shards@[idx as int]@.contains_key(k));
                }
            }
            let n = keys.len();
            let mut j: usize = 0;
            while j < n
                invariant
                    idx < 256,
                    n == keys@.len(),
                    j <= n,
                    self.wf(),
                    self.view().dom() == old(self).view().dom(),
                    forall|k: u128| #[trigger] old(self).view().dom().contains(k) && shard_of(k) == idx ==> keys@.contains(k),
                    forall|i: int| 0 <= i < n ==> shard_of(#[trigger] keys@[i]) == idx,
                    forall|k: u128| #[trigger] old(self).view().dom().contains(k) ==> if shard_of(k) < idx || (shard_of(k) == idx
                        && keys@.take(j as int).contains(k)) {
                        tick_outcome(old(self).view()[k], self.view()[k], now)
                    } else {
                        self.view()[k] == old(self).view()[k]
                    },
                decreases n - j,
            {
                let key = keys[j];
                let ghost mid = self.view();
                self.tick_key(idx, key, now, delta);
                proof {
                    assert forall|k: u128| #[trigger] old(self).view().dom().contains(k) implies if shard_of(k) < idx || (shard_of(k)
                        == idx && keys@.take(j + 1).contains(k)) {
                        tick_outcome(old(self).view()[k], self.view()[k], now)
                    } else {
                        self.view()[k] == old(self).view()[k]
                    } by {
                        if k == key {
                            assert(keys@.take(j + 1)[j as int] == k);
                            if shard_of(k) < idx || keys@.take(j as int).contains(k) {
                                lemma_tick_twice(old(self).view()[k], mid[k], self.view()[k], now);
                            }
                        } else {
                            if keys@.take(j + 1).contains(k) {
                                let t = choose|t: int| 0 <= t < j + 1 && #[trigger] keys@.take(j + 1)[t] == k;
                                assert(keys@.take(j as int)[t] == k);
                            }
                            if keys@.take(j as int).contains(k) {
                                let t = choose|t: int| 0 <= t < j && #[trigger] keys@.take(j as int)[t] == k;
                                assert(keys@.take(j + 1)[t] == k);
                            }
                        }
                    }
                }
                j = j + 1;
            }
            proof {
                assert(keys@.take(n as int) =~= keys@);
            }
            idx = idx + 1;
        }
    }

    /// The number of objects held.
    pub fn count(&self) -> (r: usize)
        requires
            self.wf(),
        ensures
            r == self.size(),
    {
        self.count
    }

    /// The object `obj_id` of `device`, if held.
    pub fn get(&self, device: DeviceId, obj_id: ObjectId) -> (r: Option<&StoredObject>)
        requires
            self.wf(),
        ensures
            match r {
                Some(o) => self.object(device, obj_id) == Some(*o),
                None => self.object(device, obj_id) is None,
            },
    {
        let (idx, key) = shard_key(device, obj_id);
        self.shards[idx].get(&key)
    }

    /// Writes a property of object `obj_id` of `device`: a client write,
    /// or with `forced` a simulation write (no priority, past the
    /// out-of-service guard).  `UnknownObject` when no such object is held.
    pub fn write_property(
        &mut self,
        device: DeviceId,
        obj_id: ObjectId,
        property_id: PropertyIdentifier,
        array_index: Option<u32>,
        value: PropertyValue,
        priority: Option<u8>,
        forced: bool,
    ) -> (r: Result<(), BacnetError>)
        requires
            old(self).wf(),
        ensures
            final(self).wf(),
            match old(self).object(device, obj_id) {
                None => r == Err::<(), BacnetError>(BacnetError::UnknownObject) && final(self).view() == old(self).view(),
                Some(o) => exists|n: StoredObject| {
                    &&& o.write_spec(property_id, value, priority, forced, n, r)
                    &&& final(self).view() == old(self).view().insert(store_key(device, obj_id), n)
                },
            },
    {
        let (idx, key) = shard_key(device, obj_id);
        let ghost before = self.view();
        match self.shards[idx].remove(&key) {
            None => {
                assert(self.view() =~= before);
                Err(BacnetError::UnknownObject)
            },
            Some(obj) => {
                let mut obj = obj;
                let ghost o = obj;
                let r = if forced {
                    obj.force_write_property(property_id, value)
                } else {
                    obj.write_property(property_id, array_index, value, priority)
                };
                let ghost n = obj;
                self.shards[idx].insert(key, obj);
                assert(self.view() =~= before.insert(key, n));
                assert(before.dom().contains(key));
                assert(before.insert(key, n).dom() =~= before.dom());
                assert forall|i: int, k: u128| 0 <= i < 256 && #[trigger] self.shards@[i]@.contains_key(k) implies shard_of(k) == i by {
                    if i != idx as int {
                        assert(old(self).shards@[i]@.contains_key(k));
                    } else if k != key {
                        assert(old(self).shards@[i]@.contains_key(k));
                    }
                }
                r
            },
        }
    }
}

impl Default for ObjectStore {
    /// An empty store.
    fn default() -> (r: ObjectStore)
        ensures
            r.wf(),
            r.view() == Map::<u128, StoredObject>::empty(),
    {
        ObjectStore::new()
    }
}

/// What ReadPropertyMultiple `ALL` lists of an object agrees with
/// ReadProperty: each listed property, read on its own, gives the value it
/// is listed with (for a device, all but the local date and time, which
/// read the clock anew).
pub proof fn lemma_listed_property_reads_back(
    o: StoredObject,
    list: Seq<(PropertyIdentifier, PValue)>,
    i: int,
    r: Result<PropertyValue, BacnetError>,
)
    requires
        o.lists(list),
        0 <= i < list.len(),
        list[i].0 != PropertyIdentifier::LocalDate,
        list[i].0 != PropertyIdentifier::LocalTime,
        o.read_spec(list[i].0, None, r),
    ensures
        r matches Ok(x) && x@ == list[i].1,
{
    match o {
        StoredObject::AnalogInput(a) => crate::object::analog_input::lemma_analog_input_list_reads_back(a),
        StoredObject::AnalogOutput(a) => crate::object::analog_output::lemma_analog_output_list_reads_back(a),
        StoredObject::AnalogValue(a) => crate::object::analog_value::lemma_analog_value_list_reads_back(a),
        StoredObject::BinaryInput(a) => crate::object::binary_input::lemma_binary_input_list_reads_back(a),
        StoredObject::BinaryOutput(a) => crate::object::binary_output::lemma_binary_output_list_reads_back(a),
        StoredObject::BinaryValue(a) => crate::object::binary_value::lemma_binary_value_list_reads_back(a),
        StoredObject::Device(d) => {
            let (secs, date, time) = choose|secs: u64, date: BacnetDate, time: BacnetTime|
                is_utc_of(secs, (date, time)) && list == d.property_list_at(date, time);
            crate::object::device::lemma_device_list_reads_back(d, date, time);
            assert(d.property(list[i].0, None) == Ok::<PValue, BacnetError>(list[i].1));
        },
        StoredObject::MultiStateInput(a) => crate::object::multistate::lemma_multistate_input_list_reads_back(a),
        StoredObject::NotificationClass(a) => crate::object::notification_class::lemma_notification_class_list_reads_back(a),
        StoredObject::Schedule(a) => crate::object::schedule::lemma_schedule_list_reads_back(a),
        StoredObject::TrendLog(a) => crate::object::trend_log::lemma_trend_log_list_reads_back(a),
    }
}

/// After an insert, the object is found under its device and identifier,
/// and every object under another key is as it was.
pub proof fn lemma_insert_then_get(before: ObjectStore, after: ObjectStore, d: DeviceId, obj: StoredObject, d2: DeviceId, o2: ObjectId)
    requires
        after.view() == before.view().insert(store_key(d, obj.oid()), obj),
    ensures
        after.object(d, obj.oid()) == Some(obj),
        store_key(d2, o2) != store_key(d, obj.oid()) ==> after.object(d2, o2) == before.object(d2, o2),
{
}

/// Inserting under a key already held replaces the object and leaves the
/// count as it was; under a new key the count grows by one.
pub proof fn lemma_insert_count(before: ObjectStore, after: ObjectStore, d: DeviceId, obj: StoredObject)
    requires
        before.wf(),
        after.view() == before.view().insert(store_key(d, obj.oid()), obj),
    ensures
        before.object(d, obj.oid()) is Some ==> after.size() == before.size(),
        before.object(d, obj.oid()) is None ==> after.size() == before.size() + 1,
{
    let k = store_key(d, obj.oid());
    assert(after.view().dom() =~= before.view().dom().insert(k));
}

/// Objects whose instances fit the 22 bits of an instance number have
/// distinct keys unless they are the same object of the same device.
pub proof fn lemma_store_key_injective(d1: DeviceId, o1: ObjectId, d2: DeviceId, o2: ObjectId)
    requires
        o1.instance < 0x400000,
        o2.instance < 0x400000,
        store_key(d1, o1) == store_key(d2, o2),
    ensures
        d1 == d2,
        o1 == o2,
{
    let t1 = object_type_code(o1.object_type) as u64;
    let t2 = object_type_code(o2.object_type) as u64;
    let i1 = o1.instance as u64;
    let i2 = o2.instance as u64;
    assert(object_key(o1) < 0x1_0000_0000_0000_0000 && object_key(o2) < 0x1_0000_0000_0000_0000);
    assert(d1.0 == d2.0 && object_key(o1) == object_key(o2));
    assert((t1 << 22u64) | i1 == (t2 << 22u64) | i2 ==> t1 == t2 && i1 == i2) by (bit_vector)
        requires t1 < 32, t2 < 32, i1 < 0x400000, i2 < 0x400000;
    crate::types::lemma_object_type_code_injective(o1.object_type, o2.object_type);
}

/// A present value written to an Analog Value reads back.
pub proof fn lemma_analog_value_read_after_write(
    o: StoredObject,
    b: u32,
    priority: Option<u8>,
    forced: bool,
    n: StoredObject,
    r: Result<(), BacnetError>,
    read: Result<PropertyValue, BacnetError>,
)
    requires
        o is AnalogValue,
        o.write_spec(PropertyIdentifier::PresentValue, PropertyValue::Real(b), priority, forced, n, r),
        n.read_spec(PropertyIdentifier::PresentValue, None, read),
    ensures
        r is Ok,
        read matches Ok(v) && v@ == PValue::Real(b),
{
}

/// An Analog Input in service refuses a client write of its present value
/// and is left unchanged; out of service, the written value reads back.
pub proof fn lemma_analog_input_present_value_guard(
    o: StoredObject,
    v: PropertyValue,
    n: StoredObject,
    r: Result<(), BacnetError>,
    read: Result<PropertyValue, BacnetError>,
)
    requires
        o is AnalogInput,
        o.write_spec(PropertyIdentifier::PresentValue, v, None, false, n, r),
        n.read_spec(PropertyIdentifier::PresentValue, None, read),
    ensures
        !o->AnalogInput_0.out_of_service ==> r == Err::<(), BacnetError>(BacnetError::WriteAccessDenied) && n == o,
        o->AnalogInput_0.out_of_service && v is Real ==> r is Ok && (read matches Ok(x) && x@ == v@),
{
}

/// A command written at priority 1 of an Analog Output is its present
/// value.
pub proof fn lemma_analog_output_top_priority_wins(
    o: StoredObject,
    b: u32,
    n: StoredObject,
    r: Result<(), BacnetError>,
    read: Result<PropertyValue, BacnetError>,
)
    requires
        o is AnalogOutput,
        o.write_spec(PropertyIdentifier::PresentValue, PropertyValue::Real(b), Some(1), false, n, r),
        n.read_spec(PropertyIdentifier::PresentValue, None, read),
    ensures
        r is Ok,
        read matches Ok(x) && x@ == PValue::Real(b),
{
    let a = n->AnalogOutput_0;
    let old_a = o->AnalogOutput_0;
    crate::object::analog_output::lemma_highest_command_wins(old_a.priority_array@, 0, b, old_a.relinquish_default);
    assert(a.priority_array@ == old_a.priority_array@.update(0, Some(b)));
}

} // verus!
