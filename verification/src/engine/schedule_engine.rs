//! The schedule engine: each tick, every schedule output copies the present
//! value of its schedule to a property of its target object.
use vstd::prelude::*;
use std::time::SystemTime;
use crate::object::property::BacnetObject;
use crate::object::store::{store_key, ObjectStore, StoredObject};
use crate::types::{BacnetError, DeviceId, ObjectId, PValue, PropertyIdentifier, PropertyValue};

verus! {

/// A schedule's binding to the property it drives.
#[derive(Debug, Clone, Copy)]
pub struct ScheduleOutput {
    pub schedule_device: DeviceId,
    pub schedule_object: ObjectId,
    pub target_device: DeviceId,
    pub target_object: ObjectId,
    pub target_property: PropertyIdentifier,
}

pub struct ScheduleEngine {
    pub outputs: Vec<ScheduleOutput>,
}

/// Whether `after` is what one output leaves of `before`: when the schedule
/// object is held and reads a present value other than Null, and the target
/// object is held, the value is written to the target property (at no
/// priority, whatever the write answers); otherwise nothing changes.
pub open spec fn output_step(before: ObjectStore, out: ScheduleOutput, after: ObjectStore) -> bool {
    &&& after.wf()
    &&& match before.object(out.schedule_device, out.schedule_object) {
        None => after.view() == before.view(),
        Some(s) => exists|read: Result<PropertyValue, BacnetError>| {
            &&& s.read_spec(PropertyIdentifier::PresentValue, None, read)
            &&& match read {
                Ok(v) => if v@ == PValue::Null {
                    after.view() == before.view()
                } else {
                    match before.object(out.target_device, out.target_object) {
                        None => after.view() == before.view(),
                        Some(t) => exists|n: StoredObject, wr: Result<(), BacnetError>| {
                            &&& t.write_spec(out.target_property, v, None, false, n, wr)
                            &&& after.view() == before.view().insert(store_key(out.target_device, out.target_object), n)
                        },
                    }
                },
                Err(_) => after.view() == before.view(),
            }
        },
    }
}

/// Whether `states` steps through `outputs` one at a time.
pub open spec fn steps_through(states: Seq<ObjectStore>, outputs: Seq<ScheduleOutput>) -> bool {
    &&& states.len() == outputs.len() + 1
    &&& forall|i: int| 0 <= i < outputs.len() ==> #[trigger] output_step(states[i], outputs[i], states[i + 1])
}

impl ScheduleEngine {
    /// An engine with no output.
    pub fn new() -> (r: ScheduleEngine)
        ensures
            r.outputs@.len() == 0,
    {
        ScheduleEngine { outputs: Vec::new() }
    }

    /// Adds an output, driven after the others.
    pub fn add_output(&mut self, output: ScheduleOutput)
        ensures
            final(self).outputs@ == old(self).outputs@.push(output),
    {
        self.outputs.push(output);
    }

    /// Drives every output in order.
    pub fn tick(&self, store: &mut ObjectStore, now: SystemTime)
        requires
            old(store).wf(),
        ensures
            final(store).wf(),
            exists|states: Seq<ObjectStore>| {
                &&& steps_through(states, self.outputs@)
                &&& states[0] == *old(store)
                &&& states[self.outputs@.len() as int] == *final(store)
            },
    {
        let ghost mut states: Seq<ObjectStore> = seq![*store];
        let n = self.outputs.len();
        let mut i: usize = 0;
        while i < n
            invariant
                n == self.outputs@.len(),
                i <= n,
                store.wf(),
                states.len() == i + 1,
                states[0] == *old(store),
                states[i as int] == *store,
                forall|k: int| 0 <= k < i ==> #[trigger] output_step(states[k], self.outputs@[k], states[k + 1]),
            decreases n - i,
        {
            let out = self.outputs[i];
            let ghost before = *store;
            let pv: Option<PropertyValue> = match store.get(out.schedule_device, out.schedule_object) {
                Some(obj) => {
                    let read = obj.read_property(PropertyIdentifier::PresentValue, None);
                    proof {
                        assert(obj.read_spec(PropertyIdentifier::PresentValue, None, read));
                    }
                    match read {
                        Ok(v) => {
                            if let PropertyValue::Null = v {
                                None
                            } else {
                                Some(v)
                            }
                        },
                        Err(_) => None,
                    }
                },
                None => None,
            };
            if let Some(v) = pv {
                if store.get(out.target_device, out.target_object).is_some() {
                    let _ = store.write_property(out.target_device, out.target_object, out.target_property, None, v, None, false);
                }
            }
            proof {
                states = states.push(*store);
                assert(output_step(before, out, *store));
            }
            i = i + 1;
        }
    }
}

} // verus!
