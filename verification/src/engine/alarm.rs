//! Event states of intrinsic reporting (ASHRAE 135 Clause 13).
use vstd::prelude::*;
use std::time::{Duration, Instant};
use crate::object::clock::{duration_at_least, duration_ge, instant_duration_since, instant_elapsed};
use crate::types::ObjectId;

verus! {

/// The event state of an object under intrinsic reporting.
#[derive(Debug, Clone, Copy, PartialEq, Eq, Structural, Default)]
pub enum EventState {
    #[default]
    Normal,
    Fault,
    OffNormal,
    HighLimit,
    LowLimit,
    LifeSafetyAlarm,
}

/// The enumeration value of an event state.
pub open spec fn alarm_state_code(s: EventState) -> u32 {
    match s {
        EventState::Normal => 0,
        EventState::Fault => 1,
        EventState::OffNormal => 2,
        EventState::HighLimit => 3,
        EventState::LowLimit => 4,
        EventState::LifeSafetyAlarm => 5,
    }
}

impl EventState {
    /// The enumeration value of this state.
    pub fn to_u32(self) -> (r: u32)
        ensures
            r == alarm_state_code(self),
    {
        match self {
            EventState::Normal => 0,
            EventState::Fault => 1,
            EventState::OffNormal => 2,
            EventState::HighLimit => 3,
            EventState::LowLimit => 4,
            EventState::LifeSafetyAlarm => 5,
        }
    }
}

/// The state an out-of-range algorithm moves an object towards, given
/// how its value compares with the limits: above the high limit, below the
/// low limit, still inside the deadband below the high limit, still inside
/// the deadband above the low limit.  A value back within the limits stays
/// in its limit state while inside that limit's deadband.
pub open spec fn out_of_range_state(
    current: EventState,
    above_high: bool,
    below_low: bool,
    in_high_deadband: bool,
    in_low_deadband: bool,
) -> EventState {
    if above_high {
        EventState::HighLimit
    } else if below_low {
        EventState::LowLimit
    } else if (current == EventState::HighLimit && in_high_deadband) || (current == EventState::LowLimit
        && in_low_deadband) {
        current
    } else {
        EventState::Normal
    }
}

/// The state an out-of-range algorithm moves an object towards.
pub fn out_of_range_target(
    current: EventState,
    above_high: bool,
    below_low: bool,
    in_high_deadband: bool,
    in_low_deadband: bool,
) -> (r: EventState)
    ensures
        r == out_of_range_state(current, above_high, below_low, in_high_deadband, in_low_deadband),
{
    if above_high {
        EventState::HighLimit
    } else if below_low {
        EventState::LowLimit
    } else {
        let in_dead = match current {
            EventState::HighLimit => in_high_deadband,
            EventState::LowLimit => in_low_deadband,
            _ => false,
        };
        if in_dead {
            current
        } else {
            EventState::Normal
        }
    }
}

/// A transition of an object's event state.
pub struct EventNotification {
    pub event_object: ObjectId,
    pub from_state: EventState,
    pub to_state: EventState,
    pub timestamp: Instant,
}

/// The time-delay gate of intrinsic reporting: a new state is only taken
/// once the object has pointed at it for `time_delay`.
pub struct AlarmTransition {
    pub current_state: EventState,
    pub time_delay: Duration,
    pub transition_start: Option<Instant>,
}

impl AlarmTransition {
    /// One evaluation towards `target` at `now`.  Reaching the current
    /// state again cancels a pending transition.  Otherwise the transition
    /// starts (unless already pending) and is taken once `time_delay` has
    /// passed since its start; taking it reports the change.  With no time
    /// delay a new target is taken at once.
    pub fn advance(&mut self, target: EventState, now: Instant, object_id: ObjectId) -> (r: Option<EventNotification>)
        ensures
            final(self).time_delay == old(self).time_delay,
            (forall|d: Duration| #[trigger] duration_ge(d, old(self).time_delay)) && target != old(self).current_state
                ==> r is Some && final(self).current_state == target,
            r matches Some(n) ==> n.from_state != n.to_state && final(self).current_state == n.to_state,
            target == old(self).current_state ==> r is None && final(self).current_state == old(self).current_state
                && final(self).transition_start is None,
            target != old(self).current_state ==> {
                let start = match old(self).transition_start {
                    Some(s) => s,
                    None => now,
                };
                if duration_ge(instant_elapsed(now, start), old(self).time_delay) {
                    &&& final(self).current_state == target
                    &&& final(self).transition_start is None
                    &&& r matches Some(n) && n.event_object == object_id && n.from_state == old(self).current_state
                        && n.to_state == target && n.timestamp == now
                } else {
                    &&& r is None
                    &&& final(self).current_state == old(self).current_state
                    &&& final(self).transition_start == Some(start)
                }
            },
    {
        if target == self.current_state {
            self.transition_start = None;
            return None;
        }
        let start = match self.transition_start {
            Some(s) => s,
            None => now,
        };
        self.transition_start = Some(start);
        let elapsed = instant_duration_since(&now, &start);
        if !duration_at_least(&elapsed, &self.time_delay) {
            return None;
        }
        let from = self.current_state;
        self.current_state = target;
        self.transition_start = None;
        Some(EventNotification { event_object: object_id, from_state: from, to_state: target, timestamp: now })
    }
}

} // verus!
