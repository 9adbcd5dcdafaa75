//! The simulation engines' decision logic: schedules driving object
//! properties, and the event states of intrinsic reporting.
pub mod alarm;
pub mod cov;
pub mod schedule_engine;
