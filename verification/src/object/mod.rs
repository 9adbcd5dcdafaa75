pub mod analog_input;
pub mod analog_output;
pub mod analog_value;
pub mod binary_input;
pub mod binary_output;
pub mod binary_value;
pub mod clock;
pub mod device;
pub mod multistate;
pub mod notification_class;
pub mod property;
pub mod schedule;
pub mod store;
pub mod trend_log;
