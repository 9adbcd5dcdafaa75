//! A verified BACnet protocol library: wire codecs (MS/TP, BVLL, NPDU,
//! BACnet/SC, APDU), the object model with its property rules, a sharded
//! object store, the service handlers of a simulated device, and the
//! decision logic of the transports and engines.

pub mod api;
pub mod buffers;
pub mod types;
pub mod codec;
pub mod config;
pub mod encoding;
pub mod engine;
pub mod object;
pub mod sim;
pub mod stack;
pub mod text;
pub mod transport;
