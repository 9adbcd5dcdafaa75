//! Simulator configuration, as the library reads it.  Parsing from TOML or
//! JSON happens outside.
use vstd::prelude::*;

verus! {

/// A named device profile.
#[derive(Debug, Clone)]
pub struct DeviceProfile {
    pub name: String,
    pub description: String,
}

/// One network of the simulation.
#[derive(Debug, Clone)]
pub struct NetworkConfig {
    pub id: u16,
    pub transport: TransportKind,
    pub bind: Option<String>,
    pub hub_url: Option<String>,
}

/// The transport of a network.
#[derive(Debug, Clone, Copy, PartialEq, Eq)]
pub enum TransportKind {
    BacnetIp,
    Mstp,
    BacnetSc,
}

/// A range of devices built from one profile.
#[derive(Debug, Clone)]
pub struct DeviceGroupConfig {
    /// The first and last device instance, inclusive.
    pub id_range: [u32; 2],
    pub network: u16,
    pub profile: String,
}

/// A profile: the objects it gives each device built from it.
#[derive(Debug, Clone)]
pub struct ProfileConfig {
    pub description: Option<String>,
    pub objects: Vec<ObjectSpec>,
}

/// The objects a profile gives each device: `count` objects of a type,
/// named from a prefix, with optional units.
#[derive(Debug, Clone)]
pub struct ObjectSpec {
    pub object_type: String,
    pub count: u32,
    pub name_prefix: String,
    pub units: Option<String>,
}

} // verus!
