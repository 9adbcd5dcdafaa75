//! BBMD (BACnet Broadcast Management Device) tables.
use vstd::prelude::*;
use crate::types::Ipv4Endpoint;

verus! {

/// The Broadcast Distribution Table.
pub struct BdtTable(pub Vec<BdtEntry>);

/// The Foreign Device Table.
pub struct FdtTable(pub Vec<FdtEntry>);

/// A peer BBMD and its broadcast mask.
pub struct BdtEntry {
    pub address: Ipv4Endpoint,
    pub mask: [u8; 4],
}

/// A registered foreign device, its time to live and the seconds left.
pub struct FdtEntry {
    pub address: Ipv4Endpoint,
    pub ttl: u16,
    pub remaining: u16,
}

impl BdtTable {
    /// An empty table.
    pub fn new() -> (r: BdtTable)
        ensures
            r.0@.len() == 0,
    {
        BdtTable(Vec::new())
    }
}

impl FdtTable {
    /// An empty table.
    pub fn new() -> (r: FdtTable)
        ensures
            r.0@.len() == 0,
    {
        FdtTable(Vec::new())
    }
}

} // verus!
