pub mod apdu;
pub mod bvll;
pub mod mstp;
pub mod npdu;
pub mod sc;
