pub mod ack;
pub mod confirmed;
pub mod error;
pub mod segmentation;
pub mod unconfirmed;
