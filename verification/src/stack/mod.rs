pub mod device;
pub mod dispatcher;
pub mod router;
pub mod services;
