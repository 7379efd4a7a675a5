pub mod status;
pub mod timestamp;

pub use status::Status;
pub use timestamp::Timestamp;
pub mod runtime;
pub mod signal;
pub mod container;
pub mod service;
pub mod socket;
