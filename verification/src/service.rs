//! The services of the gateway.

pub mod registry;
pub mod session;
pub mod status;
pub mod wss;
