//! The entry points that other services call.

pub mod wss;
