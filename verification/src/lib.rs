//! Core of a real-time event gateway: a registry of per-user connections,
//! event fan-out, presence updates and the state machine of one session.

pub mod controllers;
pub mod decimal;
pub mod json;
pub mod laws;
pub mod service;
