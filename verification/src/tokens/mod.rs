//! Storage of device, user and XSTS tokens.

pub mod backend;
pub mod device;
pub mod laws;
pub mod manager;
pub mod store;
