//! Transports that carry the protocol.

pub mod virtual_device;
