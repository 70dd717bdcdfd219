//! The high-level MTP API: backend-neutral types, errors, and the decisions behind listing,
//! downloading, uploading and opening.

pub mod backend;
pub mod device;
pub mod device_laws;
pub mod error;
pub mod laws;
pub mod opening;
pub mod storage;
pub mod traversal;
pub mod types;
