pub mod cli;
pub mod error;
pub mod laws;
pub mod mtp;
pub mod outside;
pub mod ptp;
pub mod search;
pub mod text;
pub mod transport;
pub mod view_laws;
pub mod wire;
