//! The command line: arguments, errors, and what the commands decide and print.

pub mod args;
pub mod commands;
pub mod error;
pub mod laws;
pub mod test_device;
pub mod value_laws;
