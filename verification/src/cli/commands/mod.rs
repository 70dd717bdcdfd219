//! The commands.

pub mod doctor;
pub mod folder_coverage;
pub mod folder_download;
pub mod folder_plan;
pub mod get;
pub mod local_names;
pub mod ls;
pub mod probe;
pub mod reset;
