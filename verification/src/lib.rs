//! The logic of a plugin that bridges a Lutron Caseta Smart Bridge Pro into
//! HomeCore.

pub mod bridge;
pub mod bridge_laws;
pub mod config;
pub mod device;
pub mod double;
pub mod import;
pub mod import_laws;
pub mod json;
pub mod json_laws;
pub mod lip;
pub mod paths;
pub mod report_laws;
pub mod session;
pub mod session_laws;
pub mod startup;
pub mod startup_laws;
pub mod text;
