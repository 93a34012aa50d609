//! Agents observed in remote sessions.

pub mod command;
pub mod command_laws;
pub mod fleet;
pub mod fleet_laws;
pub mod host;
pub mod input;
pub mod input_laws;
pub mod operation_laws;
pub mod panel_laws;
pub mod presentation;
pub mod registry;
pub mod registry_laws;
pub mod sanitize;
pub mod stream;
pub mod stream_laws;
pub mod watcher;
pub mod supervisor;
pub mod supervisor_laws;
