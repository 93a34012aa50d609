//! Remote agent sources, the agent panel view and session snapshots.

pub mod agent_view;
pub mod config;
pub mod detect;
pub mod events;
pub mod flatten;
pub mod model_laws;
pub mod operation_laws;
pub mod ordered_map;
pub mod protocol;
pub mod remote_agents;
pub mod schema;
pub mod session;
pub mod session_laws;
pub mod sorting;
pub mod sorting_laws;
pub mod state;
pub mod text;
pub mod text_laws;
pub mod ui;
pub mod ui_laws;
