//! Agent views: checking them, and applying them to the agents of the panel.

pub mod apply;
pub mod entry;
pub mod filter_laws;
pub mod order;
pub mod sort_laws;
pub mod validation;
pub mod validation_laws;
pub mod value;
