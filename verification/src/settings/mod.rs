//! Instance settings.
pub mod store;
