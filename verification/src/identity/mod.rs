//! Agent identity.
pub mod files;
