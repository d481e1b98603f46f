//! Slash commands: the typed registry and the replies of its control plane.
pub mod registry;
pub mod control;
