//! What leaves for a model provider and what is kept of it.
pub mod history;

pub mod history_repair;
pub mod record;
