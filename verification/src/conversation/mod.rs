//! Conversations: their settings, their durable log, and its chronicle.
pub mod channel_settings;
pub mod chronicle;
pub mod history;
pub mod settings;
