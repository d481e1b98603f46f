//! The processes of an agent.
pub mod chronicle;
pub mod chronicle_view;
pub mod compactor;
pub mod inbound_relay;
pub mod maintenance;
pub mod process_control;
