//! Prompts and what they are made of.
pub mod blocks;
