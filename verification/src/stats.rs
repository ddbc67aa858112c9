//! The stats segment: its layout, a reader of it, and projections of the
//! families it publishes.

pub mod buffer_pools;
pub mod client;
pub mod clock;
pub mod directory;
pub mod error;
pub mod handoff;
pub mod layout;
pub mod looks;
pub mod memory;
pub mod node;
pub mod node_error;
pub mod protocol;
pub mod provider;
pub mod questions;
pub mod reader;
pub mod system;
