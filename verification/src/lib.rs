//! Client side of the Netsystem binary API and stats protocols.

pub mod api;
pub mod bytes;
pub mod io;
pub mod list;
pub mod order;
pub mod shmem;
pub mod stats;
pub mod text;
