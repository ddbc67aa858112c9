//! Attachment to an existing VPP-style shared region: its layout, the heap it
//! holds, and the queues in it.

pub mod heap;
pub mod queue;
pub mod region;
