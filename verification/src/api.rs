//! The binary API: its messages, their storage in the shared region, the
//! message table, and the decisions of a client connection.

pub mod client;
pub mod codec;
pub mod connect;
pub mod control;
pub mod exchange;
pub mod memclnt;
pub mod memory;
pub mod message;
pub mod rpc;
pub mod table;
pub mod value;
pub mod vpe;
