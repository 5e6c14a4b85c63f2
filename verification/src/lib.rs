//! The deciding core of a chain virtual machine: mempools, block building, the
//! block store's layout, the account cache, program deployment and the
//! requests of its client.
//!
//! Nothing here reads a clock, a disk or a socket. Where the virtual machine
//! needs one of them, a function returns what is to be done, and another takes
//! what came back.
pub mod account;
pub mod block;
pub mod client;
pub mod encoding;
pub mod error;
pub mod ids;
pub mod processor;
pub mod state;
pub mod text;
pub mod vm;
