//! Addresses, endpoint grammar and the connection state machines.
pub mod address;
pub mod inproc;
pub mod ipc;
pub mod listener;
pub mod tcp;
pub mod udp;
pub mod udp_endpoint;
