//! The socket patterns and the core that serves them.
pub mod connection_iface;
pub mod dealer_socket;
pub mod dish_socket;
pub mod events;
pub mod options;
pub mod patterns;
pub mod pub_socket;
pub mod pull_socket;
pub mod push_socket;
pub mod radio_socket;
pub mod rep_socket;
pub mod router_socket;
pub mod socket_core;
pub mod types;
