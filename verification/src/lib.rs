//! A message socket library: the state machines, queues, framing rules and
//! endpoint grammar of a ZeroMQ implementation, with their contracts proved.
//!
//! The library never performs I/O and never waits. A function that would have
//! to wait says what is to be done and is told the outcome by a later call.
pub mod error;
pub mod id_map;
pub mod message;
pub mod socket;
pub mod text;
pub mod throttle;
pub mod time;
pub mod transport;
pub mod uri_map;
pub mod uring;
