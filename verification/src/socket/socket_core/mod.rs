//! The core of a socket: its endpoints, its pipes and its life from start to stop.
pub mod command_loop;
pub mod create;
pub mod event_processor;
pub mod pipe_manager;
pub mod shutdown;
pub mod state;
