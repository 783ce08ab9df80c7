//! What the socket patterns are made of: queues, routing tables, permits.
pub mod channel;
pub mod distributor;
pub mod fair_queue;
pub mod framing;
pub mod incoming_orchestrator;
pub mod item;
pub mod load_balancer;
pub mod pipe_coordinator;
pub mod pipe_table;
pub mod router;
