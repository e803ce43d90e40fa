//! Handling of pop requests: the correlation identifiers and the leases
//! that bound concurrent scans of one queue.

pub mod pop_message_processor;
pub mod queue_lock_manager;
pub mod timed_lock;
