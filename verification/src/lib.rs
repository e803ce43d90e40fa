//! Coordination core of a message broker node: per-queue leases for pop
//! consumption, the identifiers that correlate delivery, acknowledgment and
//! checkpoint records, and the routing of writes on a node that may not be
//! the master.

mod clock;
pub mod failover;
pub mod processor;
pub mod records;
pub mod text;
