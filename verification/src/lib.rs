//! A verified replication driver: the glue that turns a single-node
//! consensus engine into an operating multi-node replicated key/value
//! cluster.  The driver correlates client proposals with their eventual
//! commit or reject outcome, drains the engine's per-cycle ready output,
//! routes protocol messages between replicas, applies committed entries to a
//! local state machine, and grows the cluster membership from a single seed.
//!
//! The consensus engine itself is an external collaborator, reached only
//! through the trusted boundary in [`engine`]; everything the driver decides
//! - wire encoding and decoding, dispatch and resolution of proposals in
//! submission order, application of committed entries, and bootstrap
//! sequencing - is verified.

pub mod bootstrap;
pub mod codec;
pub mod driver;
pub mod engine;
pub mod node;
pub mod proposal;
pub mod signal;
