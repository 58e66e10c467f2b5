//! Worker-pool lifecycle manager for ephemeral browser-automation workers.
//!
//! The library holds the verified core: the pool data model (sessions and
//! workers with their joint invariant), the lookup chain shared by the
//! read-style operations, the mutation protocol for spawning and deleting,
//! the journal that keeps a spawn sequence idempotent under replay, and the
//! port-scan decision machine. The surrounding process (HTTP gateway, the
//! durable-execution runtime, process spawning) drives these functions and
//! performs the outside work they decide on.

pub mod errors;
pub mod pool;
pub mod ports;
pub mod reply;
pub mod spawn;
