//! Error taxonomy of the pool lifecycle manager.
//!
//! Terminal errors mark a broken invariant or an unrecoverable resource
//! condition and must never be retried; transport errors may be retried by
//! the surrounding invocation framework.

use vstd::prelude::*;

verus! {

/// Every failure a pool operation can surface.
#[derive(Clone, Copy, Debug, PartialEq, Eq, Structural)]
pub enum PoolError {
    /// No session with the requested id is in the pool.
    SessionNotFound,
    /// A session's `worker_id` resolves to no worker in the pool.
    WorkerNotFound,
    /// The resolved worker has no port assigned yet.
    WorkerPortMissing,
    /// The port allocator exhausted its whole range.
    NoPortAvailable,
    /// The worker process could not be started.
    SpawnFailed,
    /// The worker's session-create response could not be parsed.
    MalformedReply,
    /// A worker with the same id is already registered.
    DuplicateWorkerId,
    /// A session with the same id is already registered.
    DuplicateSessionId,
    /// Sending or reading an HTTP exchange with a worker failed.
    Transport,
}

impl PoolError {
    /// Whether the error is terminal (non-retryable). Only transport
    /// failures may be retried by the surrounding invocation framework.
    pub fn is_terminal(&self) -> (r: bool)
        ensures
            r == !(*self is Transport),
    {
        match self {
            PoolError::Transport => false,
            _ => true,
        }
    }

    /// A fixed human-readable message for each error.
    pub fn message(&self) -> (m: &'static str)
        ensures
            *self is SessionNotFound ==> m@ == "error fetching session from session_list"@,
            *self is WorkerNotFound ==> m@ == "error fetching session worker from worker_list"@,
            *self is WorkerPortMissing ==> m@ == "error fetching worker port"@,
            *self is NoPortAvailable ==> m@ == "no available ports"@,
            *self is SpawnFailed ==> m@ == "error starting worker process"@,
            *self is MalformedReply ==> m@ == "invalid session-create response"@,
            *self is DuplicateWorkerId ==> m@ == "worker id already registered"@,
            *self is DuplicateSessionId ==> m@ == "session id already registered"@,
            *self is Transport ==> m@ == "worker request failed"@,
    {
        match self {
            PoolError::SessionNotFound => "error fetching session from session_list",
            PoolError::WorkerNotFound => "error fetching session worker from worker_list",
            PoolError::WorkerPortMissing => "error fetching worker port",
            PoolError::NoPortAvailable => "no available ports",
            PoolError::SpawnFailed => "error starting worker process",
            PoolError::MalformedReply => "invalid session-create response",
            PoolError::DuplicateWorkerId => "worker id already registered",
            PoolError::DuplicateSessionId => "session id already registered",
            PoolError::Transport => "worker request failed",
        }
    }
}

} // verus!
