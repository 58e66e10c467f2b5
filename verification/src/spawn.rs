//! The spawn sequence journal.
//!
//! `spawn_worker` interleaves outside side effects (allocating a port,
//! starting the worker process, drawing a worker id, creating the first
//! session over HTTP) with pool mutations. Each completed effect is
//! recorded durably by the surrounding invocation framework; on replay
//! after a crash the journal is re-fed and the next action is recomputed.
//! The decision function here guarantees that a recorded effect is never
//! requested a second time — in particular, a started worker process is
//! never started again for the same logical invocation.

use vstd::prelude::*;

verus! {

/// The fields extracted from a worker's session-create response.
#[derive(Clone, Debug)]
pub struct SessionReply {
    /// Session id assigned by the worker.
    pub id: String,
    /// Creation timestamp reported by the worker.
    pub created_at: i64,
    /// Owner echoed back by the worker.
    pub user: String,
}

/// The next outside effect a spawn invocation must perform.
#[derive(Clone, Copy, Debug, PartialEq, Eq, Structural)]
pub enum SpawnAction {
    /// Run the port allocator and record the allocated port.
    AllocatePort,
    /// Start the worker process on the given port and record completion.
    StartProcess(u16),
    /// Draw a fresh worker id and record it.
    PickWorkerId,
    /// Call the worker's session-create endpoint on the given port and
    /// record the parsed reply.
    CreateSession(u16),
    /// All effects are recorded: register the worker and session in the
    /// pool and persist it.
    Commit,
}

/// The durable record of a spawn invocation's completed side effects.
#[derive(Clone, Debug)]
pub struct SpawnJournal {
    /// The allocated port, once the port allocator ran.
    pub port: Option<u16>,
    /// Whether the worker process was started.
    pub process_started: bool,
    /// The worker id drawn for this invocation.
    pub worker_id: Option<String>,
    /// The parsed session-create reply.
    pub reply: Option<SessionReply>,
}

impl SpawnJournal {
    /// Effects are recorded strictly in sequence: a later record implies
    /// every earlier one.
    pub open spec fn wf(&self) -> bool {
        &&& self.process_started ==> self.port is Some
        &&& self.worker_id is Some ==> self.process_started
        &&& self.reply is Some ==> self.worker_id is Some
    }

    /// A fresh journal with nothing recorded.
    pub fn new() -> (j: SpawnJournal)
        ensures
            j.port is None,
            !j.process_started,
            j.worker_id is None,
            j.reply is None,
            j.wf(),
    {
        SpawnJournal { port: None, process_started: false, worker_id: None, reply: None }
    }

    /// Record the allocated port.
    pub fn record_port(&mut self, port: u16)
        requires
            old(self).wf(),
            old(self).port is None,
        ensures
            final(self).wf(),
            final(self).port == Some(port),
            final(self).process_started == old(self).process_started,
            final(self).worker_id == old(self).worker_id,
            final(self).reply == old(self).reply,
    {
        self.port = Some(port);
    }

    /// Record that the worker process was started.
    pub fn record_started(&mut self)
        requires
            old(self).wf(),
            old(self).port is Some,
        ensures
            final(self).wf(),
            final(self).port == old(self).port,
            final(self).process_started,
            final(self).worker_id == old(self).worker_id,
            final(self).reply == old(self).reply,
    {
        self.process_started = true;
    }

    /// Record the worker id drawn for this invocation.
    pub fn record_worker_id(&mut self, worker_id: String)
        requires
            old(self).wf(),
            old(self).process_started,
        ensures
            final(self).wf(),
            final(self).port == old(self).port,
            final(self).process_started == old(self).process_started,
            final(self).worker_id == Some(worker_id),
            final(self).reply == old(self).reply,
    {
        self.worker_id = Some(worker_id);
    }

    /// Record the parsed session-create reply.
    pub fn record_reply(&mut self, reply: SessionReply)
        requires
            old(self).wf(),
            old(self).worker_id is Some,
        ensures
            final(self).wf(),
            final(self).port == old(self).port,
            final(self).process_started == old(self).process_started,
            final(self).worker_id == old(self).worker_id,
            final(self).reply == Some(reply),
    {
        self.reply = Some(reply);
    }

    /// Decide the next effect from what the journal already records.
    ///
    /// A recorded effect is never requested again: in particular, once
    /// `process_started` holds, the decision is never `StartProcess`, so a
    /// replayed invocation cannot start a second process.
    pub fn next_action(&self) -> (a: SpawnAction)
        requires
            self.wf(),
        ensures
            self.port is None ==> a == SpawnAction::AllocatePort,
            self.port is Some && !self.process_started ==> a == SpawnAction::StartProcess(
                self.port->0,
            ),
            self.process_started && self.worker_id is None ==> a == SpawnAction::PickWorkerId,
            self.port is Some && self.worker_id is Some && self.reply is None ==> a
                == SpawnAction::CreateSession(self.port->0),
            self.reply is Some ==> a == SpawnAction::Commit,
            self.process_started ==> !(a is StartProcess),
    {
        match self.port {
            None => SpawnAction::AllocatePort,
            Some(port) => {
                if !self.process_started {
                    SpawnAction::StartProcess(port)
                } else if self.worker_id.is_none() {
                    SpawnAction::PickWorkerId
                } else if self.reply.is_none() {
                    SpawnAction::CreateSession(port)
                } else {
                    SpawnAction::Commit
                }
            },
        }
    }
}

} // verus!
