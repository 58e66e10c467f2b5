//! The pool data model: sessions, workers, and the aggregate pool record
//! with its invariant.

use crate::errors::PoolError;
use vstd::prelude::*;

verus! {

/// A logical client-facing browsing session, bound to one worker.
#[derive(Clone, Debug)]
pub struct Session {
    /// Unique identifier within the pool's session list.
    pub id: String,
    /// Usability flag.
    pub available: bool,
    /// Id of the owning worker; must resolve within the same pool.
    pub worker_id: String,
    /// Opaque owner/tenant identifier.
    pub user: String,
}

/// A spawned worker process exposing its own HTTP API.
#[derive(Clone, Debug)]
pub struct Worker {
    /// Unique identifier within the pool's worker list.
    pub id: String,
    /// Port its HTTP API listens on; absent only transiently before
    /// assignment.
    pub port: Option<u16>,
    /// Usability flag.
    pub available: bool,
}

/// The aggregate durable record of all sessions and workers.
///
/// Both lists are semantically mappings keyed by `id`, kept in insertion
/// order with the newest entry at the front.
#[derive(Debug)]
pub struct Pool {
    pub session_list: Vec<Session>,
    pub worker_list: Vec<Worker>,
}

/// Index of the first session in `l` whose id is `id`, or `l.len()` if
/// there is none.
pub open spec fn session_idx(l: Seq<Session>, id: Seq<char>) -> int
    decreases l.len(),
{
    if l.len() == 0 {
        0
    } else if l[0].id@ == id {
        0
    } else {
        1 + session_idx(l.drop_first(), id)
    }
}

/// Index of the first worker in `l` whose id is `id`, or `l.len()` if
/// there is none.
pub open spec fn worker_idx(l: Seq<Worker>, id: Seq<char>) -> int
    decreases l.len(),
{
    if l.len() == 0 {
        0
    } else if l[0].id@ == id {
        0
    } else {
        1 + worker_idx(l.drop_first(), id)
    }
}

/// Whether some session in `l` has id `id`.
pub open spec fn has_session(l: Seq<Session>, id: Seq<char>) -> bool {
    exists|i: int| 0 <= i < l.len() && l[i].id@ == id
}

/// Whether some session in `l` is bound to the worker with id `wid`.
pub open spec fn worker_referenced(l: Seq<Session>, wid: Seq<char>) -> bool {
    exists|i: int| 0 <= i < l.len() && l[i].worker_id@ == wid
}

/// Index of the first available worker in `l`, or `l.len()` if none is
/// available.
pub open spec fn avail_worker_idx(l: Seq<Worker>) -> int
    decreases l.len(),
{
    if l.len() == 0 {
        0
    } else if l[0].available {
        0
    } else {
        1 + avail_worker_idx(l.drop_first())
    }
}

/// Whether some worker in `l` has id `id`.
pub open spec fn has_worker(l: Seq<Worker>, id: Seq<char>) -> bool {
    exists|i: int| 0 <= i < l.len() && l[i].id@ == id
}

/// `session_idx` is in bounds, marks the first match, and equals the
/// length exactly when no session matches.
pub proof fn lemma_session_idx(l: Seq<Session>, id: Seq<char>)
    ensures
        0 <= session_idx(l, id) <= l.len(),
        session_idx(l, id) < l.len() ==> l[session_idx(l, id)].id@ == id,
        forall|j: int| 0 <= j < session_idx(l, id) ==> l[j].id@ != id,
        (session_idx(l, id) < l.len()) == has_session(l, id),
    decreases l.len(),
{
    if l.len() == 0 {
    } else if l[0].id@ == id {
    } else {
        lemma_session_idx(l.drop_first(), id);
        assert forall|j: int| 0 <= j < session_idx(l, id) implies l[j].id@ != id by {
            if j > 0 {
                assert(l.drop_first()[j - 1] == l[j]);
            }
        }
        if has_session(l, id) {
            let w = choose|i: int| 0 <= i < l.len() && l[i].id@ == id;
            assert(l.drop_first()[w - 1] == l[w]);
            assert(has_session(l.drop_first(), id));
        }
        if has_session(l.drop_first(), id) {
            let w = choose|i: int| 0 <= i < l.drop_first().len() && l.drop_first()[i].id@ == id;
            assert(l[w + 1] == l.drop_first()[w]);
            assert(has_session(l, id));
        }
    }
}

/// `worker_idx` is in bounds, marks the first match, and equals the
/// length exactly when no worker matches.
pub proof fn lemma_worker_idx(l: Seq<Worker>, id: Seq<char>)
    ensures
        0 <= worker_idx(l, id) <= l.len(),
        worker_idx(l, id) < l.len() ==> l[worker_idx(l, id)].id@ == id,
        forall|j: int| 0 <= j < worker_idx(l, id) ==> l[j].id@ != id,
        (worker_idx(l, id) < l.len()) == has_worker(l, id),
    decreases l.len(),
{
    if l.len() == 0 {
    } else if l[0].id@ == id {
    } else {
        lemma_worker_idx(l.drop_first(), id);
        assert forall|j: int| 0 <= j < worker_idx(l, id) implies l[j].id@ != id by {
            if j > 0 {
                assert(l.drop_first()[j - 1] == l[j]);
            }
        }
        if has_worker(l, id) {
            let w = choose|i: int| 0 <= i < l.len() && l[i].id@ == id;
            assert(l.drop_first()[w - 1] == l[w]);
            assert(has_worker(l.drop_first(), id));
        }
        if has_worker(l.drop_first(), id) {
            let w = choose|i: int| 0 <= i < l.drop_first().len() && l.drop_first()[i].id@ == id;
            assert(l[w + 1] == l.drop_first()[w]);
            assert(has_worker(l, id));
        }
    }
}

/// The lookup chain shared by the read-style operations: the first session
/// with the requested id, then the worker it is bound to, then that
/// worker's port. Each missing link is a distinct terminal error.
pub open spec fn spec_resolve(p: Pool, id: Seq<char>) -> Result<u16, PoolError> {
    if !has_session(p.sessions(), id) {
        Err(PoolError::SessionNotFound)
    } else {
        let wid = p.sessions()[session_idx(p.sessions(), id)].worker_id@;
        if !has_worker(p.workers(), wid) {
            Err(PoolError::WorkerNotFound)
        } else {
            match p.workers()[worker_idx(p.workers(), wid)].port {
                Some(pt) => Ok(pt),
                None => Err(PoolError::WorkerPortMissing),
            }
        }
    }
}

/// The chosen deletion behavior: the session at the first match of `id` is
/// removed, and its worker is evicted exactly when no remaining session
/// still references it.
pub open spec fn delete_applied(p: Pool, q: Pool, id: Seq<char>) -> bool {
    let si = session_idx(p.sessions(), id);
    let wid = p.sessions()[si].worker_id@;
    &&& q.sessions() == p.sessions().remove(si)
    &&& (if worker_referenced(q.sessions(), wid) {
        q.workers() == p.workers()
    } else {
        q.workers() == p.workers().remove(worker_idx(p.workers(), wid))
    })
}

/// `avail_worker_idx` is in bounds, marks the first available worker, and
/// equals the length exactly when no worker is available.
pub proof fn lemma_avail_worker_idx(l: Seq<Worker>)
    ensures
        0 <= avail_worker_idx(l) <= l.len(),
        avail_worker_idx(l) < l.len() ==> l[avail_worker_idx(l)].available,
        forall|j: int| 0 <= j < avail_worker_idx(l) ==> !l[j].available,
    decreases l.len(),
{
    if l.len() == 0 {
    } else if l[0].available {
    } else {
        lemma_avail_worker_idx(l.drop_first());
        assert forall|j: int| 0 <= j < avail_worker_idx(l) implies !l[j].available by {
            if j > 0 {
                assert(l.drop_first()[j - 1] == l[j]);
            }
        }
    }
}

impl Pool {
    /// The session list as a sequence, newest first.
    pub open spec fn sessions(&self) -> Seq<Session> {
        self.session_list@
    }

    /// The worker list as a sequence, newest first.
    pub open spec fn workers(&self) -> Seq<Worker> {
        self.worker_list@
    }

    /// The pool invariant: ids are unique within each list, and every
    /// session's `worker_id` resolves to a worker in the same pool.
    pub open spec fn wf(&self) -> bool {
        &&& forall|i: int, j: int|
            0 <= i < j < self.sessions().len() ==> self.sessions()[i].id@ != self.sessions()[j].id@
        &&& forall|i: int, j: int|
            0 <= i < j < self.workers().len() ==> self.workers()[i].id@ != self.workers()[j].id@
        &&& forall|i: int|
            0 <= i < self.sessions().len() ==> has_worker(
                self.workers(),
                #[trigger] self.sessions()[i].worker_id@,
            )
    }

    /// The empty pool, as yielded by first access when no state was
    /// persisted yet.
    pub fn empty() -> (p: Pool)
        ensures
            p.sessions() == Seq::<Session>::empty(),
            p.workers() == Seq::<Worker>::empty(),
            p.wf(),
    {
        Pool { session_list: Vec::new(), worker_list: Vec::new() }
    }

    /// Index of the first session with the given id, if any.
    pub fn find_session(&self, session_id: &String) -> (r: Option<usize>)
        ensures
            has_session(self.sessions(), session_id@) ==> (r matches Some(i) && i as int
                == session_idx(self.sessions(), session_id@)),
            !has_session(self.sessions(), session_id@) ==> r is None,
    {
        let n = self.session_list.len();
        let mut i: usize = 0;
        while i < n
            invariant
                i <= n,
                n == self.sessions().len(),
                forall|j: int| 0 <= j < i ==> self.sessions()[j].id@ != session_id@,
            decreases n - i,
        {
            if self.session_list[i].id == *session_id {
                proof {
                    lemma_session_idx(self.sessions(), session_id@);
                    assert(self.sessions()[i as int].id@ == session_id@);
                    assert(has_session(self.sessions(), session_id@));
                    assert(session_idx(self.sessions(), session_id@) == i as int);
                }
                return Some(i);
            }
            i += 1;
        }
        proof {
            lemma_session_idx(self.sessions(), session_id@);
        }
        None
    }

    /// Index of the first worker with the given id, if any.
    pub fn find_worker(&self, worker_id: &String) -> (r: Option<usize>)
        ensures
            has_worker(self.workers(), worker_id@) ==> (r matches Some(i) && i as int
                == worker_idx(self.workers(), worker_id@)),
            !has_worker(self.workers(), worker_id@) ==> r is None,
    {
        let n = self.worker_list.len();
        let mut i: usize = 0;
        while i < n
            invariant
                i <= n,
                n == self.workers().len(),
                forall|j: int| 0 <= j < i ==> self.workers()[j].id@ != worker_id@,
            decreases n - i,
        {
            if self.worker_list[i].id == *worker_id {
                proof {
                    lemma_worker_idx(self.workers(), worker_id@);
                    assert(self.workers()[i as int].id@ == worker_id@);
                    assert(has_worker(self.workers(), worker_id@));
                    assert(worker_idx(self.workers(), worker_id@) == i as int);
                }
                return Some(i);
            }
            i += 1;
        }
        proof {
            lemma_worker_idx(self.workers(), worker_id@);
        }
        None
    }

    /// Whether any session in the pool is bound to the given worker.
    pub fn references_worker(&self, worker_id: &String) -> (b: bool)
        ensures
            b == worker_referenced(self.sessions(), worker_id@),
    {
        let n = self.session_list.len();
        let mut i: usize = 0;
        while i < n
            invariant
                i <= n,
                n == self.sessions().len(),
                forall|j: int| 0 <= j < i ==> self.sessions()[j].worker_id@ != worker_id@,
            decreases n - i,
        {
            if self.session_list[i].worker_id == *worker_id {
                proof {
                    assert(self.sessions()[i as int].worker_id@ == worker_id@);
                }
                return true;
            }
            i += 1;
        }
        false
    }

    /// Index of the first available worker, if any.
    pub fn find_available_worker(&self) -> (r: Option<usize>)
        ensures
            avail_worker_idx(self.workers()) < self.workers().len() ==> (r matches Some(i)
                && i as int == avail_worker_idx(self.workers())),
            avail_worker_idx(self.workers()) == self.workers().len() ==> r is None,
    {
        let n = self.worker_list.len();
        let mut i: usize = 0;
        while i < n
            invariant
                i <= n,
                n == self.workers().len(),
                forall|j: int| 0 <= j < i ==> !self.workers()[j].available,
            decreases n - i,
        {
            if self.worker_list[i].available {
                proof {
                    lemma_avail_worker_idx(self.workers());
                    assert(avail_worker_idx(self.workers()) == i as int);
                }
                return Some(i);
            }
            i += 1;
        }
        proof {
            lemma_avail_worker_idx(self.workers());
        }
        None
    }

    /// Decide the pool invariant at run time, e.g. for state read back
    /// from the durable store before it is mutated again.
    pub fn check_wf(&self) -> (b: bool)
        ensures
            b == self.wf(),
    {
        let ns = self.session_list.len();
        let nw = self.worker_list.len();
        let mut i: usize = 0;
        while i < ns
            invariant
                i <= ns,
                ns == self.sessions().len(),
                forall|k: int|
                    0 <= k < i ==> session_idx(self.sessions(), #[trigger] self.sessions()[k].id@)
                        == k,
            decreases ns - i,
        {
            proof {
                lemma_session_idx(self.sessions(), self.sessions()[i as int].id@);
                assert(has_session(self.sessions(), self.sessions()[i as int].id@));
            }
            match self.find_session(&self.session_list[i].id) {
                Some(j) => {
                    if j != i {
                        proof {
                            let jj = j as int;
                            let ii = i as int;
                            assert(self.sessions()[jj].id@ == self.sessions()[ii].id@);
                            assert(jj < ii);
                        }
                        return false;
                    }
                },
                None => {
                    proof {
                        assert(false);
                    }
                    return false;
                },
            }
            i += 1;
        }
        let mut i: usize = 0;
        while i < nw
            invariant
                i <= nw,
                nw == self.workers().len(),
                forall|k: int|
                    0 <= k < i ==> worker_idx(self.workers(), #[trigger] self.workers()[k].id@)
                        == k,
            decreases nw - i,
        {
            proof {
                lemma_worker_idx(self.workers(), self.workers()[i as int].id@);
                assert(has_worker(self.workers(), self.workers()[i as int].id@));
            }
            match self.find_worker(&self.worker_list[i].id) {
                Some(j) => {
                    if j != i {
                        proof {
                            let jj = j as int;
                            let ii = i as int;
                            assert(self.workers()[jj].id@ == self.workers()[ii].id@);
                            assert(jj < ii);
                        }
                        return false;
                    }
                },
                None => {
                    proof {
                        assert(false);
                    }
                    return false;
                },
            }
            i += 1;
        }
        let mut i: usize = 0;
        while i < ns
            invariant
                i <= ns,
                ns == self.sessions().len(),
                forall|k: int|
                    0 <= k < i ==> has_worker(
                        self.workers(),
                        #[trigger] self.sessions()[k].worker_id@,
                    ),
            decreases ns - i,
        {
            if self.find_worker(&self.session_list[i].worker_id).is_none() {
                proof {
                    lemma_worker_idx(self.workers(), self.sessions()[i as int].worker_id@);
                }
                return false;
            }
            i += 1;
        }
        proof {
            assert forall|i: int, j: int| 0 <= i < j < self.sessions().len() implies self.sessions()[i].id@
                != self.sessions()[j].id@ by {
                lemma_session_idx(self.sessions(), self.sessions()[j].id@);
            }
            assert forall|i: int, j: int| 0 <= i < j < self.workers().len() implies self.workers()[i].id@
                != self.workers()[j].id@ by {
                lemma_worker_idx(self.workers(), self.workers()[j].id@);
            }
        }
        true
    }

    /// The lookup chain shared by the health, status, fetch and delete
    /// operations: session by id, then its worker, then that worker's
    /// port.
    pub fn resolve_worker_port(&self, session_id: &String) -> (r: Result<u16, PoolError>)
        ensures
            r == spec_resolve(*self, session_id@),
    {
        let si = match self.find_session(session_id) {
            None => {
                return Err(PoolError::SessionNotFound);
            },
            Some(si) => si,
        };
        proof {
            lemma_session_idx(self.sessions(), session_id@);
        }
        let wid = &self.session_list[si].worker_id;
        proof {
            assert(si as int == session_idx(self.sessions(), session_id@));
            assert(wid@ == self.sessions()[si as int].worker_id@);
        }
        let wi = match self.find_worker(wid) {
            None => {
                return Err(PoolError::WorkerNotFound);
            },
            Some(wi) => wi,
        };
        proof {
            lemma_worker_idx(self.workers(), wid@);
        }
        match self.worker_list[wi].port {
            Some(p) => Ok(p),
            None => Err(PoolError::WorkerPortMissing),
        }
    }

    /// Register the outcome of a successful spawn sequence: the new worker
    /// and the session bound to it, both at the front of their lists, in
    /// one mutation. Nothing changes when either id is already taken.
    pub fn register_spawn(
        &mut self,
        worker_id: String,
        port: u16,
        session_id: String,
        user: String,
    ) -> (r: Result<(), PoolError>)
        requires
            old(self).wf(),
        ensures
            final(self).wf(),
            has_worker(old(self).workers(), worker_id@) ==> r == Err::<(), PoolError>(
                PoolError::DuplicateWorkerId,
            ) && final(self).sessions() == old(self).sessions() && final(self).workers() == old(
                self,
            ).workers(),
            !has_worker(old(self).workers(), worker_id@) && has_session(
                old(self).sessions(),
                session_id@,
            ) ==> r == Err::<(), PoolError>(PoolError::DuplicateSessionId) && final(self).sessions()
                == old(self).sessions() && final(self).workers() == old(self).workers(),
            !has_worker(old(self).workers(), worker_id@) && !has_session(
                old(self).sessions(),
                session_id@,
            ) ==> r == Ok::<(), PoolError>(()) && final(self).workers() == seq![
                (Worker { id: worker_id, port: Some(port), available: true }),
            ] + old(self).workers() && final(self).sessions() == seq![
                (Session { id: session_id, available: true, worker_id, user }),
            ] + old(self).sessions(),
            // On success: exactly one new worker and one new session, and
            // the new session is bound to the new worker.
            r is Ok ==> final(self).workers().len() == old(self).workers().len() + 1
                && final(self).sessions().len() == old(self).sessions().len() + 1
                && final(self).sessions()[0].worker_id@ == final(self).workers()[0].id@
                && final(self).sessions()[0].id@ == session_id@
                && final(self).workers()[0].port == Some(port),
    {
        if self.find_worker(&worker_id).is_some() {
            return Err(PoolError::DuplicateWorkerId);
        }
        if self.find_session(&session_id).is_some() {
            return Err(PoolError::DuplicateSessionId);
        }
        let w = Worker { id: worker_id.clone(), port: Some(port), available: true };
        let s = Session { id: session_id, available: true, worker_id, user };
        self.worker_list.insert(0, w);
        self.session_list.insert(0, s);
        proof {
            let ws = seq![w] + old(self).workers();
            let ss = seq![s] + old(self).sessions();
            old(self).workers().insert_ensures(0, w);
            old(self).sessions().insert_ensures(0, s);
            assert(self.workers() =~= ws);
            assert(self.sessions() =~= ss);
            assert forall|i: int, j: int| 0 <= i < j < ws.len() implies ws[i].id@ != ws[j].id@ by {
                if i == 0 {
                    assert(ws[j] == old(self).workers()[j - 1]);
                    if ws[j].id@ == w.id@ {
                        assert(has_worker(old(self).workers(), w.id@));
                    }
                } else {
                    assert(ws[i] == old(self).workers()[i - 1]);
                    assert(ws[j] == old(self).workers()[j - 1]);
                }
            }
            assert forall|i: int, j: int| 0 <= i < j < ss.len() implies ss[i].id@ != ss[j].id@ by {
                if i == 0 {
                    assert(ss[j] == old(self).sessions()[j - 1]);
                    if ss[j].id@ == s.id@ {
                        assert(has_session(old(self).sessions(), s.id@));
                    }
                } else {
                    assert(ss[i] == old(self).sessions()[i - 1]);
                    assert(ss[j] == old(self).sessions()[j - 1]);
                }
            }
            assert forall|i: int| 0 <= i < ss.len() implies has_worker(
                ws,
                #[trigger] ss[i].worker_id@,
            ) by {
                if i == 0 {
                    assert(ws[0].id@ == ss[0].worker_id@);
                } else {
                    assert(ss[i] == old(self).sessions()[i - 1]);
                    assert(has_worker(old(self).workers(), ss[i].worker_id@));
                    let swid = ss[i].worker_id@;
                    let k = choose|k: int|
                        0 <= k < old(self).workers().len() && old(self).workers()[k].id@ == swid;
                    assert(ws[k + 1] == old(self).workers()[k]);
                }
            }
        }
        Ok(())
    }

    /// Delete a session: remove it from the session list, and evict its
    /// worker when no remaining session still references it.
    pub fn apply_delete(&mut self, session_id: &String) -> (r: Result<(), PoolError>)
        requires
            old(self).wf(),
        ensures
            final(self).wf(),
            !has_session(old(self).sessions(), session_id@) ==> r == Err::<(), PoolError>(
                PoolError::SessionNotFound,
            ) && final(self).sessions() == old(self).sessions() && final(self).workers() == old(
                self,
            ).workers(),
            has_session(old(self).sessions(), session_id@) ==> r == Ok::<(), PoolError>(())
                && delete_applied(*old(self), *final(self), session_id@),
    {
        let si = match self.find_session(session_id) {
            None => {
                return Err(PoolError::SessionNotFound);
            },
            Some(si) => si,
        };
        proof {
            lemma_session_idx(self.sessions(), session_id@);
            old(self).sessions().remove_ensures(si as int);
        }
        let s = self.session_list.remove(si);
        let wid = s.worker_id;
        proof {
            assert(wid@ == old(self).sessions()[si as int].worker_id@);
            assert forall|i: int, j: int| 0 <= i < j < self.sessions().len() implies self.sessions()[i].id@
                != self.sessions()[j].id@ by {
                let oi = if i < si as int { i } else { i + 1 };
                let oj = if j < si as int { j } else { j + 1 };
                assert(self.sessions()[i] == old(self).sessions()[oi]);
                assert(self.sessions()[j] == old(self).sessions()[oj]);
            }
        }
        let referenced = self.references_worker(&wid);
        if !referenced {
            proof {
                assert(has_worker(old(self).workers(), wid@));
            }
            let wi = match self.find_worker(&wid) {
                None => {
                    proof {
                        assert(false);
                    }
                    return Err(PoolError::WorkerNotFound);
                },
                Some(wi) => wi,
            };
            proof {
                lemma_worker_idx(self.workers(), wid@);
                old(self).workers().remove_ensures(wi as int);
            }
            self.worker_list.remove(wi);
            proof {
                assert forall|i: int, j: int| 0 <= i < j < self.workers().len() implies self.workers()[i].id@
                    != self.workers()[j].id@ by {
                    let oi = if i < wi as int { i } else { i + 1 };
                    let oj = if j < wi as int { j } else { j + 1 };
                    assert(self.workers()[i] == old(self).workers()[oi]);
                    assert(self.workers()[j] == old(self).workers()[oj]);
                }
                assert forall|i: int| 0 <= i < self.sessions().len() implies has_worker(
                    self.workers(),
                    #[trigger] self.sessions()[i].worker_id@,
                ) by {
                    let oi = if i < si as int { i } else { i + 1 };
                    assert(self.sessions()[i] == old(self).sessions()[oi]);
                    let swid = self.sessions()[i].worker_id@;
                    assert(!(swid == wid@));
                    assert(has_worker(old(self).workers(), swid));
                    let k = choose|k: int|
                        0 <= k < old(self).workers().len() && old(self).workers()[k].id@ == swid;
                    assert(old(self).workers()[wi as int].id@ == wid@);
                    if k < wi as int {
                        assert(self.workers()[k] == old(self).workers()[k]);
                    } else {
                        assert(self.workers()[k - 1] == old(self).workers()[k]);
                    }
                }
            }
        } else {
            proof {
                assert forall|i: int| 0 <= i < self.sessions().len() implies has_worker(
                    self.workers(),
                    #[trigger] self.sessions()[i].worker_id@,
                ) by {
                    let oi = if i < si as int { i } else { i + 1 };
                    assert(self.sessions()[i] == old(self).sessions()[oi]);
                    assert(has_worker(old(self).workers(), self.sessions()[i].worker_id@));
                }
            }
        }
        Ok(())
    }
}

/// Every session's `worker_id` resolves to a worker present in the same
/// pool: the referential half of the pool invariant, stated on its own.
pub proof fn lemma_every_session_has_worker(p: Pool, i: int)
    requires
        p.wf(),
        0 <= i < p.sessions().len(),
    ensures
        has_worker(p.workers(), p.sessions()[i].worker_id@),
{
}

/// After a successful spawn put the new session and the new worker at the
/// front of their lists, looking the new session up resolves to the new
/// worker's port.
pub proof fn lemma_resolve_after_spawn(p: Pool, q: Pool, w: Worker, s: Session)
    requires
        w.port is Some,
        s.worker_id@ == w.id@,
        q.sessions() == seq![s] + p.sessions(),
        q.workers() == seq![w] + p.workers(),
    ensures
        spec_resolve(q, s.id@) == Ok::<u16, PoolError>(w.port->0),
{
    assert(q.sessions()[0] == s);
    assert(q.workers()[0] == w);
    assert(has_session(q.sessions(), s.id@));
    assert(session_idx(q.sessions(), s.id@) == 0);
    assert(has_worker(q.workers(), s.worker_id@));
    assert(worker_idx(q.workers(), s.worker_id@) == 0);
}

} // verus!
