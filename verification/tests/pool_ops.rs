use orchestrator::errors::PoolError;
use orchestrator::pool::{Pool, Session, Worker};

fn spawned_pool() -> Pool {
    let mut pool = Pool::empty();
    let r = pool.register_spawn(
        "w1".to_string(),
        4000,
        "s1".to_string(),
        "alice".to_string(),
    );
    assert!(r.is_ok());
    pool
}

#[test]
fn spawn_registers_linked_pair() {
    let pool = spawned_pool();
    assert_eq!(pool.session_list.len(), 1);
    assert_eq!(pool.worker_list.len(), 1);
    assert_eq!(pool.session_list[0].id, "s1");
    assert_eq!(pool.session_list[0].worker_id, pool.worker_list[0].id);
    assert_eq!(pool.worker_list[0].id, "w1");
    assert_eq!(pool.worker_list[0].port, Some(4000));
    assert!(pool.session_list[0].available);
    assert!(pool.worker_list[0].available);
    assert_eq!(pool.session_list[0].user, "alice");
}

#[test]
fn spawn_inserts_at_front() {
    let mut pool = spawned_pool();
    let r = pool.register_spawn("w2".to_string(), 4001, "s2".to_string(), "bob".to_string());
    assert!(r.is_ok());
    assert_eq!(pool.session_list[0].id, "s2");
    assert_eq!(pool.session_list[1].id, "s1");
    assert_eq!(pool.worker_list[0].id, "w2");
    assert_eq!(pool.worker_list[1].id, "w1");
}

#[test]
fn spawn_duplicate_worker_id_rejected() {
    let mut pool = spawned_pool();
    let r = pool.register_spawn("w1".to_string(), 4002, "s2".to_string(), "bob".to_string());
    assert_eq!(r, Err(PoolError::DuplicateWorkerId));
    assert_eq!(pool.session_list.len(), 1);
    assert_eq!(pool.worker_list.len(), 1);
}

#[test]
fn spawn_duplicate_session_id_rejected() {
    let mut pool = spawned_pool();
    let r = pool.register_spawn("w2".to_string(), 4002, "s1".to_string(), "bob".to_string());
    assert_eq!(r, Err(PoolError::DuplicateSessionId));
    assert_eq!(pool.session_list.len(), 1);
    assert_eq!(pool.worker_list.len(), 1);
}

#[test]
fn resolve_after_spawn_returns_new_worker_port() {
    let pool = spawned_pool();
    assert_eq!(pool.resolve_worker_port(&"s1".to_string()), Ok(4000));
}

#[test]
fn resolve_unknown_session_not_found() {
    let pool = Pool::empty();
    assert_eq!(
        pool.resolve_worker_port(&"nope".to_string()),
        Err(PoolError::SessionNotFound)
    );
}

#[test]
fn resolve_dangling_worker_reference() {
    let pool = Pool {
        session_list: vec![Session {
            id: "s1".to_string(),
            available: true,
            worker_id: "ghost".to_string(),
            user: "alice".to_string(),
        }],
        worker_list: vec![],
    };
    assert_eq!(
        pool.resolve_worker_port(&"s1".to_string()),
        Err(PoolError::WorkerNotFound)
    );
}

#[test]
fn resolve_worker_without_port() {
    let pool = Pool {
        session_list: vec![Session {
            id: "s1".to_string(),
            available: true,
            worker_id: "w1".to_string(),
            user: "alice".to_string(),
        }],
        worker_list: vec![Worker {
            id: "w1".to_string(),
            port: None,
            available: true,
        }],
    };
    assert_eq!(
        pool.resolve_worker_port(&"s1".to_string()),
        Err(PoolError::WorkerPortMissing)
    );
}

#[test]
fn delete_unknown_session_not_found() {
    let mut pool = spawned_pool();
    let r = pool.apply_delete(&"nope".to_string());
    assert_eq!(r, Err(PoolError::SessionNotFound));
    assert_eq!(pool.session_list.len(), 1);
    assert_eq!(pool.worker_list.len(), 1);
}

#[test]
fn delete_evicts_unreferenced_worker() {
    let mut pool = spawned_pool();
    let r = pool.apply_delete(&"s1".to_string());
    assert_eq!(r, Ok(()));
    assert_eq!(pool.session_list.len(), 0);
    assert_eq!(pool.worker_list.len(), 0);
}

#[test]
fn delete_keeps_worker_still_referenced() {
    let worker = Worker {
        id: "w1".to_string(),
        port: Some(4000),
        available: true,
    };
    let session = |id: &str| Session {
        id: id.to_string(),
        available: true,
        worker_id: "w1".to_string(),
        user: "alice".to_string(),
    };
    let mut pool = Pool {
        session_list: vec![session("s1"), session("s2")],
        worker_list: vec![worker],
    };
    assert_eq!(pool.apply_delete(&"s1".to_string()), Ok(()));
    assert_eq!(pool.session_list.len(), 1);
    assert_eq!(pool.worker_list.len(), 1);
    assert_eq!(pool.apply_delete(&"s2".to_string()), Ok(()));
    assert_eq!(pool.session_list.len(), 0);
    assert_eq!(pool.worker_list.len(), 0);
}

#[test]
fn every_session_resolves_after_operations() {
    let mut pool = Pool::empty();
    assert!(pool
        .register_spawn("w1".to_string(), 4000, "s1".to_string(), "alice".to_string())
        .is_ok());
    assert!(pool
        .register_spawn("w2".to_string(), 4001, "s2".to_string(), "bob".to_string())
        .is_ok());
    assert!(pool
        .register_spawn("w3".to_string(), 4002, "s3".to_string(), "carol".to_string())
        .is_ok());
    assert_eq!(pool.apply_delete(&"s2".to_string()), Ok(()));
    for s in &pool.session_list {
        assert!(pool.resolve_worker_port(&s.id).is_ok());
    }
}

#[test]
fn session_lifecycle_roundtrip() {
    let mut pool = Pool::empty();
    let r = pool.register_spawn(
        "w1".to_string(),
        4001,
        "s1".to_string(),
        "alice".to_string(),
    );
    assert!(r.is_ok());
    assert_eq!(pool.resolve_worker_port(&"s1".to_string()), Ok(4001));
    assert_eq!(pool.apply_delete(&"s1".to_string()), Ok(()));
    assert_eq!(
        pool.resolve_worker_port(&"s1".to_string()),
        Err(PoolError::SessionNotFound)
    );
}

#[test]
fn find_available_worker_skips_busy() {
    let worker = |id: &str, available: bool| Worker {
        id: id.to_string(),
        port: Some(4000),
        available,
    };
    let pool = Pool {
        session_list: vec![],
        worker_list: vec![worker("w1", false), worker("w2", true), worker("w3", true)],
    };
    assert_eq!(pool.find_available_worker(), Some(1));
    let empty = Pool::empty();
    assert_eq!(empty.find_available_worker(), None);
}

#[test]
fn find_session_first_match() {
    let pool = spawned_pool();
    assert_eq!(pool.find_session(&"s1".to_string()), Some(0));
    assert_eq!(pool.find_session(&"zzz".to_string()), None);
    assert_eq!(pool.find_worker(&"w1".to_string()), Some(0));
    assert_eq!(pool.find_worker(&"zzz".to_string()), None);
}

#[test]
fn references_worker_sees_bound_sessions() {
    let pool = spawned_pool();
    assert!(pool.references_worker(&"w1".to_string()));
    assert!(!pool.references_worker(&"w2".to_string()));
}
