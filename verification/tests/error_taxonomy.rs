use orchestrator::errors::PoolError;

#[test]
fn only_transport_errors_are_retryable() {
    assert!(PoolError::SessionNotFound.is_terminal());
    assert!(PoolError::WorkerNotFound.is_terminal());
    assert!(PoolError::WorkerPortMissing.is_terminal());
    assert!(PoolError::NoPortAvailable.is_terminal());
    assert!(PoolError::SpawnFailed.is_terminal());
    assert!(PoolError::MalformedReply.is_terminal());
    assert!(PoolError::DuplicateWorkerId.is_terminal());
    assert!(PoolError::DuplicateSessionId.is_terminal());
    assert!(!PoolError::Transport.is_terminal());
}

#[test]
fn error_messages_name_the_failure() {
    assert_eq!(
        PoolError::SessionNotFound.message(),
        "error fetching session from session_list"
    );
    assert_eq!(
        PoolError::WorkerNotFound.message(),
        "error fetching session worker from worker_list"
    );
    assert_eq!(PoolError::WorkerPortMissing.message(), "error fetching worker port");
    assert_eq!(PoolError::NoPortAvailable.message(), "no available ports");
    assert_eq!(PoolError::Transport.message(), "worker request failed");
}
