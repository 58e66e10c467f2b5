use orchestrator::spawn::{SessionReply, SpawnAction, SpawnJournal};

#[test]
fn journal_walks_the_spawn_sequence() {
    let mut j = SpawnJournal::new();
    assert_eq!(j.next_action(), SpawnAction::AllocatePort);
    j.record_port(4000);
    assert_eq!(j.next_action(), SpawnAction::StartProcess(4000));
    j.record_started();
    assert_eq!(j.next_action(), SpawnAction::PickWorkerId);
    j.record_worker_id("w1".to_string());
    assert_eq!(j.next_action(), SpawnAction::CreateSession(4000));
    j.record_reply(SessionReply {
        id: "s1".to_string(),
        created_at: 1700000000,
        user: "alice".to_string(),
    });
    assert_eq!(j.next_action(), SpawnAction::Commit);
}

#[test]
fn replay_never_restarts_a_started_process() {
    let mut j = SpawnJournal::new();
    j.record_port(4000);
    j.record_started();
    assert!(!matches!(j.next_action(), SpawnAction::StartProcess(_)));
    j.record_worker_id("w1".to_string());
    assert!(!matches!(j.next_action(), SpawnAction::StartProcess(_)));
    j.record_reply(SessionReply {
        id: "s1".to_string(),
        created_at: 0,
        user: "alice".to_string(),
    });
    assert!(!matches!(j.next_action(), SpawnAction::StartProcess(_)));
}

#[test]
fn replayed_journal_resumes_where_it_stopped() {
    let j = SpawnJournal {
        port: Some(4000),
        process_started: true,
        worker_id: Some("w1".to_string()),
        reply: None,
    };
    assert_eq!(j.next_action(), SpawnAction::CreateSession(4000));
}

#[test]
fn journal_records_reply_fields() {
    let mut j = SpawnJournal::new();
    j.record_port(4000);
    j.record_started();
    j.record_worker_id("w1".to_string());
    j.record_reply(SessionReply {
        id: "s9".to_string(),
        created_at: 42,
        user: "bob".to_string(),
    });
    let reply = j.reply.unwrap();
    assert_eq!(reply.id, "s9");
    assert_eq!(reply.created_at, 42);
    assert_eq!(reply.user, "bob");
    assert_eq!(j.port, Some(4000));
    assert!(j.process_started);
    assert_eq!(j.worker_id.as_deref(), Some("w1"));
}
