use qm_core::cycle::{DeltaResponse, PullBatch, PushAck};
use qm_core::record::{ChangeRecord, Checkpoint, Payload, Value};
use qm_core::row::{Fields, ProgressFields, QuestionFields, TopicFields};
use qm_core::store::{LocalStore, StoreError};
use qm_core::Collection;

fn tf(name: &str) -> TopicFields {
    TopicFields {
        name: name.to_string(),
        description: Some("a description".to_string()),
        slug: "a-slug".to_string(),
        icon: None,
        color: Some("#3B82F6".to_string()),
        subtopics: None,
        order_index: 4,
        created_at: "2024-01-01T00:00:00+00:00".to_string(),
        updated_at: "2024-01-02T00:00:00+00:00".to_string(),
    }
}

fn qf(topic_id: &str) -> QuestionFields {
    QuestionFields {
        topic_id: topic_id.to_string(),
        subtopic: None,
        question_number: 1,
        question: "What does it do?".to_string(),
        answer: "It synchronizes.".to_string(),
        tags: None,
        difficulty: Some("beginner".to_string()),
        order_index: 1,
        created_at: "2024-01-01T00:00:00+00:00".to_string(),
        updated_at: "2024-01-01T00:00:00+00:00".to_string(),
    }
}

fn pf(topic_id: &str) -> ProgressFields {
    ProgressFields {
        topic_id: topic_id.to_string(),
        status: "Studying".to_string(),
        confidence_level: 2,
        times_reviewed: 3,
        times_correct: 2,
        times_incorrect: 1,
        last_reviewed_at: None,
        next_review_at: None,
        created_at: "2024-01-01T00:00:00+00:00".to_string(),
        updated_at: "2024-01-01T00:00:00+00:00".to_string(),
    }
}

fn ack_only(synced: usize) -> DeltaResponse {
    DeltaResponse {
        push: Some(PushAck { synced, conflicts: vec![] }),
        pull: None,
    }
}

fn pull_only(records: Vec<ChangeRecord>, cp: &str) -> DeltaResponse {
    DeltaResponse {
        push: None,
        pull: Some(PullBatch {
            records,
            checkpoint: Checkpoint { updated_at: cp.to_string(), id: "cur-1".to_string() },
        }),
    }
}

fn get_text(p: &Payload, key: &str) -> Option<String> {
    match p.get(&key.to_string()) {
        Some(Value::Text(s)) => Some(s.clone()),
        _ => None,
    }
}

#[test]
fn create_root_then_collect_then_confirm() {
    // Scenario: create root row, push it, acknowledge, then nothing is dirty.
    let mut store = LocalStore::new();
    store.create("r1".to_string(), Fields::Topic(tf("Root"))).unwrap();

    let changes = store.collect_local_changes();
    assert_eq!(changes.len(), 1);
    assert_eq!(changes[0].collection, Collection::Topics);
    assert_eq!(changes[0].key, "r1");
    assert_eq!(changes[0].revision, 1);
    assert!(!changes[0].deleted);
    assert_eq!(get_text(&changes[0].payload, "name").as_deref(), Some("Root"));

    let res = store.complete_sync(&changes, &ack_only(1), 100).unwrap();
    assert_eq!(res.pushed, 1);
    assert_eq!(res.pulled, 0);
    assert_eq!(res.conflicts, 0);
    assert!(res.success);
    assert_eq!(res.synced_at, 100);

    let row = store.get(Collection::Topics, &"r1".to_string()).unwrap();
    assert_eq!(row.confirmed_at, Some(100));

    assert!(store.collect_local_changes().is_empty());
}

#[test]
fn soft_delete_child_collects_tombstone_then_hard_deletes() {
    // Scenario: a soft-deleted child is pushed as a tombstone with an empty
    // payload, and the acknowledgement removes it for good.
    let mut store = LocalStore::new();
    store.create("t1".to_string(), Fields::Topic(tf("T"))).unwrap();
    store.create("q1".to_string(), Fields::Question(qf("t1"))).unwrap();
    let changes = store.collect_local_changes();
    store.complete_sync(&changes, &ack_only(2), 10).unwrap();

    assert!(store.soft_delete(Collection::Questions, &"q1".to_string(), 20));
    let row = store.get(Collection::Questions, &"q1".to_string()).unwrap();
    assert!(row.deleted);
    assert_eq!(row.revision, 2);
    assert_eq!(row.confirmed_at, None);
    assert_eq!(row.deleted_at, Some(20));

    let changes = store.collect_local_changes();
    assert_eq!(changes.len(), 1);
    assert!(changes[0].deleted);
    assert_eq!(changes[0].key, "q1");
    assert!(changes[0].payload.entries.is_empty());

    store.complete_sync(&changes, &ack_only(1), 30).unwrap();
    assert!(store.get(Collection::Questions, &"q1".to_string()).is_none());
    assert!(store.collect_local_changes().is_empty());
}

fn remote_topic(key: &str, name: &str, revision: i64) -> ChangeRecord {
    let mut p = Payload::empty();
    p.push_text("name".to_string(), name.to_string());
    p.push_text("slug".to_string(), "s".to_string());
    p.push_int("orderIndex".to_string(), 7);
    p.push_text("createdAt".to_string(), "2024-01-01T00:00:00+00:00".to_string());
    p.push_text("updatedAt".to_string(), "2024-01-03T00:00:00+00:00".to_string());
    ChangeRecord {
        collection: Collection::Topics,
        key: key.to_string(),
        payload: p,
        revision,
        deleted: false,
    }
}

fn remote_question(key: &str, topic: &str, revision: i64) -> ChangeRecord {
    let mut p = Payload::empty();
    p.push_text("topicSyncUuid".to_string(), topic.to_string());
    p.push_int("questionNumber".to_string(), 2);
    p.push_text("question".to_string(), "Q?".to_string());
    p.push_text("answer".to_string(), "A.".to_string());
    p.push_int("orderIndex".to_string(), 2);
    p.push_text("createdAt".to_string(), "2024-01-01T00:00:00+00:00".to_string());
    p.push_text("updatedAt".to_string(), "2024-01-01T00:00:00+00:00".to_string());
    ChangeRecord {
        collection: Collection::Questions,
        key: key.to_string(),
        payload: p,
        revision,
        deleted: false,
    }
}

fn tombstone(c: Collection, key: &str, revision: i64) -> ChangeRecord {
    ChangeRecord {
        collection: c,
        key: key.to_string(),
        payload: Payload::empty(),
        revision,
        deleted: true,
    }
}

#[test]
fn apply_same_batch_twice_is_idempotent() {
    let batch = vec![
        remote_question("q9", "t9", 3),
        remote_topic("t9", "Nine", 5),
        tombstone(Collection::Progress, "q0", 1),
    ];

    let mut once = LocalStore::new();
    once.apply_remote_changes(&batch, 42).unwrap();
    let mut twice = once.clone();
    twice.apply_remote_changes(&batch, 42).unwrap();
    assert_eq!(once, twice);
}

#[test]
fn apply_writes_parent_before_child() {
    // The batch lists the referencing question before its topic; the
    // applier reorders by dependency rank and both land.
    let batch = vec![remote_question("q2", "t2", 1), remote_topic("t2", "Two", 1)];
    let mut store = LocalStore::new();
    store.apply_remote_changes(&batch, 5).unwrap();

    let t = store.get(Collection::Topics, &"t2".to_string()).unwrap();
    assert_eq!(t.confirmed_at, Some(5));
    assert!(!t.deleted);
    let q = store.get(Collection::Questions, &"q2".to_string()).unwrap();
    match &q.fields {
        Fields::Question(f) => assert_eq!(f.topic_id, "t2"),
        _ => panic!("wrong collection"),
    }
}

#[test]
fn failed_apply_keeps_previous_checkpoint() {
    let mut store = LocalStore::new();
    store.save_checkpoint(Checkpoint {
        updated_at: "2024-01-01T00:00:00+00:00".to_string(),
        id: "old".to_string(),
    });

    // A topic record with no name is refused at the applier boundary.
    let mut bad = Payload::empty();
    bad.push_text("slug".to_string(), "s".to_string());
    let bad_rec = ChangeRecord {
        collection: Collection::Topics,
        key: "tX".to_string(),
        payload: bad,
        revision: 1,
        deleted: false,
    };
    let err = store
        .complete_sync(&vec![], &pull_only(vec![bad_rec], "2024-02-02T00:00:00+00:00"), 9)
        .unwrap_err();
    assert_eq!(err.field, "name");
    assert_eq!(err.key, "tX");
    assert_eq!(store.load_checkpoint().as_ref().unwrap().id, "old");

    // A clean pull moves the cursor.
    let res = store
        .complete_sync(
            &vec![],
            &pull_only(vec![remote_topic("t1", "One", 1)], "2024-02-02T00:00:00+00:00"),
            9,
        )
        .unwrap();
    assert_eq!(res.pulled, 1);
    let cp = store.load_checkpoint().as_ref().unwrap().clone();
    assert_eq!(cp.id, "cur-1");
    assert_eq!(cp.updated_at, "2024-02-02T00:00:00+00:00");
}

#[test]
fn round_trip_live_record_to_fresh_store() {
    let mut source = LocalStore::new();
    source.create("rt".to_string(), Fields::Topic(tf("Round"))).unwrap();
    let wire = source.collect_local_changes();

    let mut fresh = LocalStore::new();
    fresh.apply_remote_changes(&wire, 64).unwrap();

    let row = fresh.get(Collection::Topics, &"rt".to_string()).unwrap();
    assert_eq!(row.confirmed_at, Some(64));
    assert!(!row.deleted);
    assert_eq!(row.revision, 1);
    match &row.fields {
        Fields::Topic(f) => assert_eq!(*f, tf("Round")),
        _ => panic!("wrong collection"),
    }
}

#[test]
fn payload_omits_null_fields() {
    let mut store = LocalStore::new();
    let mut fields = tf("NoIcon");
    fields.icon = None;
    fields.description = None;
    store.create("n1".to_string(), Fields::Topic(fields)).unwrap();
    let changes = store.collect_local_changes();
    let p = &changes[0].payload;
    assert!(p.get(&"icon".to_string()).is_none());
    assert!(p.get(&"description".to_string()).is_none());
    assert_eq!(get_text(p, "color").as_deref(), Some("#3B82F6"));
}

#[test]
fn duplicate_keys_in_batch_last_wins() {
    let batch = vec![remote_topic("d1", "First", 1), remote_topic("d1", "Second", 2)];
    let mut store = LocalStore::new();
    store.apply_remote_changes(&batch, 3).unwrap();
    let row = store.get(Collection::Topics, &"d1".to_string()).unwrap();
    assert_eq!(row.revision, 2);
    match &row.fields {
        Fields::Topic(f) => assert_eq!(f.name, "Second"),
        _ => panic!("wrong collection"),
    }
}

#[test]
fn progress_upserts_under_payload_question_key() {
    let mut p = Payload::empty();
    p.push_text("questionSyncUuid".to_string(), "qk".to_string());
    p.push_text("topicSyncUuid".to_string(), "tk".to_string());
    p.push_text("status".to_string(), "Mastered".to_string());
    p.push_text("createdAt".to_string(), "2024-01-01T00:00:00+00:00".to_string());
    p.push_text("updatedAt".to_string(), "2024-01-01T00:00:00+00:00".to_string());
    let rec = ChangeRecord {
        collection: Collection::Progress,
        key: "row-id-differs".to_string(),
        payload: p,
        revision: 4,
        deleted: false,
    };
    let mut store = LocalStore::new();
    store.apply_remote_changes(&vec![rec], 1).unwrap();
    assert!(store.get(Collection::Progress, &"qk".to_string()).is_some());
    assert!(store.get(Collection::Progress, &"row-id-differs".to_string()).is_none());
}

#[test]
fn cascading_soft_delete_marks_children_dirty() {
    let mut store = LocalStore::new();
    store.create("t1".to_string(), Fields::Topic(tf("T"))).unwrap();
    store.create("q1".to_string(), Fields::Question(qf("t1"))).unwrap();
    store.create("q2".to_string(), Fields::Question(qf("t1"))).unwrap();
    store.create("q1".to_string(), Fields::Progress(pf("t1"))).unwrap();
    let pushed = store.collect_local_changes();
    store.complete_sync(&pushed, &ack_only(4), 10).unwrap();
    assert_eq!(store.pending_changes(), 0);

    store.soft_delete(Collection::Topics, &"t1".to_string(), 77);

    for (c, k) in [
        (Collection::Topics, "t1"),
        (Collection::Questions, "q1"),
        (Collection::Questions, "q2"),
        (Collection::Progress, "q1"),
    ] {
        let row = store.get(c, &k.to_string()).unwrap();
        assert!(row.deleted, "{k} should be tombstoned");
        assert_eq!(row.revision, 2);
        assert_eq!(row.confirmed_at, None);
        assert_eq!(row.deleted_at, Some(77));
    }
    let changes = store.collect_local_changes();
    assert_eq!(changes.len(), 4);
    assert!(changes.iter().all(|r| r.deleted && r.payload.entries.is_empty()));
}

#[test]
fn collect_lists_tombstones_before_live_rows() {
    let mut store = LocalStore::new();
    store.create("alive".to_string(), Fields::Topic(tf("A"))).unwrap();
    store.create("gone".to_string(), Fields::Topic(tf("G"))).unwrap();
    store.soft_delete(Collection::Topics, &"gone".to_string(), 5);

    let changes = store.collect_local_changes();
    assert_eq!(changes.len(), 2);
    assert!(changes[0].deleted);
    assert_eq!(changes[0].key, "gone");
    assert!(!changes[1].deleted);
    assert_eq!(changes[1].key, "alive");
}

#[test]
fn update_fields_bumps_revision_and_collects_once() {
    let mut store = LocalStore::new();
    store.create("u1".to_string(), Fields::Topic(tf("Before"))).unwrap();
    let pushed = store.collect_local_changes();
    store.complete_sync(&pushed, &ack_only(1), 10).unwrap();

    store.update_fields(&"u1".to_string(), Fields::Topic(tf("After"))).unwrap();
    let row = store.get(Collection::Topics, &"u1".to_string()).unwrap();
    assert_eq!(row.revision, 2);
    assert_eq!(row.confirmed_at, None);

    let changes = store.collect_local_changes();
    assert_eq!(changes.iter().filter(|r| r.key == "u1").count(), 1);
    assert_eq!(changes[0].revision, 2);
}

#[test]
fn create_duplicate_key_is_refused() {
    let mut store = LocalStore::new();
    store.create("x".to_string(), Fields::Topic(tf("X"))).unwrap();
    let err = store.create("x".to_string(), Fields::Topic(tf("X2"))).unwrap_err();
    assert_eq!(err, StoreError::DuplicateKey);
    let err = store.update_fields(&"missing".to_string(), Fields::Topic(tf("M"))).unwrap_err();
    assert_eq!(err, StoreError::NotFound);
}

#[test]
fn pending_changes_counts_dirty_rows() {
    let mut store = LocalStore::new();
    store.create("a".to_string(), Fields::Topic(tf("A"))).unwrap();
    store.create("b".to_string(), Fields::Question(qf("a"))).unwrap();
    assert_eq!(store.pending_changes(), 2);
    let pushed = store.collect_local_changes();
    store.complete_sync(&pushed, &ack_only(2), 3).unwrap();
    assert_eq!(store.pending_changes(), 0);
}

#[test]
fn sync_status_reads_checkpoint_time() {
    let mut store = LocalStore::new();
    let st = store.get_sync_status(false, None).unwrap();
    assert!(!st.configured);
    assert_eq!(st.last_sync_at, None);
    assert_eq!(st.pending_changes, 0);

    store.save_checkpoint(Checkpoint {
        updated_at: "2024-01-01T00:00:00+00:00".to_string(),
        id: "c1".to_string(),
    });
    let st = store
        .get_sync_status(true, Some("https://sync.example".to_string()))
        .unwrap();
    assert!(st.configured);
    assert!(st.authenticated);
    assert_eq!(st.last_sync_at, Some(1704067200));

    store.save_checkpoint(Checkpoint {
        updated_at: "not a timestamp".to_string(),
        id: "c2".to_string(),
    });
    assert!(store.get_sync_status(true, None).is_err());
}

#[test]
fn table_name_codec_is_closed_with_no_fallback() {
    assert_eq!(Collection::from_table_name(&"topics".to_string()), Some(Collection::Topics));
    assert_eq!(
        Collection::from_table_name(&"quiz_sessions".to_string()),
        Some(Collection::QuizSessions)
    );
    assert_eq!(Collection::from_table_name(&"bogus".to_string()), None);
    assert_eq!(Collection::Questions.table_name(), "questions");
}

#[test]
fn begin_sync_carries_checkpoint_and_changes() {
    let mut store = LocalStore::new();
    store.create("s1".to_string(), Fields::Topic(tf("S"))).unwrap();
    store.save_checkpoint(Checkpoint {
        updated_at: "2024-01-01T00:00:00+00:00".to_string(),
        id: "cp".to_string(),
    });
    let req = store.begin_sync();
    assert_eq!(req.changes.len(), 1);
    assert_eq!(req.checkpoint.as_ref().unwrap().id, "cp");
}

#[test]
fn conflicts_are_counted_not_fatal() {
    let mut store = LocalStore::new();
    store.create("c1".to_string(), Fields::Topic(tf("C"))).unwrap();
    let pushed = store.collect_local_changes();
    let resp = DeltaResponse {
        push: Some(PushAck { synced: 0, conflicts: vec!["c1".to_string()] }),
        pull: None,
    };
    let res = store.complete_sync(&pushed, &resp, 8).unwrap();
    assert!(res.success);
    assert_eq!(res.conflicts, 1);

    // The conflicted key is not confirmed: it stays dirty and is
    // retried by the next cycle with its current revision.
    let row = store.get(Collection::Topics, &"c1".to_string()).unwrap();
    assert_eq!(row.confirmed_at, None);
    let retry = store.collect_local_changes();
    assert_eq!(retry.len(), 1);
    assert_eq!(retry[0].key, "c1");
    assert_eq!(retry[0].revision, 1);
}
