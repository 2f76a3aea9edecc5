//! End-to-end tests of the checkpoint engine: content store, storage,
//! manager, registry, and diff.

use claudia_core::content_store::ContentStore;
use claudia_core::diff::compute_diff;
use claudia_core::digest::content_digest;
use claudia_core::manager::CheckpointManager;
use claudia_core::registry::ManagerRegistry;
use claudia_core::storage::CheckpointStorage;
use claudia_core::types::{
    CheckpointError, CheckpointStrategy, FileSnapshot, MessageRole, TranscriptLine, WorkingFile,
};

fn wf(path: &str, content: &str) -> WorkingFile {
    WorkingFile { path: path.to_string(), content: content.to_string() }
}

fn line(role: MessageRole, raw: &str) -> TranscriptLine {
    TranscriptLine {
        raw: raw.to_string(),
        role,
        mutates_file_system: false,
        touched_paths: Vec::new(),
        tokens: 1,
        timestamp_ms: 1000,
    }
}

fn mutation_line(raw: &str, paths: &[&str], ts: u64) -> TranscriptLine {
    TranscriptLine {
        raw: raw.to_string(),
        role: MessageRole::Assistant,
        mutates_file_system: true,
        touched_paths: paths.iter().map(|p| p.to_string()).collect(),
        tokens: 2,
        timestamp_ms: ts,
    }
}

fn manager_for(session: &str) -> CheckpointManager {
    CheckpointManager::new(
        session.to_string(),
        "proj".to_string(),
        "/tmp/proj".to_string(),
        0,
    )
}

#[test]
fn put_is_idempotent_and_stores_one_blob() {
    let mut store = ContentStore::new();
    let content = "fn main() {}".to_string();
    let h1 = store.put(&content).unwrap();
    let h2 = store.put(&content).unwrap();
    assert_eq!(h1, h2);
    assert_eq!(store.blob_count(), 1);
    // The digest names the content rather than echoing it.
    assert_eq!(h1.chars().count(), 64);
    assert_ne!(h1, content);
    let back = store.get(&h1).unwrap();
    assert_eq!(back, content);
}

#[test]
fn missing_blob_is_not_found() {
    let store = ContentStore::new();
    let absent = "0".repeat(64);
    assert!(matches!(store.get(&absent), Err(CheckpointError::NotFound)));
}

#[test]
fn save_load_round_trip() {
    let mut storage = CheckpointStorage::new();
    let files = vec![wf("src/a.rs", "alpha"), wf("src/b.rs", "beta\nlines")];
    let transcript = "{\"role\":\"user\"}\n{\"role\":\"assistant\"}".to_string();
    let cp = storage
        .save_checkpoint(
            "ck-1".to_string(),
            &"s1".to_string(),
            &"proj".to_string(),
            None,
            transcript.clone(),
            &files,
            Some("first".to_string()),
            42,
            2,
            7,
        )
        .unwrap();
    assert_eq!(cp.id, "ck-1");
    assert_eq!(cp.metadata.file_count, 2);
    let (meta, loaded, text) = storage
        .load_checkpoint(&"proj".to_string(), &"s1".to_string(), &"ck-1".to_string())
        .unwrap();
    assert_eq!(meta.id, "ck-1");
    assert_eq!(text, transcript);
    assert_eq!(loaded.len(), files.len());
    for (got, want) in loaded.iter().zip(files.iter()) {
        assert_eq!(got.file_path, want.path);
        assert_eq!(got.content, want.content);
    }
}

#[test]
fn shared_file_is_stored_once() {
    let mut storage = CheckpointStorage::new();
    let shared = vec![wf("lib.rs", "shared body")];
    for (id, when) in [("ck-1", 1u64), ("ck-2", 2u64)] {
        storage
            .save_checkpoint(
                id.to_string(),
                &"s1".to_string(),
                &"proj".to_string(),
                None,
                String::new(),
                &shared,
                None,
                when,
                0,
                0,
            )
            .unwrap();
    }
    assert_eq!(storage.record_count(), 2);
    assert_eq!(storage.blob_count(), 1);
}

#[test]
fn duplicate_checkpoint_id_is_storage_error() {
    let mut storage = CheckpointStorage::new();
    let files = vec![wf("a", "1")];
    for attempt in 0..2 {
        let r = storage.save_checkpoint(
            "same-id".to_string(),
            &"s1".to_string(),
            &"proj".to_string(),
            None,
            String::new(),
            &files,
            None,
            1,
            0,
            0,
        );
        if attempt == 0 {
            assert!(r.is_ok());
        } else {
            assert!(matches!(r, Err(CheckpointError::StorageIo(_))));
        }
    }
}

#[test]
fn load_checks_lineage() {
    let mut storage = CheckpointStorage::new();
    storage
        .save_checkpoint(
            "ck-1".to_string(),
            &"s1".to_string(),
            &"proj".to_string(),
            None,
            String::new(),
            &vec![],
            None,
            1,
            0,
            0,
        )
        .unwrap();
    // Unknown id.
    assert!(matches!(
        storage.load_checkpoint(&"proj".to_string(), &"s1".to_string(), &"nope".to_string()),
        Err(CheckpointError::NotFound)
    ));
    // Another session's checkpoint.
    assert!(matches!(
        storage.load_checkpoint(&"proj".to_string(), &"s2".to_string(), &"ck-1".to_string()),
        Err(CheckpointError::InvalidLineage)
    ));
    // Another project.
    assert!(matches!(
        storage.load_checkpoint(&"other".to_string(), &"s1".to_string(), &"ck-1".to_string()),
        Err(CheckpointError::InvalidLineage)
    ));
}

#[test]
fn cleanup_keeps_most_recent() {
    let mut storage = CheckpointStorage::new();
    for (id, content) in [("ck-1", "one"), ("ck-2", "two"), ("ck-3", "three")] {
        storage
            .save_checkpoint(
                id.to_string(),
                &"s1".to_string(),
                &"proj".to_string(),
                None,
                String::new(),
                &vec![wf("f.txt", content)],
                None,
                1,
                0,
                0,
            )
            .unwrap();
    }
    let removed = storage.cleanup_old_checkpoints(&"proj".to_string(), &"s1".to_string(), 2);
    assert_eq!(removed, 1);
    let remaining = storage.list_checkpoints(&"s1".to_string());
    let ids: Vec<&str> = remaining.iter().map(|c| c.id.as_str()).collect();
    assert_eq!(ids, vec!["ck-2", "ck-3"]);
    // Every blob a kept checkpoint references is still retrievable.
    for id in ["ck-2", "ck-3"] {
        let (_, files, _) = storage
            .load_checkpoint(&"proj".to_string(), &"s1".to_string(), &id.to_string())
            .unwrap();
        assert_eq!(files.len(), 1);
    }
    // The removed checkpoint's unshared blob was swept.
    assert_eq!(storage.blob_count(), 2);
    // A generous keep count is a no-op.
    assert_eq!(
        storage.cleanup_old_checkpoints(&"proj".to_string(), &"s1".to_string(), 10),
        0
    );
}

#[test]
fn cleanup_spares_other_sessions() {
    let mut storage = CheckpointStorage::new();
    for (id, sid) in [("a-1", "s1"), ("b-1", "s2"), ("a-2", "s1")] {
        storage
            .save_checkpoint(
                id.to_string(),
                &sid.to_string(),
                &"proj".to_string(),
                None,
                String::new(),
                &vec![wf("f", id)],
                None,
                1,
                0,
                0,
            )
            .unwrap();
    }
    let removed = storage.cleanup_old_checkpoints(&"proj".to_string(), &"s1".to_string(), 1);
    assert_eq!(removed, 1);
    assert_eq!(storage.list_checkpoints(&"s2".to_string()).len(), 1);
    let (_, files, _) = storage
        .load_checkpoint(&"proj".to_string(), &"s2".to_string(), &"b-1".to_string())
        .unwrap();
    assert_eq!(files[0].content, "b-1");
}

#[test]
fn diff_reports_added_deleted_modified() {
    let snap = |path: &str, content: &str| -> FileSnapshot {
        FileSnapshot {
            file_path: path.to_string(),
            content: content.to_string(),
            hash: content_digest(content),
            size: content.chars().count() as u64,
        }
    };
    let a = vec![snap("x", "1"), snap("y", "2")];
    let b = vec![snap("x", "1"), snap("z", "3")];
    let d = compute_diff(&"from".to_string(), &"to".to_string(), &a, &b, 10, 4);
    assert_eq!(d.deleted_files, vec!["y".to_string()]);
    assert_eq!(d.added_files, vec!["z".to_string()]);
    assert!(d.modified_files.is_empty());
    assert_eq!(d.token_delta, -6);

    // A changed file carries whole-file line counts.
    let c = vec![snap("x", "1\n2\n3")];
    let e = vec![snap("x", "one\n")];
    let d2 = compute_diff(&"from".to_string(), &"to".to_string(), &c, &e, 0, 0);
    assert_eq!(d2.modified_files.len(), 1);
    assert_eq!(d2.modified_files[0].path, "x");
    assert_eq!(d2.modified_files[0].deletions, 3);
    assert_eq!(d2.modified_files[0].additions, 1);
}

#[test]
fn per_prompt_triggers_on_user_after_buffered_changes() {
    let mut m = manager_for("s1");
    m.update_settings(true, CheckpointStrategy::PerPrompt);
    let msgs = [
        line(MessageRole::Assistant, "a1"),
        line(MessageRole::Assistant, "a2"),
        line(MessageRole::User, "u1"),
    ];
    let mut fired = Vec::new();
    for msg in msgs.iter() {
        fired.push(m.should_auto_checkpoint(msg, 0));
        m.track_message(msg);
    }
    assert_eq!(fired, vec![false, false, true]);
}

#[test]
fn strategy_matrix() {
    let mut m = manager_for("s1");
    let user = line(MessageRole::User, "u");
    // Disabled managers never fire.
    m.track_message(&user);
    assert!(!m.should_auto_checkpoint(&user, 0));
    // Manual never fires even when enabled.
    m.update_settings(true, CheckpointStrategy::Manual);
    assert!(!m.should_auto_checkpoint(&user, 0));
    // PerToolUse fires exactly on file-system mutations.
    m.update_settings(true, CheckpointStrategy::PerToolUse);
    assert!(!m.should_auto_checkpoint(&user, 0));
    assert!(m.should_auto_checkpoint(&mutation_line("t", &["a"], 5), 0));
    // Smart fires on a wide mutation or on elapsed time.
    m.update_settings(true, CheckpointStrategy::Smart);
    assert!(!m.should_auto_checkpoint(&mutation_line("t", &["a", "b", "c"], 5), 0));
    assert!(m.should_auto_checkpoint(&mutation_line("t", &["a", "b", "c", "d"], 5), 0));
    assert!(!m.should_auto_checkpoint(&user, 300000));
    assert!(m.should_auto_checkpoint(&user, 300001));
}

#[test]
fn create_restore_round_trip_through_manager() {
    let mut storage = CheckpointStorage::new();
    let mut m = manager_for("s1");
    m.track_message(&line(MessageRole::User, "hello"));
    m.track_message(&line(MessageRole::Assistant, "world"));
    let files = vec![wf("main.rs", "fn main() {}")];
    let res = m
        .create_checkpoint(&mut storage, &files, Some("base".to_string()), Vec::new(), 100)
        .unwrap();
    assert_eq!(res.checkpoint.message_index, 2);
    assert_eq!(res.files_processed, 1);
    assert_eq!(res.checkpoint.id.chars().count(), 36);
    let timeline = m.get_timeline();
    assert_eq!(timeline.total_checkpoints, 1);
    assert_eq!(timeline.current_checkpoint_id.as_deref(), Some(res.checkpoint.id.as_str()));

    m.track_message(&line(MessageRole::User, "later"));
    let (restored, restored_files, transcript) =
        m.restore_checkpoint(&storage, &res.checkpoint.id).unwrap();
    assert_eq!(restored.checkpoint.id, res.checkpoint.id);
    assert_eq!(transcript, "hello\nworld");
    assert_eq!(restored_files.len(), 1);
    assert_eq!(restored_files[0].content, "fn main() {}");
    assert_eq!(m.message_count, 2);
    assert_eq!(m.messages_since_checkpoint, 0);
}

#[test]
fn restoring_twice_is_deterministic() {
    let mut storage = CheckpointStorage::new();
    let mut m = manager_for("s1");
    m.track_message(&line(MessageRole::User, "only"));
    let files = vec![wf("a.txt", "alpha"), wf("b.txt", "beta")];
    let res = m
        .create_checkpoint(&mut storage, &files, None, Vec::new(), 1)
        .unwrap();
    let (_, first, _) = m.restore_checkpoint(&storage, &res.checkpoint.id).unwrap();
    let (_, second, _) = m.restore_checkpoint(&storage, &res.checkpoint.id).unwrap();
    assert_eq!(first.len(), second.len());
    for (x, y) in first.iter().zip(second.iter()) {
        assert_eq!(x.file_path, y.file_path);
        assert_eq!(x.content, y.content);
        assert_eq!(x.hash, y.hash);
    }
}

#[test]
fn fork_creates_independent_lineage() {
    let mut storage = CheckpointStorage::new();
    let mut m1 = manager_for("s1");
    m1.track_message(&line(MessageRole::User, "origin"));
    let files = vec![wf("shared.rs", "same content")];
    let base = m1
        .create_checkpoint(&mut storage, &files, None, Vec::new(), 1)
        .unwrap();

    let mut m2 = manager_for("s2");
    let blob_count_before = storage.blob_count();
    let forked = m2
        .fork_from_checkpoint(&mut storage, &base.checkpoint.id, Some("branch".to_string()), 2)
        .unwrap();
    assert_eq!(forked.checkpoint.session_id, "s2");
    assert_eq!(
        forked.checkpoint.parent_checkpoint_id.as_deref(),
        Some(base.checkpoint.id.as_str())
    );
    // The fork shares every blob with its source.
    assert_eq!(storage.blob_count(), blob_count_before);

    // Work in the original session does not touch the fork's lineage.
    let s2_before = storage.list_checkpoints(&"s2".to_string()).len();
    m1.track_message(&line(MessageRole::Assistant, "more"));
    m1.create_checkpoint(&mut storage, &vec![wf("new.rs", "fresh")], None, Vec::new(), 3)
        .unwrap();
    assert_eq!(storage.list_checkpoints(&"s2".to_string()).len(), s2_before);

    // Restoring the original session leaves the fork loadable and intact.
    m1.restore_checkpoint(&storage, &base.checkpoint.id).unwrap();
    let (_, fork_files, _) = storage
        .load_checkpoint(&"proj".to_string(), &"s2".to_string(), &forked.checkpoint.id)
        .unwrap();
    assert_eq!(fork_files[0].content, "same content");
}

#[test]
fn fork_of_unknown_checkpoint_fails() {
    let mut storage = CheckpointStorage::new();
    let mut m = manager_for("s2");
    let r = m.fork_from_checkpoint(&mut storage, &"missing".to_string(), None, 1);
    assert!(matches!(r, Err(CheckpointError::NotFound)));
}

#[test]
fn registry_is_idempotent_and_rejects_rebinding() {
    let mut reg = ManagerRegistry::new();
    let i = reg
        .get_or_create_manager("s1".to_string(), "proj".to_string(), "/p".to_string(), 0)
        .unwrap();
    let j = reg
        .get_or_create_manager("s1".to_string(), "proj".to_string(), "/p".to_string(), 0)
        .unwrap();
    assert_eq!(i, j);
    assert_eq!(reg.active_count(), 1);
    // The same session under a different project path is an error.
    let r = reg.get_or_create_manager("s1".to_string(), "proj".to_string(), "/q".to_string(), 0);
    assert!(matches!(r, Err(CheckpointError::InvalidLineage)));
    // A second session gets its own manager.
    reg.get_or_create_manager("s2".to_string(), "proj".to_string(), "/p".to_string(), 0)
        .unwrap();
    assert_eq!(reg.list_active_sessions(), vec!["s1".to_string(), "s2".to_string()]);
    assert!(reg.remove_manager(&"s1".to_string()));
    assert!(!reg.remove_manager(&"s1".to_string()));
    assert_eq!(reg.active_count(), 1);
}

#[test]
fn registry_take_and_put_round_trip() {
    let mut reg = ManagerRegistry::new();
    let i = reg
        .get_or_create_manager("s1".to_string(), "proj".to_string(), "/p".to_string(), 0)
        .unwrap();
    let mut storage = CheckpointStorage::new();
    let mut m = reg.take_manager(i);
    m.track_message(&line(MessageRole::User, "hi"));
    m.create_checkpoint(&mut storage, &vec![wf("f", "c")], None, Vec::new(), 1)
        .unwrap();
    reg.put_manager(i, m);
    assert_eq!(reg.manager(i).total_checkpoints, 1);
}

#[test]
fn modification_bookkeeping() {
    let mut m = manager_for("s1");
    m.track_message(&mutation_line("m1", &["a.rs", "b.rs"], 100));
    m.track_message(&line(MessageRole::Assistant, "chat"));
    m.track_message(&mutation_line("m2", &["b.rs", "c.rs"], 200));
    assert_eq!(m.get_last_modification_time(), Some(200));
    let all = m.get_files_modified_since(0);
    assert_eq!(all, vec!["a.rs".to_string(), "b.rs".to_string(), "c.rs".to_string()]);
    let recent = m.get_files_modified_since(150);
    assert_eq!(recent, vec!["b.rs".to_string(), "c.rs".to_string()]);
    assert_eq!(manager_for("s0").get_last_modification_time(), None);
}

#[test]
fn empty_checkpoint_and_empty_transcript() {
    let mut storage = CheckpointStorage::new();
    let mut m = manager_for("s1");
    let res = m
        .create_checkpoint(&mut storage, &Vec::new(), None, Vec::new(), 5)
        .unwrap();
    assert_eq!(res.checkpoint.metadata.file_count, 0);
    let (_, files, transcript) = m.restore_checkpoint(&storage, &res.checkpoint.id).unwrap();
    assert!(files.is_empty());
    assert_eq!(transcript, "");
}

#[test]
fn warnings_ride_along() {
    let mut storage = CheckpointStorage::new();
    let mut m = manager_for("s1");
    let warnings = vec!["skipped unreadable file: junk.bin".to_string()];
    let res = m
        .create_checkpoint(&mut storage, &vec![wf("ok.rs", "fine")], None, warnings.clone(), 1)
        .unwrap();
    assert_eq!(res.warnings, warnings);
}

#[test]
fn cleanup_with_generous_keep_count_changes_nothing() {
    let mut storage = CheckpointStorage::new();
    for (id, content) in [("ck-1", "one"), ("ck-2", "two")] {
        storage
            .save_checkpoint(
                id.to_string(),
                &"s1".to_string(),
                &"proj".to_string(),
                None,
                String::new(),
                &vec![wf("f.txt", content)],
                None,
                1,
                0,
                0,
            )
            .unwrap();
    }
    let records_before = storage.record_count();
    let blobs_before = storage.blob_count();
    assert_eq!(
        storage.cleanup_old_checkpoints(&"proj".to_string(), &"s1".to_string(), 2),
        0
    );
    assert_eq!(storage.record_count(), records_before);
    assert_eq!(storage.blob_count(), blobs_before);
}

#[test]
fn manager_cleanup_keeps_pointer_alive() {
    let mut storage = CheckpointStorage::new();
    let mut m = manager_for("s1");
    let mut ids = Vec::new();
    for content in ["one", "two", "three"] {
        let res = m
            .create_checkpoint(&mut storage, &vec![wf("f.txt", content)], None, Vec::new(), 1)
            .unwrap();
        ids.push(res.checkpoint.id);
    }
    // Point the timeline at the oldest checkpoint, then clean it away:
    // the pointer must not dangle.
    m.restore_checkpoint(&storage, &ids[0]).unwrap();
    let removed = m.cleanup_old_checkpoints(&mut storage, 1);
    assert_eq!(removed, 2);
    assert_eq!(m.get_timeline().current_checkpoint_id, None);
    // Pointing at the survivor, cleanup leaves the pointer alone.
    m.restore_checkpoint(&storage, &ids[2]).unwrap();
    let removed = m.cleanup_old_checkpoints(&mut storage, 1);
    assert_eq!(removed, 0);
    assert_eq!(m.get_timeline().current_checkpoint_id.as_deref(), Some(ids[2].as_str()));
}

#[test]
fn fresh_session_timeline_defaults() {
    let mut reg = ManagerRegistry::new();
    let i = reg
        .get_or_create_manager("s9".to_string(), "proj".to_string(), "/p".to_string(), 7)
        .unwrap();
    let timeline = reg.manager(i).get_timeline();
    assert_eq!(timeline.current_checkpoint_id, None);
    assert_eq!(timeline.total_checkpoints, 0);
    assert!(!timeline.auto_checkpoint_enabled);
    assert_eq!(timeline.checkpoint_strategy, CheckpointStrategy::Manual);
}

#[test]
fn digest_matches_known_vector() {
    assert_eq!(
        content_digest("abc"),
        "ba7816bf8f01cfea414140de5dae2223b00361a396177a9cb410ff61f20015ad"
    );
    assert_eq!(
        content_digest(""),
        "e3b0c44298fc1c149afbf4c8996fb92427ae41e4649b934ca495991b7852b855"
    );
}
