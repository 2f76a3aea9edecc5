//! The per-session checkpoint manager: it buffers transcript lines,
//! decides auto-checkpoint triggers, creates, restores and forks
//! checkpoints, and keeps the session's timeline pointer.

use vstd::prelude::*;
use crate::ids::new_id_string;
use crate::storage::{
    contents_of, no_collision, paths_unique, refs_match, snapshots_match, CheckpointStorage,
};
use crate::types::{
    Checkpoint, CheckpointError, CheckpointMetadata, CheckpointResult, CheckpointStrategy,
    FileSnapshot, MessageRole, SessionTimeline, TranscriptLine, WorkingFile,
};

verus! {

/// Buffered messages that arm the Smart strategy.
pub const SMART_MESSAGE_THRESHOLD: u64 = 10;

/// A tool mutation touching more paths than this arms the Smart strategy.
pub const SMART_FILES_THRESHOLD: u64 = 3;

/// Elapsed milliseconds since the last checkpoint that arm the Smart
/// strategy.
pub const SMART_TIME_THRESHOLD_MS: u64 = 300000;

/// One recorded file-system mutation: when it happened and what it touched.
#[derive(Debug)]
pub struct ModEvent {
    pub timestamp_ms: u64,
    pub paths: Vec<String>,
}

/// Per-session orchestrator state. One manager exists per session; its
/// operations never run concurrently for one session.
#[derive(Debug)]
pub struct CheckpointManager {
    pub session_id: String,
    pub project_id: String,
    pub project_path: String,
    pub current_checkpoint_id: Option<String>,
    pub total_checkpoints: u64,
    pub auto_checkpoint_enabled: bool,
    pub strategy: CheckpointStrategy,
    /// Every tracked line, joined with newlines, since the last restore.
    pub transcript: String,
    /// How many lines `transcript` holds.
    pub message_count: u64,
    /// Lines tracked since the last checkpoint (the buffer baseline).
    pub messages_since_checkpoint: u64,
    pub total_tokens: u64,
    pub last_checkpoint_ms: u64,
    /// Recorded file-system mutations, in tracking order.
    pub mod_events: Vec<ModEvent>,
}

/// What the active strategy decides for a candidate line: Manual never
/// fires; PerPrompt fires on a user prompt after buffered changes;
/// PerToolUse fires on a completed file-system mutation; Smart fires when
/// messages, touched files, or elapsed time pass their thresholds. A
/// disabled manager never fires.
pub open spec fn should_auto_spec(
    m: CheckpointManager,
    line: TranscriptLine,
    now_ms: u64,
) -> bool {
    if !m.auto_checkpoint_enabled {
        false
    } else {
        match m.strategy {
            CheckpointStrategy::Manual => false,
            CheckpointStrategy::PerPrompt => line.role == MessageRole::User
                && m.messages_since_checkpoint > 0,
            CheckpointStrategy::PerToolUse => line.mutates_file_system,
            CheckpointStrategy::Smart => m.messages_since_checkpoint >= SMART_MESSAGE_THRESHOLD
                || (line.mutates_file_system && line.touched_paths@.len()
                    > SMART_FILES_THRESHOLD) || (now_ms > m.last_checkpoint_ms && now_ms
                - m.last_checkpoint_ms > SMART_TIME_THRESHOLD_MS),
        }
    }
}

/// Path view `s` appears in some recorded mutation at or after `since`.
pub open spec fn path_in_events(events: Seq<ModEvent>, since: u64, s: Seq<char>) -> bool {
    exists|i: int, k: int|
        #![trigger events[i].paths@[k]]
        0 <= i < events.len() && events[i].timestamp_ms >= since && 0 <= k
            < events[i].paths@.len() && events[i].paths@[k]@ == s
}

/// The timeline pointer names an existing checkpoint or is None — the
/// data-model invariant of `current_checkpoint_id`.
pub open spec fn pointer_live(m: CheckpointManager, st: CheckpointStorage) -> bool {
    match m.current_checkpoint_id {
        None => true,
        Some(id) => st.has_record(id@),
    }
}

/// Clones an optional string by value.
fn clone_opt_string(v: &Option<String>) -> (r: Option<String>)
    ensures
        r == *v,
{
    match v {
        None => None,
        Some(s) => Some(s.clone()),
    }
}

impl CheckpointManager {
    /// The buffer baseline never runs ahead of the line count.
    pub open spec fn wf(self) -> bool {
        self.messages_since_checkpoint <= self.message_count
    }

    /// A fresh manager: no checkpoints, manual strategy, auto-checkpoint
    /// disabled, empty buffer.
    pub fn new(
        session_id: String,
        project_id: String,
        project_path: String,
        now_ms: u64,
    ) -> (r: CheckpointManager)
        ensures
            r.wf(),
            r.session_id == session_id,
            r.project_id == project_id,
            r.project_path == project_path,
            r.current_checkpoint_id is None,
            r.total_checkpoints == 0,
            r.auto_checkpoint_enabled == false,
            r.strategy == CheckpointStrategy::Manual,
            r.transcript@.len() == 0,
            r.message_count == 0,
            r.messages_since_checkpoint == 0,
            r.total_tokens == 0,
            r.last_checkpoint_ms == now_ms,
            r.mod_events@.len() == 0,
    {
        CheckpointManager {
            session_id,
            project_id,
            project_path,
            current_checkpoint_id: None,
            total_checkpoints: 0,
            auto_checkpoint_enabled: false,
            strategy: CheckpointStrategy::Manual,
            transcript: String::new(),
            message_count: 0,
            messages_since_checkpoint: 0,
            total_tokens: 0,
            last_checkpoint_ms: now_ms,
            mod_events: Vec::new(),
        }
    }

    /// The session's timeline, as a read projection of this manager.
    pub fn get_timeline(&self) -> (r: SessionTimeline)
        ensures
            r.session_id == self.session_id,
            r.project_id == self.project_id,
            r.current_checkpoint_id == self.current_checkpoint_id,
            r.total_checkpoints == self.total_checkpoints,
            r.auto_checkpoint_enabled == self.auto_checkpoint_enabled,
            r.checkpoint_strategy == self.strategy,
    {
        SessionTimeline {
            session_id: self.session_id.clone(),
            project_id: self.project_id.clone(),
            current_checkpoint_id: clone_opt_string(&self.current_checkpoint_id),
            total_checkpoints: self.total_checkpoints,
            auto_checkpoint_enabled: self.auto_checkpoint_enabled,
            checkpoint_strategy: self.strategy,
        }
    }

    /// Switches the auto-checkpoint flag and strategy; nothing else moves.
    pub fn update_settings(&mut self, auto_checkpoint_enabled: bool, strategy: CheckpointStrategy)
        ensures
            *final(self) == (CheckpointManager {
                auto_checkpoint_enabled,
                strategy,
                ..*old(self)
            }),
    {
        self.auto_checkpoint_enabled = auto_checkpoint_enabled;
        self.strategy = strategy;
    }

    /// Appends one transcript line to the buffer: the raw text joins the
    /// transcript (newline-separated), the counters advance, tokens
    /// accumulate (saturating), and a file-system mutation is recorded
    /// with its timestamp and touched paths.
    pub fn track_message(&mut self, line: &TranscriptLine)
        requires
            old(self).wf(),
            old(self).message_count < u64::MAX,
        ensures
            final(self).wf(),
            final(self).transcript@ == if old(self).transcript@.len() == 0 {
                line.raw@
            } else {
                old(self).transcript@ + seq!['\n'] + line.raw@
            },
            final(self).message_count == old(self).message_count + 1,
            final(self).messages_since_checkpoint == old(self).messages_since_checkpoint + 1,
            final(self).total_tokens == if old(self).total_tokens + line.tokens > u64::MAX {
                u64::MAX as int
            } else {
                old(self).total_tokens + line.tokens
            },
            if line.mutates_file_system {
                &&& final(self).mod_events@.len() == old(self).mod_events@.len() + 1
                &&& final(self).mod_events@.drop_last() == old(self).mod_events@
                &&& final(self).mod_events@.last().timestamp_ms == line.timestamp_ms
                &&& final(self).mod_events@.last().paths@ == line.touched_paths@
            } else {
                final(self).mod_events@ == old(self).mod_events@
            },
            final(self).session_id == old(self).session_id,
            final(self).project_id == old(self).project_id,
            final(self).project_path == old(self).project_path,
            final(self).current_checkpoint_id == old(self).current_checkpoint_id,
            final(self).total_checkpoints == old(self).total_checkpoints,
            final(self).auto_checkpoint_enabled == old(self).auto_checkpoint_enabled,
            final(self).strategy == old(self).strategy,
            final(self).last_checkpoint_ms == old(self).last_checkpoint_ms,
    {
        if !self.transcript.as_str().is_empty() {
            proof {
                reveal_strlit("\n");
            }
            crate::strutil::push_str(&mut self.transcript, "\n");
            proof {
                assert("\n"@ =~= seq!['\n']);
            }
        }
        crate::strutil::push_str(&mut self.transcript, line.raw.as_str());
        proof {
            if old(self).transcript@.len() == 0 {
                assert(self.transcript@ =~= line.raw@);
            } else {
                assert(self.transcript@ =~= old(self).transcript@ + seq!['\n'] + line.raw@);
            }
        }
        self.message_count = self.message_count + 1;
        self.messages_since_checkpoint = self.messages_since_checkpoint + 1;
        self.total_tokens = self.total_tokens.saturating_add(line.tokens);
        if line.mutates_file_system {
            let paths = clone_string_vec(&line.touched_paths);
            self.mod_events.push(ModEvent { timestamp_ms: line.timestamp_ms, paths });
            proof {
                assert(self.mod_events@.drop_last() =~= old(self).mod_events@);
            }
        }
    }

    /// Whether the active strategy takes a checkpoint for this candidate
    /// line, exactly as `should_auto_spec` lays it out.
    pub fn should_auto_checkpoint(&self, line: &TranscriptLine, now_ms: u64) -> (r: bool)
        ensures
            r == should_auto_spec(*self, *line, now_ms),
    {
        if !self.auto_checkpoint_enabled {
            return false;
        }
        match self.strategy {
            CheckpointStrategy::Manual => false,
            CheckpointStrategy::PerPrompt => matches!(line.role, MessageRole::User)
                && self.messages_since_checkpoint > 0,
            CheckpointStrategy::PerToolUse => line.mutates_file_system,
            CheckpointStrategy::Smart => {
                if self.messages_since_checkpoint >= SMART_MESSAGE_THRESHOLD {
                    true
                } else if line.mutates_file_system && line.touched_paths.len() as u64
                    > SMART_FILES_THRESHOLD {
                    true
                } else {
                    now_ms > self.last_checkpoint_ms && now_ms - self.last_checkpoint_ms
                        > SMART_TIME_THRESHOLD_MS
                }
            },
        }
    }

    /// Takes a checkpoint: the buffered transcript and the given working
    /// files go to storage as one new record whose parent is the current
    /// timeline pointer; on success the pointer advances, the buffer
    /// baseline resets, and the result carries the checkpoint with the
    /// file count and the warnings the snapshot pass recorded. Fails only
    /// on an id or digest collision, leaving the manager as it was.
    pub fn create_checkpoint(
        &mut self,
        storage: &mut CheckpointStorage,
        files: &Vec<WorkingFile>,
        description: Option<String>,
        warnings: Vec<String>,
        now_ms: u64,
    ) -> (r: Result<CheckpointResult, CheckpointError>)
        requires
            old(self).wf(),
            old(storage).wf(),
            paths_unique(files@),
            old(self).total_checkpoints < u64::MAX,
        ensures
            final(self).wf(),
            final(storage).wf(),
            match r {
                Ok(res) => {
                    &&& !old(storage).has_record(res.checkpoint.id@)
                    &&& res.checkpoint.session_id == old(self).session_id
                    &&& res.checkpoint.project_id == old(self).project_id
                    &&& res.checkpoint.parent_checkpoint_id == old(self).current_checkpoint_id
                    &&& res.checkpoint.created_at_ms == now_ms
                    &&& res.checkpoint.description == description
                    &&& res.checkpoint.message_index == old(self).message_count
                    &&& res.checkpoint.metadata == (CheckpointMetadata {
                        total_tokens: old(self).total_tokens,
                        file_count: files@.len() as u64,
                    })
                    &&& res.files_processed == files@.len()
                    &&& res.warnings == warnings
                    &&& final(storage).recs().len() == old(storage).recs().len() + 1
                    &&& final(storage).recs().drop_last() == old(storage).recs()
                    &&& final(storage).recs().last().meta == res.checkpoint
                    &&& final(storage).recs().last().transcript == old(self).transcript
                    &&& refs_match(final(storage).recs().last().file_refs@, files@)
                    &&& final(storage).cstore().blobs() == crate::content_store::blobs_put_all(
                        old(storage).cstore().blobs(),
                        contents_of(files@),
                    )
                    &&& forall|k: int|
                        0 <= k < files@.len() ==> final(storage).cstore().has_pair(
                            crate::digest::digest_of((#[trigger] files@[k]).content@),
                            files@[k].content@,
                        )
                    &&& *final(self) == (CheckpointManager {
                        current_checkpoint_id: Some(res.checkpoint.id),
                        total_checkpoints: (old(self).total_checkpoints + 1) as u64,
                        messages_since_checkpoint: 0,
                        last_checkpoint_ms: now_ms,
                        ..*old(self)
                    })
                },
                Err(e) => {
                    &&& *final(self) == *old(self)
                    &&& final(storage).recs() == old(storage).recs()
                    &&& old(storage).cstore().blobs().is_prefix_of(
                        final(storage).cstore().blobs(),
                    )
                    &&& e is StorageIo
                    &&& (exists|s: Seq<char>| old(storage).has_record(s)) || !no_collision(
                        old(storage).cstore().blobs(),
                        contents_of(files@),
                    )
                },
            },
            r is Ok ==> pointer_live(*final(self), *final(storage)),
            pointer_live(*old(self), *old(storage)) ==> pointer_live(
                *final(self),
                *final(storage),
            ),
    {
        let id = new_id_string();
        let parent = clone_opt_string(&self.current_checkpoint_id);
        match storage.save_checkpoint(
            id,
            &self.session_id,
            &self.project_id,
            parent,
            self.transcript.clone(),
            files,
            description,
            now_ms,
            self.message_count,
            self.total_tokens,
        ) {
            Ok(cp) => {
                self.current_checkpoint_id = Some(cp.id.clone());
                self.total_checkpoints = self.total_checkpoints + 1;
                self.messages_since_checkpoint = 0;
                self.last_checkpoint_ms = now_ms;
                proof {
                    let last = storage.recs().len() - 1;
                    assert(storage.recs()[last].meta.id@ == cp.id@);
                    assert(storage.has_record(cp.id@));
                }
                Ok(
                    CheckpointResult {
                        checkpoint: cp,
                        files_processed: files.len() as u64,
                        warnings,
                    },
                )
            },
            Err(e) => {
                proof {
                    if old(storage).has_record(id@) {
                        assert(exists|s: Seq<char>| old(storage).has_record(s));
                    }
                }
                Err(e)
            },
        }
    }

    /// Restores a checkpoint of this manager's session: returns the
    /// checkpoint, the files to write back to the working tree, and the
    /// exact transcript text so the caller can rewrite the visible log.
    /// The timeline pointer moves to the restored checkpoint and the
    /// buffer baseline resets to its transcript. Storage is borrowed
    /// immutably: a restore never changes any stored checkpoint.
    pub fn restore_checkpoint(
        &mut self,
        storage: &CheckpointStorage,
        checkpoint_id: &String,
    ) -> (r: Result<(CheckpointResult, Vec<FileSnapshot>, String), CheckpointError>)
        requires
            old(self).wf(),
            storage.wf(),
        ensures
            final(self).wf(),
            match r {
                Ok(out) => {
                    &&& storage.has_record(checkpoint_id@)
                    &&& out.0.checkpoint == storage.record_for(checkpoint_id@).meta
                    &&& out.0.checkpoint.session_id@ == old(self).session_id@
                    &&& out.0.checkpoint.project_id@ == old(self).project_id@
                    &&& out.0.files_processed == out.1@.len()
                    &&& out.0.warnings@.len() == 0
                    &&& snapshots_match(
                        out.1@,
                        storage.record_for(checkpoint_id@),
                        storage.cstore(),
                    )
                    &&& forall|k: int| 0 <= k < out.1@.len() ==> (#[trigger] out.1@[k]).wf()
                    &&& out.2 == storage.record_for(checkpoint_id@).transcript
                    &&& *final(self) == (CheckpointManager {
                        current_checkpoint_id: Some(out.0.checkpoint.id),
                        transcript: out.2,
                        message_count: out.0.checkpoint.message_index,
                        messages_since_checkpoint: 0,
                        total_tokens: out.0.checkpoint.metadata.total_tokens,
                        ..*old(self)
                    })
                },
                Err(e) => {
                    &&& *final(self) == *old(self)
                    &&& (e is NotFound || e is InvalidLineage)
                    &&& (e is NotFound <==> !storage.has_record(checkpoint_id@))
                    &&& e is InvalidLineage ==> storage.has_record(checkpoint_id@) && (
                    storage.record_for(checkpoint_id@).meta.session_id@ != old(
                        self,
                    ).session_id@ || storage.record_for(checkpoint_id@).meta.project_id@
                        != old(self).project_id@)
                },
            },
            r is Ok ==> pointer_live(*final(self), *storage),
            pointer_live(*old(self), *storage) ==> pointer_live(*final(self), *storage),
    {
        match storage.load_checkpoint(&self.project_id, &self.session_id, checkpoint_id) {
            Ok((meta, files, transcript)) => {
                proof {
                    assert(storage.record_for(checkpoint_id@).meta.id@ == checkpoint_id@);
                }
                self.current_checkpoint_id = Some(meta.id.clone());
                self.transcript = transcript.clone();
                self.message_count = meta.message_index;
                self.messages_since_checkpoint = 0;
                self.total_tokens = meta.metadata.total_tokens;
                let files_processed = files.len() as u64;
                Ok(
                    (
                        CheckpointResult { checkpoint: meta, files_processed, warnings: Vec::new() },
                        files,
                        transcript,
                    ),
                )
            },
            Err(e) => Err(e),
        }
    }

    /// Forks from an existing checkpoint of this project — possibly of
    /// another session — into this manager's session: a new checkpoint is
    /// written whose parent is the source, carrying the source's files and
    /// transcript, and this manager's timeline roots there. The source's
    /// file contents are already stored, so the blob store is unchanged:
    /// the fork shares every blob with its source. The original session's
    /// records are untouched.
    pub fn fork_from_checkpoint(
        &mut self,
        storage: &mut CheckpointStorage,
        checkpoint_id: &String,
        description: Option<String>,
        now_ms: u64,
    ) -> (r: Result<CheckpointResult, CheckpointError>)
        requires
            old(self).wf(),
            old(storage).wf(),
            old(self).total_checkpoints < u64::MAX,
        ensures
            final(self).wf(),
            final(storage).wf(),
            match r {
                Ok(res) => {
                    &&& old(storage).has_record(checkpoint_id@)
                    &&& !old(storage).has_record(res.checkpoint.id@)
                    &&& res.checkpoint.session_id == old(self).session_id
                    &&& res.checkpoint.project_id == old(self).project_id
                    &&& res.checkpoint.parent_checkpoint_id == Some(*checkpoint_id)
                    &&& res.checkpoint.created_at_ms == now_ms
                    &&& res.checkpoint.description == description
                    &&& final(storage).recs().len() == old(storage).recs().len() + 1
                    &&& final(storage).recs().drop_last() == old(storage).recs()
                    &&& final(storage).recs().last().meta == res.checkpoint
                    &&& final(storage).recs().last().transcript@ == old(storage).record_for(
                        checkpoint_id@,
                    ).transcript@
                    &&& final(storage).recs().last().file_refs@.len() == old(
                        storage,
                    ).record_for(checkpoint_id@).file_refs@.len()
                    &&& forall|k: int|
                        0 <= k < final(storage).recs().last().file_refs@.len() ==> {
                            &&& (#[trigger] final(storage).recs().last().file_refs@[
                                k
                            ]).file_path@ == old(storage).record_for(
                                checkpoint_id@,
                            ).file_refs@[k].file_path@
                            &&& final(storage).recs().last().file_refs@[k].hash@ == old(
                                storage,
                            ).record_for(checkpoint_id@).file_refs@[k].hash@
                        }
                    &&& final(storage).cstore().blobs() == old(storage).cstore().blobs()
                    &&& *final(self) == (CheckpointManager {
                        current_checkpoint_id: Some(res.checkpoint.id),
                        total_checkpoints: (old(self).total_checkpoints + 1) as u64,
                        transcript: final(storage).recs().last().transcript,
                        message_count: res.checkpoint.message_index,
                        messages_since_checkpoint: 0,
                        total_tokens: res.checkpoint.metadata.total_tokens,
                        last_checkpoint_ms: now_ms,
                        ..*old(self)
                    })
                },
                Err(e) => {
                    &&& *final(self) == *old(self)
                    &&& final(storage).recs() == old(storage).recs()
                    &&& old(storage).cstore().blobs().is_prefix_of(
                        final(storage).cstore().blobs(),
                    )
                    &&& (e is NotFound || e is InvalidLineage || e is StorageIo)
                    &&& (e is NotFound <==> !old(storage).has_record(checkpoint_id@))
                    &&& e is InvalidLineage ==> old(storage).has_record(checkpoint_id@)
                        && old(storage).record_for(checkpoint_id@).meta.project_id@ != old(
                        self,
                    ).project_id@
                    &&& e is StorageIo ==> (exists|s: Seq<char>| old(storage).has_record(s))
                },
            },
            r is Ok ==> pointer_live(*final(self), *final(storage)),
            pointer_live(*old(self), *old(storage)) ==> pointer_live(
                *final(self),
                *final(storage),
            ),
    {
        let (src_meta, files, transcript) = match storage.load_checkpoint_any(
            &self.project_id,
            checkpoint_id,
        ) {
            Ok(out) => out,
            Err(e) => {
                proof {
                    assert(storage.cstore().blobs().is_prefix_of(storage.cstore().blobs()));
                }
                return Err(e);
            },
        };
        let ghost src_rec = storage.record_for(checkpoint_id@);
        let n = files.len();
        let mut wfiles: Vec<WorkingFile> = Vec::new();
        let mut k: usize = 0;
        while k < n
            invariant
                n == files@.len(),
                k <= n,
                wfiles@.len() == k,
                forall|l: int|
                    0 <= l < k ==> {
                        &&& (#[trigger] wfiles@[l]).path == files@[l].file_path
                        &&& wfiles@[l].content == files@[l].content
                    },
            decreases n - k,
        {
            wfiles.push(
                WorkingFile {
                    path: files[k].file_path.clone(),
                    content: files[k].content.clone(),
                },
            );
            k += 1;
        }
        proof {
            // Source paths are pairwise distinct, and every content is
            // already stored under its digest.
            assert(CheckpointStorage::rec_wf(src_rec, storage.cstore()));
            assert forall|x: int, y: int|
                0 <= x < y < wfiles@.len() implies (#[trigger] wfiles@[x]).path@ != (
                #[trigger] wfiles@[y]).path@ by {
                assert(src_rec.file_refs@[x].file_path@ != src_rec.file_refs@[y].file_path@);
            }
            assert forall|l: int|
                0 <= l < wfiles@.len() implies storage.cstore().has_pair(
                    crate::digest::digest_of((#[trigger] wfiles@[l]).content@),
                    wfiles@[l].content@,
                ) by {
                let h = src_rec.file_refs@[l].hash@;
                assert(storage.cstore().has_pair(h, files@[l].content@));
                let i = choose|i: int|
                    0 <= i < storage.cstore().blobs().len() && #[trigger] storage.cstore().blobs()[
                        i
                    ] == (h, files@[l].content@);
                assert(storage.cstore().blobs()[i].0 == crate::digest::digest_of(
                    storage.cstore().blobs()[i].1,
                ));
            }
        }
        let id = new_id_string();
        let ghost pre_storage = *storage;
        let result = storage.save_checkpoint(
            id,
            &self.session_id,
            &self.project_id,
            Some(checkpoint_id.clone()),
            transcript.clone(),
            &wfiles,
            description,
            now_ms,
            src_meta.message_index,
            src_meta.metadata.total_tokens,
        );
        match result {
            Ok(cp) => {
                proof {
                    // Every saved content was already stored: no new blob.
                    assert forall|x: int|
                        0 <= x < contents_of(wfiles@).len() implies crate::content_store::seq_has_pair(
                        pre_storage.cstore().blobs(),
                        crate::digest::digest_of(#[trigger] contents_of(wfiles@)[x]),
                        contents_of(wfiles@)[x],
                    ) by {
                        assert(contents_of(wfiles@)[x] == wfiles@[x].content@);
                        assert(pre_storage.cstore().has_pair(
                            crate::digest::digest_of(wfiles@[x].content@),
                            wfiles@[x].content@,
                        ));
                    }
                    crate::storage::lemma_save_dedup(
                        pre_storage.cstore().blobs(),
                        contents_of(wfiles@),
                    );
                }
                self.current_checkpoint_id = Some(cp.id.clone());
                self.total_checkpoints = self.total_checkpoints + 1;
                self.transcript = transcript;
                self.message_count = cp.message_index;
                self.messages_since_checkpoint = 0;
                self.total_tokens = cp.metadata.total_tokens;
                self.last_checkpoint_ms = now_ms;
                let files_processed = wfiles.len() as u64;
                Ok(CheckpointResult { checkpoint: cp, files_processed, warnings: Vec::new() })
            },
            Err(e) => Err(e),
        }
    }

    /// Requests retention cleanup for this manager's session: keeps the
    /// `keep_count` most recent checkpoints of the session and project,
    /// removes the rest, and garbage-collects unreferenced blobs — a no-op
    /// when `keep_count` covers them all. If the cleanup removed the very
    /// checkpoint the timeline pointer named, the pointer becomes None, so
    /// it always names an existing checkpoint or nothing.
    pub fn cleanup_old_checkpoints(
        &mut self,
        storage: &mut CheckpointStorage,
        keep_count: usize,
    ) -> (r: usize)
        requires
            old(self).wf(),
            old(storage).wf(),
        ensures
            final(self).wf(),
            final(storage).wf(),
            ({
                let total = crate::storage::scope_recs(
                    old(storage).recs(),
                    old(self).session_id@,
                    old(self).project_id@,
                ).len();
                let removed: int = if keep_count >= total {
                    0
                } else {
                    total - keep_count
                };
                &&& r == removed
                &&& final(storage).recs() == crate::storage::drop_first_in_scope(
                    old(storage).recs(),
                    old(self).session_id@,
                    old(self).project_id@,
                    removed as nat,
                )
            }),
            r == 0 ==> final(storage).cstore().blobs() == old(storage).cstore().blobs(),
            forall|h: Seq<char>, c: Seq<char>|
                #[trigger] old(storage).cstore().has_pair(h, c) && crate::storage::referenced(
                    final(storage).recs(),
                    h,
                ) ==> final(storage).cstore().has_pair(h, c),
            forall|i: int|
                0 <= i < final(storage).cstore().blobs().len() ==> old(
                    storage,
                ).cstore().blobs().contains(#[trigger] final(storage).cstore().blobs()[i]),
            r > 0 ==> forall|i: int|
                0 <= i < final(storage).cstore().blobs().len() ==> crate::storage::referenced(
                    final(storage).recs(),
                    (#[trigger] final(storage).cstore().blobs()[i]).0,
                ),
            *final(self) == (CheckpointManager {
                current_checkpoint_id: final(self).current_checkpoint_id,
                ..*old(self)
            }),
            match old(self).current_checkpoint_id {
                None => final(self).current_checkpoint_id is None,
                Some(id) => final(self).current_checkpoint_id == if final(storage).has_record(
                    id@,
                ) {
                    Some(id)
                } else {
                    None::<String>
                },
            },
            pointer_live(*final(self), *final(storage)),
    {
        let removed = storage.cleanup_old_checkpoints(&self.project_id, &self.session_id, keep_count);
        let keep_pointer = match &self.current_checkpoint_id {
            None => true,
            Some(id) => storage.has_checkpoint(id),
        };
        if !keep_pointer {
            self.current_checkpoint_id = None;
        }
        removed
    }

    /// The paths of every recorded mutation at or after `since_ms`, in
    /// first-seen order, without repetition.
    pub fn get_files_modified_since(&self, since_ms: u64) -> (r: Vec<String>)
        ensures
            forall|x: int, y: int|
                0 <= x < y < r@.len() ==> (#[trigger] r@[x])@ != (#[trigger] r@[y])@,
            forall|x: int|
                0 <= x < r@.len() ==> path_in_events(
                    self.mod_events@,
                    since_ms,
                    (#[trigger] r@[x])@,
                ),
            forall|i: int, k: int|
                #![trigger self.mod_events@[i].paths@[k]]
                0 <= i < self.mod_events@.len() && self.mod_events@[i].timestamp_ms >= since_ms
                    && 0 <= k < self.mod_events@[i].paths@.len()
                    ==> crate::content_store::seq_has_string(
                    r@,
                    self.mod_events@[i].paths@[k]@,
                ),
    {
        let mut out: Vec<String> = Vec::new();
        let n = self.mod_events.len();
        let mut i: usize = 0;
        while i < n
            invariant
                n == self.mod_events@.len(),
                i <= n,
                forall|x: int, y: int|
                    0 <= x < y < out@.len() ==> (#[trigger] out@[x])@ != (#[trigger] out@[y])@,
                forall|x: int|
                    0 <= x < out@.len() ==> path_in_events(
                        self.mod_events@,
                        since_ms,
                        (#[trigger] out@[x])@,
                    ),
                forall|i2: int, k2: int|
                    #![trigger self.mod_events@[i2].paths@[k2]]
                    0 <= i2 < i && self.mod_events@[i2].timestamp_ms >= since_ms && 0 <= k2
                        < self.mod_events@[i2].paths@.len()
                        ==> crate::content_store::seq_has_string(
                        out@,
                        self.mod_events@[i2].paths@[k2]@,
                    ),
            decreases n - i,
        {
            if self.mod_events[i].timestamp_ms >= since_ms {
                let ghost prev = out@;
                merge_paths(&mut out, &self.mod_events[i].paths);
                proof {
                    assert forall|x: int|
                        0 <= x < out@.len() implies path_in_events(
                        self.mod_events@,
                        since_ms,
                        (#[trigger] out@[x])@,
                    ) by {
                        if x < prev.len() {
                            assert(out@[x] == prev[x]);
                            assert(path_in_events(self.mod_events@, since_ms, (prev[x])@));
                        } else {
                            assert(crate::content_store::seq_has_string(
                                self.mod_events@[i as int].paths@,
                                (out@[x])@,
                            ));
                            let k2 = choose|k2: int|
                                0 <= k2 < self.mod_events@[i as int].paths@.len() && (
                                #[trigger] self.mod_events@[i as int].paths@[k2])@ == (out@[x])@;
                            assert(self.mod_events@[i as int].paths@[k2]@ == (out@[x])@);
                        }
                    }
                    assert forall|i2: int, k2: int|
                        #![trigger self.mod_events@[i2].paths@[k2]]
                        0 <= i2 < i + 1 && self.mod_events@[i2].timestamp_ms >= since_ms && 0 <= k2
                            < self.mod_events@[i2].paths@.len()
                            implies crate::content_store::seq_has_string(
                        out@,
                        self.mod_events@[i2].paths@[k2]@,
                    ) by {
                        if i2 < i {
                            let w = choose|w: int|
                                0 <= w < prev.len() && (#[trigger] prev[w])@ == self.mod_events@[
                                    i2
                                ].paths@[k2]@;
                            assert(out@[w] == prev[w]);
                        }
                    }
                }
            }
            i += 1;
        }
        out
    }

    /// When the last recorded mutation happened, if any: the greatest
    /// recorded timestamp.
    pub fn get_last_modification_time(&self) -> (r: Option<u64>)
        ensures
            match r {
                None => self.mod_events@.len() == 0,
                Some(t) => {
                    &&& exists|i: int|
                        0 <= i < self.mod_events@.len() && (
                        #[trigger] self.mod_events@[i]).timestamp_ms == t
                    &&& forall|i: int|
                        0 <= i < self.mod_events@.len() ==> (
                        #[trigger] self.mod_events@[i]).timestamp_ms <= t
                },
            },
    {
        let n = self.mod_events.len();
        if n == 0 {
            return None;
        }
        let mut best: u64 = self.mod_events[0].timestamp_ms;
        let mut i: usize = 1;
        while i < n
            invariant
                n == self.mod_events@.len(),
                1 <= i <= n,
                exists|j: int|
                    0 <= j < i && (#[trigger] self.mod_events@[j]).timestamp_ms == best,
                forall|j: int|
                    0 <= j < i ==> (#[trigger] self.mod_events@[j]).timestamp_ms <= best,
            decreases n - i,
        {
            if self.mod_events[i].timestamp_ms > best {
                best = self.mod_events[i].timestamp_ms;
            }
            i += 1;
        }
        Some(best)
    }
}

/// Appends to `out` every path of `paths` it does not already hold,
/// preserving order and never introducing a repeat.
fn merge_paths(out: &mut Vec<String>, paths: &Vec<String>)
    ensures
        old(out)@.is_prefix_of(final(out)@),
        (forall|x: int, y: int|
            0 <= x < y < old(out)@.len() ==> (#[trigger] old(out)@[x])@ != (
            #[trigger] old(out)@[y])@) ==> (forall|x: int, y: int|
            0 <= x < y < final(out)@.len() ==> (#[trigger] final(out)@[x])@ != (
            #[trigger] final(out)@[y])@),
        forall|x: int|
            old(out)@.len() <= x < final(out)@.len() ==> crate::content_store::seq_has_string(
                paths@,
                (#[trigger] final(out)@[x])@,
            ),
        forall|k: int|
            0 <= k < paths@.len() ==> crate::content_store::seq_has_string(
                final(out)@,
                (#[trigger] paths@[k])@,
            ),
{
    let m = paths.len();
    let mut k: usize = 0;
    while k < m
        invariant
            m == paths@.len(),
            k <= m,
            old(out)@.is_prefix_of(out@),
            (forall|x: int, y: int|
                0 <= x < y < old(out)@.len() ==> (#[trigger] old(out)@[x])@ != (
                #[trigger] old(out)@[y])@) ==> (forall|x: int, y: int|
                0 <= x < y < out@.len() ==> (#[trigger] out@[x])@ != (#[trigger] out@[y])@),
            forall|x: int|
                old(out)@.len() <= x < out@.len() ==> crate::content_store::seq_has_string(
                    paths@,
                    (#[trigger] out@[x])@,
                ),
            forall|k2: int|
                0 <= k2 < k ==> crate::content_store::seq_has_string(
                    out@,
                    (#[trigger] paths@[k2])@,
                ),
        decreases m - k,
    {
        let p = &paths[k];
        let ghost prev = out@;
        if !crate::content_store::vec_has_string(out, p) {
            out.push(p.clone());
            proof {
                assert(forall|x: int| 0 <= x < prev.len() ==> #[trigger] out@[x] == prev[x]);
                assert((out@[prev.len() as int])@ == paths@[k as int]@);
                assert forall|k2: int|
                    0 <= k2 < k + 1 implies crate::content_store::seq_has_string(
                    out@,
                    (#[trigger] paths@[k2])@,
                ) by {
                    if k2 < k {
                        let w = choose|w: int|
                            0 <= w < prev.len() && (#[trigger] prev[w])@ == paths@[k2]@;
                        assert(out@[w] == prev[w]);
                    }
                }
            }
        } else {
            proof {
                assert(crate::content_store::seq_has_string(out@, paths@[k as int]@));
            }
        }
        k += 1;
    }
}

/// The directory names a snapshot pass skips: version control, build
/// output, dependency caches, and the engine's own metadata.
pub open spec fn ignored_component_spec(name: Seq<char>) -> bool {
    ||| name == ".git"@
    ||| name == "node_modules"@
    ||| name == "target"@
    ||| name == "dist"@
    ||| name == "build"@
    ||| name == "__pycache__"@
    ||| name == ".claudia"@
}

/// Whether a path component belongs to a conventionally ignored
/// directory, which the working-tree snapshot excludes.
pub fn is_ignored_component(name: &str) -> (r: bool)
    ensures
        r == ignored_component_spec(name@),
{
    crate::strutil::str_eq(name, ".git") || crate::strutil::str_eq(name, "node_modules")
        || crate::strutil::str_eq(name, "target") || crate::strutil::str_eq(name, "dist")
        || crate::strutil::str_eq(name, "build") || crate::strutil::str_eq(name, "__pycache__")
        || crate::strutil::str_eq(name, ".claudia")
}

/// Clones a list of strings by value.
pub fn clone_string_vec(v: &Vec<String>) -> (r: Vec<String>)
    ensures
        r@ == v@,
{
    let mut out: Vec<String> = Vec::new();
    let n = v.len();
    let mut i: usize = 0;
    while i < n
        invariant
            n == v@.len(),
            i <= n,
            out@ == v@.take(i as int),
        decreases n - i,
    {
        out.push(v[i].clone());
        proof {
            assert(out@ =~= v@.take(i + 1));
        }
        i += 1;
    }
    proof {
        assert(v@.take(n as int) =~= v@);
    }
    out
}

} // verus!
