//! Data model of the checkpoint engine: snapshots, checkpoints, timelines,
//! strategies, diffs, and the error kinds that the operations report.

use vstd::prelude::*;
use crate::digest::digest_of;

verus! {

/// Why a checkpoint operation failed.
#[derive(Debug, Clone, PartialEq, Eq)]
pub enum CheckpointError {
    /// The named checkpoint or session is unknown.
    NotFound,
    /// Blob or metadata storage failed; the text says how.
    StorageIo(String),
    /// A restore or fork referenced a checkpoint outside the known lineage.
    InvalidLineage,
    /// Some working-tree files could not be written back during a restore.
    RestoreWritePartial(String),
}

/// One file captured inside a checkpoint: its path, exact content, the
/// digest of that content, and the content length in characters.
#[derive(Debug)]
pub struct FileSnapshot {
    pub file_path: String,
    pub content: String,
    pub hash: String,
    pub size: u64,
}

impl FileSnapshot {
    /// The digest names the content and the size measures it.
    pub open spec fn wf(self) -> bool {
        &&& self.hash@ == digest_of(self.content@)
        &&& self.size == self.content@.len()
    }
}

/// A file of the working tree as handed to the engine: path and content,
/// not yet hashed.
#[derive(Debug)]
pub struct WorkingFile {
    pub path: String,
    pub content: String,
}

impl Clone for WorkingFile {
    fn clone(&self) -> (r: Self)
        ensures
            r == *self,
    {
        WorkingFile { path: self.path.clone(), content: self.content.clone() }
    }
}

/// Counters carried on every checkpoint.
#[derive(Debug)]
pub struct CheckpointMetadata {
    pub total_tokens: u64,
    pub file_count: u64,
}

impl Clone for CheckpointMetadata {
    fn clone(&self) -> (r: Self)
        ensures
            r == *self,
    {
        CheckpointMetadata { total_tokens: self.total_tokens, file_count: self.file_count }
    }
}

/// An immutable snapshot point: identity, lineage, and bookkeeping.
/// `parent_checkpoint_id`, when present, names an existing checkpoint,
/// possibly of another session's lineage after a fork.
#[derive(Debug)]
pub struct Checkpoint {
    pub id: String,
    pub session_id: String,
    pub project_id: String,
    pub parent_checkpoint_id: Option<String>,
    pub created_at_ms: u64,
    pub description: Option<String>,
    pub message_index: u64,
    pub metadata: CheckpointMetadata,
}

impl Clone for Checkpoint {
    fn clone(&self) -> (r: Self)
        ensures
            r == *self,
    {
        Checkpoint {
            id: self.id.clone(),
            session_id: self.session_id.clone(),
            project_id: self.project_id.clone(),
            parent_checkpoint_id: self.parent_checkpoint_id.clone(),
            created_at_ms: self.created_at_ms,
            description: self.description.clone(),
            message_index: self.message_index,
            metadata: self.metadata.clone(),
        }
    }
}

/// When a checkpoint is taken without an explicit request.
#[derive(Debug, Clone, Copy, PartialEq, Eq, Structural)]
pub enum CheckpointStrategy {
    /// Never automatically.
    Manual,
    /// After each user prompt that follows buffered changes.
    PerPrompt,
    /// After each completed tool invocation that mutated the file system.
    PerToolUse,
    /// When enough messages, touched files, or elapsed time accumulate.
    Smart,
}

/// Read-only projection of one session's timeline state.
#[derive(Debug)]
pub struct SessionTimeline {
    pub session_id: String,
    pub project_id: String,
    pub current_checkpoint_id: Option<String>,
    pub total_checkpoints: u64,
    pub auto_checkpoint_enabled: bool,
    pub checkpoint_strategy: CheckpointStrategy,
}

/// What a create, restore, or fork hands back: the checkpoint, how many
/// files were processed, and the warnings recorded along the way.
#[derive(Debug)]
pub struct CheckpointResult {
    pub checkpoint: Checkpoint,
    pub files_processed: u64,
    pub warnings: Vec<String>,
}

/// Per-file entry of a checkpoint diff: coarse added/removed line counts.
#[derive(Debug, PartialEq, Eq)]
pub struct FileDiff {
    pub path: String,
    pub additions: u64,
    pub deletions: u64,
}

/// Derived comparison of two checkpoints' file sets; never persisted.
#[derive(Debug)]
pub struct CheckpointDiff {
    pub from_checkpoint_id: String,
    pub to_checkpoint_id: String,
    pub modified_files: Vec<FileDiff>,
    pub added_files: Vec<String>,
    pub deleted_files: Vec<String>,
    pub token_delta: i128,
}

/// Who produced a transcript line.
#[derive(Debug, Clone, Copy, PartialEq, Eq, Structural)]
pub enum MessageRole {
    User,
    Assistant,
    System,
    Other,
}

/// One structured transcript record as fed to `track_message`: the exact
/// line text plus what the engine reads off it.
#[derive(Debug)]
pub struct TranscriptLine {
    /// The line exactly as it appeared in the transcript.
    pub raw: String,
    pub role: MessageRole,
    /// Whether the line reports a completed tool invocation that mutated
    /// the file system.
    pub mutates_file_system: bool,
    /// The paths such a mutation touched.
    pub touched_paths: Vec<String>,
    /// Tokens this line accounts for.
    pub tokens: u64,
    pub timestamp_ms: u64,
}

} // verus!
