//! Small data records shared with the surrounding application: file
//! browsing, language settings, configuration permissions, node
//! management requests, prompt files, usage scans, and watcher events.

use vstd::prelude::*;

verus! {

/// A node of a browsed file tree.
#[derive(Debug)]
pub struct FileNode {
    pub name: String,
    pub path: String,
    /// `"file"` or `"directory"`.
    pub file_type: String,
    pub children: Option<Vec<FileNode>>,
    pub size: Option<u64>,
    pub modified: Option<u64>,
}

/// One observed file-system change.
#[derive(Debug)]
pub struct FileSystemChange {
    pub path: String,
    /// `"created"`, `"modified"` or `"deleted"`.
    pub change_type: String,
}

/// One file-watcher event, with when it was seen.
#[derive(Debug)]
pub struct FileChangeEvent {
    pub path: String,
    pub change_type: String,
    pub timestamp: u64,
}

/// The interface language setting.
#[derive(Debug)]
pub struct LanguageSettings {
    pub locale: String,
}

/// Allow and deny lists of a permissions section.
#[derive(Debug)]
pub struct ClaudePermissions {
    pub allow: Vec<String>,
    pub deny: Vec<String>,
}

/// A stored API node.
#[derive(Debug)]
pub struct ApiNode {
    pub id: String,
    pub name: String,
    pub url: String,
    pub adapter: String,
    pub description: Option<String>,
    pub enabled: bool,
    pub is_default: bool,
    pub created_at: String,
    pub updated_at: String,
}

/// A request to create an API node.
#[derive(Debug)]
pub struct CreateApiNodeRequest {
    pub name: String,
    pub url: String,
    pub adapter: String,
    pub description: Option<String>,
}

/// A request to update an API node; absent fields stay as they are.
#[derive(Debug)]
pub struct UpdateApiNodeRequest {
    pub name: Option<String>,
    pub url: Option<String>,
    pub description: Option<String>,
    pub enabled: Option<bool>,
}

/// A stored prompt file.
#[derive(Debug)]
pub struct PromptFile {
    pub id: String,
    pub name: String,
    pub description: Option<String>,
    pub content: String,
    pub tags: Vec<String>,
    pub is_active: bool,
    pub created_at: i64,
    pub updated_at: i64,
    pub last_used_at: Option<i64>,
    pub display_order: i32,
}

/// A request to create a prompt file.
#[derive(Debug)]
pub struct CreatePromptFileRequest {
    pub name: String,
    pub description: Option<String>,
    pub content: String,
    pub tags: Vec<String>,
}

/// A request to update a prompt file.
#[derive(Debug)]
pub struct UpdatePromptFileRequest {
    pub id: String,
    pub name: String,
    pub description: Option<String>,
    pub content: String,
    pub tags: Vec<String>,
}

/// A project's guidance-file summary.
#[derive(Debug)]
pub struct PromptFileInfo {
    pub project_id: String,
    pub project_path: String,
    pub has_claude_md: bool,
    pub content: Option<String>,
    pub file_size: Option<u64>,
    pub modified_at: Option<i64>,
    pub claude_md_path: String,
}

/// What a usage scan did.
#[derive(Debug)]
pub struct ScanResult {
    pub files_scanned: u32,
    pub entries_added: u32,
    pub entries_skipped: u32,
    pub scan_time_ms: u64,
}

/// A running scan's progress.
#[derive(Debug)]
pub struct ScanProgress {
    pub processed: u64,
    pub total: u64,
    pub started_ts: i64,
    pub finished_ts: Option<i64>,
}

/// Aggregated usage over a project.
#[derive(Debug)]
pub struct UsageSummary {
    pub files: u64,
    pub tokens: u64,
    pub lines: u64,
    pub last_scan_ts: Option<i64>,
}

/// What a usage import did.
#[derive(Debug)]
pub struct ImportResult {
    pub inserted: u64,
    pub skipped: u64,
    pub errors: u64,
}

/// Smart-session behaviour settings.
#[derive(Debug)]
pub struct SmartSessionConfig {
    pub enabled: bool,
    /// The base directory, as path text.
    pub base_directory: String,
    pub naming_pattern: String,
    pub auto_cleanup_enabled: bool,
    pub auto_cleanup_days: u32,
    pub template_files: Vec<TemplateFile>,
}

/// One template file seeded into a new session directory.
#[derive(Debug)]
pub struct TemplateFile {
    pub path: String,
    pub content: String,
    pub executable: bool,
}

/// The router service's health.
#[derive(Debug)]
pub struct CcrServiceStatus {
    pub is_running: bool,
    pub port: Option<u16>,
    pub endpoint: Option<String>,
    pub has_ccr_binary: bool,
    pub ccr_version: Option<String>,
    pub process_id: Option<u32>,
    pub raw_output: Option<String>,
}

/// The router service's health, with a message for display.
#[derive(Debug)]
pub struct CcrServiceInfo {
    pub status: CcrServiceStatus,
    pub message: String,
}

/// The candidate executable names of the router binary, covering common
/// release names, platform extensions, and script forms.
pub fn candidate_binaries() -> (r: Vec<&'static str>)
    ensures
        r@.len() == 10,
        r@[0]@ == "ccr"@,
        r@[1]@ == "code-router"@,
        r@[2]@ == "ccr.exe"@,
        r@[3]@ == "ccr.cmd"@,
        r@[4]@ == "code-router.exe"@,
        r@[5]@ == "code-router.cmd"@,
        r@[6]@ == "ccr.js"@,
        r@[7]@ == "ccr.mjs"@,
        r@[8]@ == "code-router.js"@,
        r@[9]@ == "code-router.mjs"@,
{
    let mut v: Vec<&'static str> = Vec::new();
    v.push("ccr");
    v.push("code-router");
    v.push("ccr.exe");
    v.push("ccr.cmd");
    v.push("code-router.exe");
    v.push("code-router.cmd");
    v.push("ccr.js");
    v.push("ccr.mjs");
    v.push("code-router.js");
    v.push("code-router.mjs");
    v
}

} // verus!
