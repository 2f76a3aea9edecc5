//! Records the station adapters hand back: test outcomes, token listings
//! and pagination.

use vstd::prelude::*;

verus! {

/// An adapter connectivity test's outcome.
#[derive(Debug)]
pub struct ConnectionTestResult {
    pub success: bool,
    /// Response time in milliseconds.
    pub response_time: u64,
    pub message: String,
    pub details: Option<String>,
}

/// One token as an adapter reports it.
#[derive(Debug)]
pub struct TokenInfo {
    pub id: String,
    pub name: String,
    pub key: String,
    pub quota: i64,
    pub used_quota: i64,
    pub unlimited_quota: bool,
    pub request_count: i64,
    pub status: String,
    pub created_at: u64,
    pub accessed_at: Option<u64>,
}

/// Which page of a listing this is.
#[derive(Debug)]
pub struct PaginationInfo {
    pub current_page: usize,
    pub total_pages: usize,
    pub has_next: bool,
    pub total_items: usize,
}

/// One page of tokens with its pagination.
#[derive(Debug)]
pub struct TokenPaginationResponse {
    pub tokens: Vec<TokenInfo>,
    pub pagination: PaginationInfo,
}

} // verus!
