//! Result and status shapes reported to the caller by the data
//! management, query and authentication commands.

use vstd::prelude::*;

verus! {

/// Outcome of exporting the database to a flat file.
#[derive(Clone, Debug, PartialEq)]
pub struct ExportResult {
    pub success: bool,
    pub message: String,
    pub exported_path: Option<String>,
}

/// Outcome of importing a flat-file database export.
#[derive(Clone, Debug, PartialEq)]
pub struct ImportResult {
    pub success: bool,
    pub message: String,
    pub topics_count: usize,
    pub questions_count: usize,
    pub progress_count: usize,
    pub quiz_sessions_count: usize,
}

/// Size and shape of the database on disk.
#[derive(Clone, Debug, PartialEq)]
pub struct DatabaseStats {
    pub topics_count: usize,
    pub questions_count: usize,
    pub database_size: u64,
}

/// Per-topic question count, for display.
#[derive(Clone, Debug, PartialEq)]
pub struct TopicStats {
    pub id: String,
    pub name: String,
    pub question_count: usize,
}

/// What the authentication service answers a successful login with.
#[derive(Clone, Debug, PartialEq)]
pub struct AuthResponse {
    pub user_id: String,
    pub access_token: String,
    pub refresh_token: String,
    pub apps: Option<Vec<String>>,
    pub is_admin: Option<bool>,
}

/// The current authentication standing, for display.
#[derive(Clone, Debug, PartialEq)]
pub struct AuthStatus {
    pub is_authenticated: bool,
    pub user_id: Option<String>,
    pub apps: Option<Vec<String>>,
    pub is_admin: Option<bool>,
    pub server_url: Option<String>,
}

} // verus!
