//! The values that the engine takes and hands back: line edits, conflicts,
//! save requests and responses, and the error taxonomy.
use vstd::prelude::*;

verus! {

/// One changed line of a two-way diff: a deleted base line covers
/// `[start_line, start_line + 1)`; an inserted line sits at `start_line`
/// with `end_line == start_line`. `content` is the line as the diff gave it.
#[derive(Clone, Debug)]
pub struct TextChange {
    pub start_line: usize,
    pub end_line: usize,
    pub content: String,
}

/// What a `TextChange` says, as mathematical values.
pub struct EditView {
    pub start_line: nat,
    pub end_line: nat,
    pub content: Seq<char>,
}

impl View for TextChange {
    type V = EditView;

    open spec fn view(&self) -> EditView {
        EditView {
            start_line: self.start_line as nat,
            end_line: self.end_line as nat,
            content: self.content@,
        }
    }
}

/// An overlapping pair of edits: the submitter's range over the base lines,
/// and the text of that region in the base, in the submitted text, and in
/// the current head.
#[derive(Clone, Debug)]
pub struct Conflict {
    pub start_line: usize,
    pub end_line: usize,
    pub base_content: String,
    pub current_content: String,
    pub your_content: String,
}

/// What a `Conflict` says, as mathematical values.
pub struct ConflictView {
    pub start_line: nat,
    pub end_line: nat,
    pub base_content: Seq<char>,
    pub current_content: Seq<char>,
    pub your_content: Seq<char>,
}

impl View for Conflict {
    type V = ConflictView;

    open spec fn view(&self) -> ConflictView {
        ConflictView {
            start_line: self.start_line as nat,
            end_line: self.end_line as nat,
            base_content: self.base_content@,
            current_content: self.current_content@,
            your_content: self.your_content@,
        }
    }
}

/// The views of a sequence of line edits.
pub open spec fn edit_views(v: Seq<TextChange>) -> Seq<EditView> {
    v.map_values(|c: TextChange| c@)
}

/// The views of a sequence of conflicts.
pub open spec fn conflict_views(v: Seq<Conflict>) -> Seq<ConflictView> {
    v.map_values(|c: Conflict| c@)
}

/// The result of a three-way comparison.
#[derive(Debug)]
pub struct DiffResponse {
    pub base_version: String,
    pub compare_version: String,
    pub changes: Vec<TextChange>,
    pub conflicts: Vec<Conflict>,
    pub can_auto_merge: bool,
}

/// How a save ended.
#[derive(PartialEq, Eq, Structural, Clone, Copy, Debug)]
pub enum SaveStatus {
    Saved,
    Conflict,
    AutoMerged,
}

/// A save against a file: the new content and the version it was edited from.
#[derive(Clone, Debug)]
pub struct SaveVersionedFileRequest {
    pub content: String,
    pub base_version: String,
    pub message: Option<String>,
    pub branch: Option<String>,
}

/// The answer to a save.
#[derive(Clone, Debug)]
pub struct SaveVersionedFileResponse {
    pub status: SaveStatus,
    pub new_version: Option<String>,
    pub conflicts: Option<Vec<Conflict>>,
    pub message: String,
}

/// Content that resolves a conflict, possibly still holding conflict markers.
#[derive(Clone, Debug)]
pub struct ResolveConflictRequest {
    pub content: String,
    pub base_version: String,
    pub current_version: String,
    pub message: String,
}

/// A branch to create from `base_version`, with optional content of its own.
#[derive(Clone, Debug)]
pub struct CreateBranchRequest {
    pub name: String,
    pub base_version: String,
    pub content: Option<String>,
}

/// A merge of one branch into another (or into `main`).
#[derive(Clone, Debug)]
pub struct MergeBranchRequest {
    pub source_branch: String,
    pub target_branch: String,
    pub message: Option<String>,
}

/// A request to register as an editor of a file.
#[derive(Clone, Debug)]
pub struct StartEditingRequest {
    pub branch: Option<String>,
}

/// Which page of a file's history to list.
#[derive(Clone, Debug)]
pub struct VersionHistoryRequest {
    pub branch: Option<String>,
    pub limit: Option<usize>,
    pub skip: Option<usize>,
}

/// The two versions of a plain diff.
#[derive(Clone, Debug)]
pub struct DiffQuery {
    pub from: String,
    pub to: String,
}

/// The principal a request runs as.
#[derive(Clone, Debug)]
pub struct UserContext {
    pub user_id: String,
    pub active_team_id: Option<String>,
}

/// The errors of the engine; each maps onto one HTTP status.
#[derive(Clone, Debug)]
pub enum ServiceError {
    InternalServerError,
    BadRequest(String),
    Unauthorized,
    NotFound,
    Forbidden,
    Conflict(String),
}

impl ServiceError {
    /// The HTTP status code this error is answered with.
    pub fn status_code(&self) -> (r: u16)
        ensures
            r == match self {
                ServiceError::InternalServerError => 500u16,
                ServiceError::BadRequest(_) => 400u16,
                ServiceError::Unauthorized => 401u16,
                ServiceError::NotFound => 404u16,
                ServiceError::Forbidden => 403u16,
                ServiceError::Conflict(_) => 409u16,
            },
    {
        match self {
            ServiceError::InternalServerError => 500,
            ServiceError::BadRequest(_) => 400,
            ServiceError::Unauthorized => 401,
            ServiceError::NotFound => 404,
            ServiceError::Forbidden => 403,
            ServiceError::Conflict(_) => 409,
        }
    }
}

} // verus!
