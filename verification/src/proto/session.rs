//! Typed session-navigator messages.
use vstd::prelude::*;
use crate::proto::turn::SequencedEvent;

verus! {

pub const METHOD_SESSION_CREATE: &'static str = "session.create";
pub const METHOD_SESSION_LIST: &'static str = "session.list";
pub const METHOD_SESSION_GET_HISTORY: &'static str = "session.get_history";
pub const METHOD_SESSION_RENAME: &'static str = "session.rename";
pub const METHOD_SESSION_ARCHIVE: &'static str = "session.archive";
pub const METHOD_SESSION_RESTORE: &'static str = "session.restore";

/// Opaque identifier allocated by the project registry.
#[derive(Debug, Clone, PartialEq, Eq, Hash)]
pub struct ProjectId(String);

impl ProjectId {
    pub closed spec fn view_id(&self) -> Seq<char> {
        self.0@
    }

    pub fn new(value: String) -> (id: Self)
        ensures
            id.view_id() == value@,
    {
        ProjectId(value)
    }

    pub fn as_str(&self) -> (s: &str)
        ensures
            s@ == self.view_id(),
    {
        self.0.as_str()
    }
}

/// Opaque identifier of a durable session.
#[derive(Debug, Clone, PartialEq, Eq, Hash)]
pub struct SessionId(String);

impl SessionId {
    pub closed spec fn view_id(&self) -> Seq<char> {
        self.0@
    }

    pub fn new(value: String) -> (id: Self)
        ensures
            id.view_id() == value@,
    {
        SessionId(value)
    }

    pub fn as_str(&self) -> (s: &str)
        ensures
            s@ == self.view_id(),
    {
        self.0.as_str()
    }
}

#[derive(Debug, Clone, PartialEq, Eq)]
pub struct CreateParams {
    pub project_id: ProjectId,
    pub cwd: String,
}

#[derive(Debug, Clone, PartialEq, Eq)]
pub struct ListParams {
    pub project_id: ProjectId,
    pub include_archived: bool,
}

#[derive(Debug, Clone, PartialEq, Eq)]
pub struct HistoryParams {
    pub project_id: ProjectId,
    pub session_id: SessionId,
    pub after_sequence: u64,
    pub limit: Option<u32>,
}

#[derive(Debug, Clone, PartialEq, Eq)]
pub struct SessionIdParams {
    pub project_id: ProjectId,
    pub session_id: SessionId,
}

#[derive(Debug, Clone, PartialEq, Eq)]
pub struct RenameParams {
    pub project_id: ProjectId,
    pub session_id: SessionId,
    pub title: String,
}

#[derive(Debug, Clone, PartialEq, Eq)]
pub struct SessionRecord {
    pub id: SessionId,
    pub project_id: ProjectId,
    pub cwd: String,
    pub title: Option<String>,
    pub created_at: i64,
    pub updated_at: i64,
    pub archived_at: Option<i64>,
}

pub type CreateResult = SessionRecord;
pub type ListResult = Vec<SessionRecord>;
pub type HistoryResult = Vec<SequencedEvent>;

} // verus!
