//! Typed project-registry shapes.
use vstd::prelude::*;

verus! {

pub const METHOD_PROJECT_LIST: &'static str = "project.list";
pub const METHOD_PROJECT_CREATE: &'static str = "project.create";
pub const METHOD_PROJECT_RENAME: &'static str = "project.rename";
pub const METHOD_PROJECT_REPATH: &'static str = "project.repath";
pub const METHOD_PROJECT_UNREGISTER: &'static str = "project.unregister";
pub const METHOD_PROJECT_REACTIVATE: &'static str = "project.reactivate";
pub const METHOD_PROJECT_NEW_ID: &'static str = "project.new_id";

/// The durable project record exposed on the wire.
#[derive(Debug, Clone, PartialEq, Eq)]
pub struct Project {
    pub id: String,
    pub name: String,
    pub root: String,
    pub active: bool,
    pub created_at: i64,
    pub updated_at: i64,
}

#[derive(Debug, Clone, PartialEq, Eq)]
pub struct ProjectListParams {
    pub include_inactive: Option<bool>,
}

#[derive(Debug, Clone, PartialEq, Eq)]
pub struct ProjectListResult {
    pub projects: Vec<Project>,
}

#[derive(Debug, Clone, PartialEq, Eq)]
pub struct ProjectCreateParams {
    pub name: String,
    pub root: String,
}

#[derive(Debug, Clone, PartialEq, Eq)]
pub struct ProjectCreateResult {
    pub project: Project,
}

#[derive(Debug, Clone, PartialEq, Eq)]
pub struct ProjectRenameParams {
    pub project_id: String,
    pub name: String,
}

#[derive(Debug, Clone, PartialEq, Eq)]
pub struct ProjectRepathParams {
    pub project_id: String,
    pub root: String,
}

#[derive(Debug, Clone, PartialEq, Eq)]
pub struct ProjectMutationResult {
    pub project: Project,
}

#[derive(Debug, Clone, PartialEq, Eq)]
pub struct ProjectIdParams {
    pub project_id: String,
}

#[derive(Debug, Clone, PartialEq, Eq)]
pub struct ProjectActionResult {
    pub project: Project,
}

#[derive(Debug, Clone, PartialEq, Eq)]
pub struct ProjectNewIdParams {
    pub project_id: Option<String>,
}

#[derive(Debug, Clone, PartialEq, Eq)]
pub struct ProjectNewIdResult {
    pub project_id: String,
}

/// Why a required identifier was refused.
#[derive(Debug, Clone, PartialEq, Eq)]
pub enum NonEmptyError {
    Empty,
}

/// The check behind the wire's non-empty identifiers: the empty string is
/// refused, every other value (blank ones included) is kept unchanged.
pub fn non_empty(value: String) -> (r: Result<String, NonEmptyError>)
    ensures
        value@.len() == 0 ==> r == Err::<String, NonEmptyError>(NonEmptyError::Empty),
        value@.len() != 0 ==> r == Ok::<String, NonEmptyError>(value),
{
    if value.as_str().is_empty() {
        Err(NonEmptyError::Empty)
    } else {
        Ok(value)
    }
}

} // verus!
