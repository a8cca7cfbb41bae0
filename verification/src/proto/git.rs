//! Typed Git operations exposed by the daemon.  Paths are relative to the
//! selected project and must not escape it.
use vstd::prelude::*;
use crate::text::{blank, is_blank};

verus! {

pub const METHOD_GIT_STATUS: &'static str = "git.status";
pub const METHOD_GIT_FILE: &'static str = "git.file";
pub const METHOD_GIT_STAGE: &'static str = "git.stage";
pub const METHOD_GIT_UNSTAGE: &'static str = "git.unstage";
pub const METHOD_GIT_REVERT: &'static str = "git.revert";
pub const METHOD_GIT_ACK: &'static str = "git.ack";
pub const METHOD_GIT_BRANCHES: &'static str = "git.branches";
pub const METHOD_GIT_BRANCH_CREATE: &'static str = "git.branch.create";
pub const METHOD_GIT_BRANCH_SWITCH: &'static str = "git.branch.switch";

#[derive(Debug, Clone, PartialEq, Eq)]
pub struct GitStatusParams {
    pub project: String,
}

#[derive(Debug, Clone, PartialEq, Eq)]
pub struct GitStatusResult {
    pub branch: String,
    pub files: Vec<GitFileStatus>,
}

#[derive(Debug, Clone, PartialEq, Eq)]
pub struct GitFileParams {
    pub project: String,
    pub path: String,
}

#[derive(Debug, Clone, PartialEq, Eq)]
pub struct GitFileResult {
    pub path: String,
    pub content: String,
    pub diff: String,
}

#[derive(Debug, Clone, PartialEq, Eq)]
pub struct GitPathParams {
    pub project: String,
    pub path: String,
}

#[derive(Debug, Clone, PartialEq, Eq)]
pub struct GitRevertParams {
    pub project: String,
    pub path: String,
    pub confirmed: bool,
}

#[derive(Debug, Clone, PartialEq, Eq)]
pub struct GitBranchesParams {
    pub project: String,
}

#[derive(Debug, Clone, PartialEq, Eq)]
pub struct GitBranchesResult {
    pub current: String,
    pub branches: Vec<GitBranch>,
}

#[derive(Debug, Clone, PartialEq, Eq)]
pub struct GitBranchCreateParams {
    pub project: String,
    pub name: String,
}

#[derive(Debug, Clone, PartialEq, Eq)]
pub struct GitBranchSwitchParams {
    pub project: String,
    pub name: String,
}

#[derive(Debug, Clone, PartialEq, Eq)]
pub struct GitAckParams {
    pub project: String,
    pub operation: String,
    pub acknowledged: bool,
}

#[derive(Debug, Clone, PartialEq, Eq)]
pub struct GitAckResult {
    pub acknowledged: bool,
}

#[derive(Debug, Clone, PartialEq, Eq)]
pub struct GitFileStatus {
    pub path: String,
    pub staged: bool,
    pub modified: bool,
    pub untracked: bool,
}

#[derive(Debug, Clone, PartialEq, Eq)]
pub struct GitBranch {
    pub name: String,
    pub current: bool,
}

/// `p` has a `/`-separated segment that is exactly `..`.
pub open spec fn has_parent_segment(p: Seq<char>) -> bool {
    exists|i: int|
        0 <= i && i + 2 <= p.len() && #[trigger] p[i] == '.' && p[i + 1] == '.' && (i == 0 || p[i
            - 1] == '/') && (i + 2 == p.len() || p[i + 2] == '/')
}

/// A path that stays inside the project: not blank, not `.`, not absolute,
/// and without a `..` segment.
pub open spec fn project_path(p: Seq<char>) -> bool {
    &&& !blank(p)
    &&& p != seq!['.']
    &&& !(p.len() > 0 && p[0] == '/')
    &&& !has_parent_segment(p)
}

impl GitPathParams {
    pub fn validate_path(&self) -> (ok: bool)
        ensures
            ok == project_path(self.path@),
    {
        is_project_path(self.path.as_str())
    }
}

impl GitRevertParams {
    /// A revert is accepted only when explicitly confirmed and its path is safe.
    pub fn validate(&self) -> (ok: bool)
        ensures
            ok == (self.confirmed && project_path(self.path@)),
    {
        self.confirmed && is_project_path(self.path.as_str())
    }
}

fn is_project_path(path: &str) -> (ok: bool)
    ensures
        ok == project_path(path@),
{
    if is_blank(path) {
        return false;
    }
    let n = path.unicode_len();
    if n == 1 && path.get_char(0) == '.' {
        assert(path@ =~= seq!['.']);
        return false;
    }
    if n > 0 && path.get_char(0) == '/' {
        return false;
    }
    assert(path@ != seq!['.']);
    let mut i: usize = 0;
    while n >= 2 && i <= n - 2
        invariant
            n == path@.len(),
            forall|j: int|
                0 <= j < i && j + 2 <= n ==> !(#[trigger] path@[j] == '.' && path@[j + 1] == '.'
                    && (j == 0 || path@[j - 1] == '/') && (j + 2 == n || path@[j + 2] == '/')),
        decreases n - i,
    {
        if path.get_char(i) == '.' && path.get_char(i + 1) == '.' && (i == 0 || path.get_char(
            i - 1,
        ) == '/') && (i + 2 == n || path.get_char(i + 2) == '/') {
            return false;
        }
        i = i + 1;
    }
    true
}

} // verus!
