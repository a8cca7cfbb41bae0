//! Operations-sidebar model: repository state reported by the daemon, the
//! client-local "keep" marks, and the repository panel that requests and
//! takes in that state.  No filesystem or process access.
use vstd::prelude::*;
use vstd::hash_map::StringHashMap;
use crate::proto::git::{GitBranch, GitBranchesResult, GitFileResult, GitFileStatus, GitStatusResult};
use crate::text::{hex16, hex_pad, is_blank, owned};
use vstd::string::*;
use vstd::std_specs::hash::DefaultHasherAdditionalSpecFns;
use std::collections::hash_map::DefaultHasher;
use std::hash::Hasher;

verus! {

pub struct OperationsModel {
    pub branch: String,
    pub files: Vec<GitFileStatus>,
    pub branches: Vec<GitBranch>,
    pub selected: Option<GitFileResult>,
    keeps: StringHashMap<String>,
    pub acknowledgement: Option<bool>,
}

#[derive(Debug, Clone, PartialEq, Eq)]
pub enum OperationsAction {
    Refresh,
    OpenFile(String),
    Stage(String),
    Unstage(String),
    /// Revert is never implicit: callers must dispatch this confirmation.
    RevertConfirmed(String),
    Keep(String),
    CreateBranch(String),
    SwitchBranch(String),
    Acknowledge { operation: String, acknowledged: bool },
}

/// Keep marks: path to the content revision that was kept.
pub open spec fn kept(keeps: Map<Seq<char>, Seq<char>>, path: Seq<char>, revision: Seq<char>) -> bool {
    keeps.contains_key(path) && keeps[path] == revision
}

impl OperationsModel {
    pub closed spec fn branch_v(&self) -> String {
        self.branch
    }

    pub closed spec fn files_v(&self) -> Vec<GitFileStatus> {
        self.files
    }

    pub closed spec fn branches_v(&self) -> Vec<GitBranch> {
        self.branches
    }

    pub closed spec fn selected_v(&self) -> Option<GitFileResult> {
        self.selected
    }

    pub closed spec fn acknowledgement_v(&self) -> Option<bool> {
        self.acknowledgement
    }

    pub closed spec fn keeps_view(&self) -> Map<Seq<char>, Seq<char>> {
        self.keeps@.map_values(|v: String| v@)
    }

    pub fn new() -> (m: Self)
        ensures
            m.branch_v()@ == Seq::<char>::empty(),
            m.files_v()@.len() == 0,
            m.branches_v()@.len() == 0,
            m.selected_v().is_none(),
            m.keeps_view() == Map::<Seq<char>, Seq<char>>::empty(),
            m.acknowledgement_v().is_none(),
    {
        let m = OperationsModel {
            branch: String::new(),
            files: Vec::new(),
            branches: Vec::new(),
            selected: None,
            keeps: StringHashMap::new(),
            acknowledgement: None,
        };
        assert(m.keeps_view() =~= Map::<Seq<char>, Seq<char>>::empty());
        m
    }

    /// Show a fresh status listing; any open file is closed.
    pub fn apply_status(&mut self, branch: String, files: Vec<GitFileStatus>)
        ensures
            final(self).branch_v() == branch,
            final(self).files_v() == files,
            final(self).selected_v().is_none(),
            final(self).branches_v() == old(self).branches_v(),
            final(self).keeps_view() == old(self).keeps_view(),
            final(self).acknowledgement_v() == old(self).acknowledgement_v(),
    {
        self.branch = branch;
        self.files = files;
        self.selected = None;
    }

    pub fn apply_branches(&mut self, branches: Vec<GitBranch>)
        ensures
            final(self).branches_v() == branches,
            final(self).branch_v() == old(self).branch_v(),
            final(self).files_v() == old(self).files_v(),
            final(self).selected_v() == old(self).selected_v(),
            final(self).keeps_view() == old(self).keeps_view(),
            final(self).acknowledgement_v() == old(self).acknowledgement_v(),
    {
        self.branches = branches;
    }

    /// Take in the daemon's branch listing: the current branch and the
    /// branches.
    pub fn apply_branch_listing(&mut self, listing: GitBranchesResult)
        ensures
            final(self).branch_v() == listing.current,
            final(self).branches_v() == listing.branches,
            final(self).files_v() == old(self).files_v(),
            final(self).selected_v() == old(self).selected_v(),
            final(self).keeps_view() == old(self).keeps_view(),
            final(self).acknowledgement_v() == old(self).acknowledgement_v(),
    {
        self.branch = listing.current;
        self.apply_branches(listing.branches);
    }

    pub fn select_file(&mut self, file: GitFileResult)
        ensures
            final(self).selected_v() == Some(file),
            final(self).branch_v() == old(self).branch_v(),
            final(self).files_v() == old(self).files_v(),
            final(self).branches_v() == old(self).branches_v(),
            final(self).keeps_view() == old(self).keeps_view(),
            final(self).acknowledgement_v() == old(self).acknowledgement_v(),
    {
        self.selected = Some(file);
    }

    /// Keep is local to this model and keyed by the content revision: a
    /// changed revision is not kept.
    pub fn is_kept(&self, path: &str, revision: &str) -> (b: bool)
        ensures
            b == kept(self.keeps_view(), path@, revision@),
    {
        match self.keeps.get(path) {
            Some(value) => crate::text::str_eq(value.as_str(), revision),
            None => false,
        }
    }

    /// Keep this revision of `path`, or un-keep it when it is already kept.
    pub fn toggle_keep(&mut self, path: String, revision: String)
        ensures
            final(self).keeps_view() == if kept(old(self).keeps_view(), path@, revision@) {
                old(self).keeps_view().remove(path@)
            } else {
                old(self).keeps_view().insert(path@, revision@)
            },
            final(self).branch_v() == old(self).branch_v(),
            final(self).files_v() == old(self).files_v(),
            final(self).branches_v() == old(self).branches_v(),
            final(self).selected_v() == old(self).selected_v(),
            final(self).acknowledgement_v() == old(self).acknowledgement_v(),
    {
        if self.is_kept(path.as_str(), revision.as_str()) {
            self.keeps.remove(path.as_str());
            assert(self.keeps_view() =~= old(self).keeps_view().remove(path@));
        } else {
            let ghost p = path@;
            let ghost r = revision@;
            self.keeps.insert(path, revision);
            assert(self.keeps_view() =~= old(self).keeps_view().insert(p, r));
        }
    }

    /// Drop the keep mark of `path` unless it is for `revision`.
    pub fn invalidate_revision(&mut self, path: &str, revision: &str)
        ensures
            final(self).keeps_view() == if kept(old(self).keeps_view(), path@, revision@) {
                old(self).keeps_view()
            } else {
                old(self).keeps_view().remove(path@)
            },
            final(self).branch_v() == old(self).branch_v(),
            final(self).files_v() == old(self).files_v(),
            final(self).branches_v() == old(self).branches_v(),
            final(self).selected_v() == old(self).selected_v(),
            final(self).acknowledgement_v() == old(self).acknowledgement_v(),
    {
        if !self.is_kept(path, revision) {
            self.keeps.remove(path);
            assert(self.keeps_view() =~= old(self).keeps_view().remove(path@));
        }
    }

    pub fn acknowledge(&mut self, value: bool)
        ensures
            final(self).acknowledgement_v() == Some(value),
            final(self).branch_v() == old(self).branch_v(),
            final(self).files_v() == old(self).files_v(),
            final(self).branches_v() == old(self).branches_v(),
            final(self).selected_v() == old(self).selected_v(),
            final(self).keeps_view() == old(self).keeps_view(),
    {
        self.acknowledgement = Some(value);
    }

    /// Open a file the daemon returned: a keep mark for another revision of
    /// it is dropped, then the file becomes the selection.
    pub fn apply_file(&mut self, file: GitFileResult)
        ensures
            final(self).selected_v() == Some(file),
            ({
                let rev = revision_of(file.content@);
                final(self).keeps_view() == if kept(old(self).keeps_view(), file.path@, rev) {
                    old(self).keeps_view()
                } else {
                    old(self).keeps_view().remove(file.path@)
                }
            }),
            final(self).branch_v() == old(self).branch_v(),
            final(self).files_v() == old(self).files_v(),
            final(self).branches_v() == old(self).branches_v(),
            final(self).acknowledgement_v() == old(self).acknowledgement_v(),
    {
        let revision = content_revision(file.content.as_str());
        self.invalidate_revision(file.path.as_str(), revision.as_str());
        self.select_file(file);
    }
}

impl Default for OperationsModel {
    fn default() -> (m: Self)
        ensures
            m.branch_v()@ == Seq::<char>::empty(),
            m.files_v()@.len() == 0,
            m.branches_v()@.len() == 0,
            m.selected_v().is_none(),
            m.keeps_view() == Map::<Seq<char>, Seq<char>>::empty(),
            m.acknowledgement_v().is_none(),
    {
        OperationsModel::new()
    }
}

/// What `Hash::hash` feeds a hasher for a text: the byte strings it writes,
/// in order.  They depend on the text alone.
pub uninterp spec fn str_hash_writes(s: Seq<char>) -> Seq<Seq<u8>>;

/// `Hash::hash` of a `str` into a `DefaultHasher`.  Claimed: the hasher's
/// writes grow by `str_hash_writes` of the text and by nothing else; which
/// bytes those are is not stated.
#[verifier::external_body]
fn hash_text(content: &str, hasher: &mut DefaultHasher)
    ensures
        final(hasher)@ == old(hasher)@ + str_hash_writes(content@),
{
    std::hash::Hash::hash(content, hasher);
}

/// The 64-bit digest of a text: what a fresh `DefaultHasher` finishes with
/// after the text is hashed into it.  Every hasher made by
/// `DefaultHasher::new` starts alike, so the digest is a function of the
/// text (for a given standard library).
pub open spec fn content_digest(s: Seq<char>) -> u64 {
    DefaultHasher::spec_finish(str_hash_writes(s))
}

fn content_hash(content: &str) -> (h: u64)
    ensures
        h == content_digest(content@),
{
    let mut hasher = DefaultHasher::new();
    hash_text(content, &mut hasher);
    assert(Seq::<Seq<u8>>::empty() + str_hash_writes(content@) =~= str_hash_writes(content@));
    hasher.finish()
}

/// The revision tag of file content: sixteen lower-case hex digits.
pub open spec fn revision_of(content: Seq<char>) -> Seq<char> {
    hex_pad(content_digest(content) as nat, 16)
}

/// A revision tag for file content: its 64-bit digest in sixteen
/// lower-case hex digits.
pub fn content_revision(content: &str) -> (r: String)
    ensures
        r@ == revision_of(content@),
{
    hex16(content_hash(content))
}

/// Keep is tied to a revision: once the content moves on to another
/// revision, the old one no longer reads as kept, and other paths keep
/// their marks.
pub proof fn law_keep_follows_revision(
    keeps: Map<Seq<char>, Seq<char>>,
    path: Seq<char>,
    kept_revision: Seq<char>,
    new_revision: Seq<char>,
    other: Seq<char>,
    any: Seq<char>,
)
    requires
        new_revision != kept_revision,
        other != path,
    ensures
        ({
            let after = if kept(keeps, path, new_revision) {
                keeps
            } else {
                keeps.remove(path)
            };
            &&& !kept(after, path, kept_revision)
            &&& kept(after, other, any) == kept(keeps, other, any)
        }),
{
}

/// Opening a file again keeps its mark while the content is the one that was
/// kept, and drops it once the content's revision differs.
pub proof fn law_reopen_follows_content(
    keeps: Map<Seq<char>, Seq<char>>,
    path: Seq<char>,
    kept_content: Seq<char>,
    content: Seq<char>,
)
    requires
        kept(keeps, path, revision_of(kept_content)),
    ensures
        ({
            let rev = revision_of(content);
            let after = if kept(keeps, path, rev) {
                keeps
            } else {
                keeps.remove(path)
            };
            &&& content == kept_content ==> after == keeps
            &&& rev != revision_of(kept_content) ==> !after.contains_key(path)
        }),
{
}

/// Toggling a keep twice gives back the marks as they were for that path.
pub proof fn law_keep_toggle_twice(
    keeps: Map<Seq<char>, Seq<char>>,
    path: Seq<char>,
    revision: Seq<char>,
)
    requires
        !keeps.contains_key(path),
    ensures
        ({
            let once = keeps.insert(path, revision);
            kept(once, path, revision) && once.remove(path) == keeps
        }),
{
    assert(keeps.insert(path, revision).remove(path) =~= keeps);
}

/// What the repository panel lists: the branch, the open file's path, each
/// change as (path, staged, modified, untracked), and the acknowledgement.
#[derive(Debug, Clone, PartialEq, Eq)]
pub struct OperationsProjection {
    pub branch: String,
    pub selected_path: Option<String>,
    pub changes: Vec<(String, bool, bool, bool)>,
    pub acknowledgement: Option<bool>,
}

pub open spec fn opt_text(o: Option<String>) -> Option<Seq<char>> {
    match o {
        Some(s) => Some(s@),
        None => None,
    }
}

pub open spec fn selected_path_of(selected: Option<GitFileResult>) -> Option<Seq<char>> {
    match selected {
        Some(f) => Some(f.path@),
        None => None,
    }
}

/// The change row of a file status.
pub open spec fn change_row(f: GitFileStatus, c: (String, bool, bool, bool)) -> bool {
    c.0@ == f.path@ && c.1 == f.staged && c.2 == f.modified && c.3 == f.untracked
}

/// The projection of the model.
pub fn describe(model: &OperationsModel) -> (r: OperationsProjection)
    ensures
        r.branch@ == model.branch_v()@,
        opt_text(r.selected_path) == selected_path_of(model.selected_v()),
        r.changes@.len() == model.files_v()@.len(),
        forall|i: int|
            0 <= i < r.changes@.len() ==> change_row(model.files_v()@[i], #[trigger] r.changes@[i]),
        r.acknowledgement == model.acknowledgement_v(),
{
    let mut changes: Vec<(String, bool, bool, bool)> = Vec::new();
    let mut i: usize = 0;
    while i < model.files.len()
        invariant
            i <= model.files@.len(),
            changes@.len() == i,
            forall|j: int| 0 <= j < i ==> change_row(model.files@[j], #[trigger] changes@[j]),
        decreases model.files@.len() - i,
    {
        let f = &model.files[i];
        changes.push((owned(f.path.as_str()), f.staged, f.modified, f.untracked));
        i = i + 1;
    }
    let selected_path = match &model.selected {
        Some(f) => Some(owned(f.path.as_str())),
        None => None,
    };
    OperationsProjection {
        branch: owned(model.branch.as_str()),
        selected_path,
        changes,
        acknowledgement: model.acknowledgement,
    }
}

/// The tabs of the repository panel.
#[derive(Debug, Clone, Copy, PartialEq, Eq, Structural)]
pub enum OperationsTab {
    Status,
    Git,
    Changes,
}

pub open spec fn tab_name(tab: OperationsTab) -> Seq<char> {
    match tab {
        OperationsTab::Status => "Status"@,
        OperationsTab::Git => "Git"@,
        OperationsTab::Changes => "Changes"@,
    }
}

/// The panel's status word: loading, the last error, or ready.
pub open spec fn panel_status(loading: bool, error: Option<Seq<char>>) -> Seq<char> {
    if loading {
        "Loading…"@
    } else {
        match error {
            Some(e) => e,
            None => "Ready"@,
        }
    }
}

pub open spec fn branch_caption(branch: Seq<char>) -> Seq<char> {
    if branch.len() == 0 {
        "(unknown)"@
    } else {
        branch
    }
}

pub open spec fn ack_caption(a: Option<bool>) -> Seq<char> {
    match a {
        Some(true) => "acknowledged"@,
        Some(false) => "not acknowledged"@,
        None => "—"@,
    }
}

/// The panel's header lines: status, branch, acknowledgement and tab.
pub fn panel_lines(
    model: &OperationsModel,
    loading: bool,
    error: &Option<String>,
    tab: OperationsTab,
) -> (r: (String, String, String, String))
    ensures
        r.0@ == "Status · "@ + panel_status(loading, opt_text(*error)),
        r.1@ == "Branch: "@ + branch_caption(model.branch_v()@),
        r.2@ == "Ack · "@ + ack_caption(model.acknowledgement_v()),
        r.3@ == "Tab · "@ + tab_name(tab),
{
    let mut status = owned("Status · ");
    if loading {
        status.append("Loading…");
    } else {
        match error {
            Some(e) => status.append(e.as_str()),
            None => status.append("Ready"),
        }
    }
    let mut branch = owned("Branch: ");
    if model.branch.unicode_len() == 0 {
        branch.append("(unknown)");
    } else {
        branch.append(model.branch.as_str());
    }
    let mut ack = owned("Ack · ");
    match model.acknowledgement {
        Some(true) => ack.append("acknowledged"),
        Some(false) => ack.append("not acknowledged"),
        None => ack.append("—"),
    }
    let mut tab_line = owned("Tab · ");
    match tab {
        OperationsTab::Status => tab_line.append("Status"),
        OperationsTab::Git => tab_line.append("Git"),
        OperationsTab::Changes => tab_line.append("Changes"),
    }
    (status, branch, ack, tab_line)
}

/// How a changed file is labelled: staged before untracked before modified.
pub fn change_label(file: &GitFileStatus) -> (r: &'static str)
    ensures
        r@ == (if file.staged {
            "staged"@
        } else if file.untracked {
            "untracked"@
        } else {
            "modified"@
        }),
{
    if file.staged {
        "staged"
    } else if file.untracked {
        "untracked"
    } else {
        "modified"
    }
}

/// The open file as shown: its path, then its content and its diff.
pub fn file_details(file: &GitFileResult) -> (r: String)
    ensures
        r@ == file.path@ + "\n\nCONTENT\n"@ + file.content@ + "\nDIFF\n"@ + file.diff@,
{
    let mut text = owned(file.path.as_str());
    text.append("\n\nCONTENT\n");
    text.append(file.content.as_str());
    text.append("\nDIFF\n");
    text.append(file.diff.as_str());
    text
}

impl OperationsModel {
    /// The keep control's label for this revision of `path`.
    pub fn keep_label(&self, path: &str, revision: &str) -> (r: &'static str)
        ensures
            r@ == (if kept(self.keeps_view(), path@, revision@) {
                "Unkeep"@
            } else {
                "Keep"@
            }),
    {
        if self.is_kept(path, revision) {
            "Unkeep"
        } else {
            "Keep"
        }
    }

    /// Keep the open file at its current content, or un-keep it.  Nothing
    /// happens without an open file.
    pub fn toggle_keep_selected(&mut self)
        ensures
            match old(self).selected_v() {
                None => final(self).keeps_view() == old(self).keeps_view(),
                Some(file) => {
                    let rev = revision_of(file.content@);
                    final(self).keeps_view() == if kept(old(self).keeps_view(), file.path@, rev) {
                        old(self).keeps_view().remove(file.path@)
                    } else {
                        old(self).keeps_view().insert(file.path@, rev)
                    }
                },
            },
            final(self).selected_v() == old(self).selected_v(),
            final(self).branch_v() == old(self).branch_v(),
            final(self).files_v() == old(self).files_v(),
            final(self).branches_v() == old(self).branches_v(),
            final(self).acknowledgement_v() == old(self).acknowledgement_v(),
    {
        let target = match &self.selected {
            Some(file) => Some((owned(file.path.as_str()), content_revision(file.content.as_str()))),
            None => None,
        };
        match target {
            Some((path, revision)) => self.toggle_keep(path, revision),
            None => {},
        }
    }
}

/// A request the repository panel sends to the daemon.
#[derive(Debug, Clone, PartialEq, Eq)]
pub enum OperationsRequest {
    Status,
    Branches,
    File(String),
    Stage(String),
    Unstage(String),
    Revert(String),
    Acknowledge,
    CreateBranch(String),
    SwitchBranch(String),
}

/// A request in flight, for the project and selection generation it was
/// sent under.
#[derive(Debug, Clone, PartialEq, Eq)]
pub struct PendingRequest {
    pub request: OperationsRequest,
    pub project_id: String,
    pub generation: u64,
}

/// What came back for a request.
#[derive(Debug, Clone, PartialEq, Eq)]
pub enum OperationsReply {
    Status(GitStatusResult),
    Branches(GitBranchesResult),
    File(GitFileResult),
    /// A mutation, a branch switch or a branch creation succeeded.
    Done,
    Acknowledged(bool),
    /// The daemon answered with an error.
    Failed(String),
    /// The request's task ended without an answer.
    Interrupted(String),
}

/// The repository panel of the conversation view: the model, whether a
/// request is running, the last error, the tab, and the project whose
/// repository is shown, with a generation that changes with the project.
pub struct OperationsPanel {
    pub model: OperationsModel,
    pub loading: bool,
    pub error: Option<String>,
    pub tab: OperationsTab,
    pub project_id: Option<String>,
    pub project_root: Option<String>,
    pub generation: u64,
}

pub open spec fn no_project_message() -> Seq<char> {
    "select a project before using repository actions"@
}

/// The model is unchanged between `a` and `b`.
pub open spec fn same_model(a: OperationsModel, b: OperationsModel) -> bool {
    &&& a.branch_v() == b.branch_v()
    &&& a.files_v() == b.files_v()
    &&& a.branches_v() == b.branches_v()
    &&& a.selected_v() == b.selected_v()
    &&& a.keeps_view() == b.keeps_view()
    &&& a.acknowledgement_v() == b.acknowledgement_v()
}

pub open spec fn fresh_model(m: OperationsModel) -> bool {
    &&& m.branch_v()@ == Seq::<char>::empty()
    &&& m.files_v()@.len() == 0
    &&& m.branches_v()@.len() == 0
    &&& m.selected_v().is_none()
    &&& m.keeps_view() == Map::<Seq<char>, Seq<char>>::empty()
    &&& m.acknowledgement_v().is_none()
}

/// A project id that names a project: a blank one counts as none.
pub open spec fn usable_id(id: Option<String>) -> Option<Seq<char>> {
    match id {
        Some(s) => if crate::text::blank(s@) {
            None
        } else {
            Some(s@)
        },
        None => None,
    }
}

/// A request that runs in the foreground shows the panel as loading; the
/// branch listing refreshes quietly.
pub open spec fn shows_loading(r: OperationsRequest) -> bool {
    !(r is Branches)
}

/// A reply is an error the panel shows: any failure, except for the quiet
/// branch listing, and except an interrupted branch creation.
pub open spec fn shown_error(r: OperationsRequest, reply: OperationsReply) -> Option<Seq<char>> {
    match reply {
        OperationsReply::Failed(e) => if r is Branches {
            None
        } else {
            Some(e@)
        },
        OperationsReply::Interrupted(e) => if r is Branches || r is CreateBranch {
            None
        } else {
            Some(e@)
        },
        _ => None,
    }
}

/// The requests a reply calls for: after a successful mutation or branch
/// switch the whole panel is reloaded; after a branch creation, answered or
/// not, the branch list is.
pub open spec fn follow_ups(r: OperationsRequest, reply: OperationsReply) -> Seq<OperationsRequest> {
    match r {
        OperationsRequest::Stage(_) | OperationsRequest::Unstage(_) | OperationsRequest::Revert(_)
        | OperationsRequest::SwitchBranch(_) => if reply is Done {
            seq![OperationsRequest::Status, OperationsRequest::Branches]
        } else {
            Seq::empty()
        },
        OperationsRequest::CreateBranch(_) => match reply {
            OperationsReply::Done | OperationsReply::Failed(_) | OperationsReply::Interrupted(_) => seq![
                OperationsRequest::Branches,
            ],
            _ => Seq::empty(),
        },
        _ => Seq::empty(),
    }
}

impl OperationsPanel {
    pub fn new() -> (p: Self)
        ensures
            fresh_model(p.model),
            !p.loading,
            p.error is None,
            p.tab == OperationsTab::Status,
            p.project_id is None,
            p.project_root is None,
            p.generation == 0,
    {
        OperationsPanel {
            model: OperationsModel::new(),
            loading: false,
            error: None,
            tab: OperationsTab::Status,
            project_id: None,
            project_root: None,
            generation: 0,
        }
    }

    pub fn set_tab(&mut self, tab: OperationsTab)
        ensures
            final(self).tab == tab,
            same_model(final(self).model, old(self).model),
            final(self).loading == old(self).loading,
            final(self).error == old(self).error,
            final(self).project_id == old(self).project_id,
            final(self).generation == old(self).generation,
    {
        self.tab = tab;
    }

    /// Show another project's repository.  A blank id counts as none.  When
    /// the project or its root changes, everything shown of the previous one
    /// is dropped and the generation moves on, so that late replies for it
    /// are ignored; the result says whether that happened.
    pub fn select_project(&mut self, project_id: Option<String>, root: Option<String>) -> (changed:
        bool)
        ensures
            changed == !(usable_id(project_id) == opt_text(old(self).project_id) && opt_text(root)
                == opt_text(old(self).project_root)),
            changed ==> {
                &&& opt_text(final(self).project_id) == usable_id(project_id)
                &&& opt_text(final(self).project_root) == opt_text(root)
                &&& final(self).generation == (if old(self).generation == u64::MAX {
                    0
                } else {
                    old(self).generation + 1
                })
                &&& fresh_model(final(self).model)
                &&& !final(self).loading
                &&& final(self).error is None
            },
            !changed ==> {
                &&& final(self).project_id == old(self).project_id
                &&& final(self).project_root == old(self).project_root
                &&& final(self).generation == old(self).generation
                &&& same_model(final(self).model, old(self).model)
                &&& final(self).loading == old(self).loading
                &&& final(self).error == old(self).error
            },
            final(self).tab == old(self).tab,
    {
        let project_id = match project_id {
            Some(id) => if is_blank(id.as_str()) {
                None
            } else {
                Some(id)
            },
            None => None,
        };
        let same_id = match (&project_id, &self.project_id) {
            (Some(a), Some(b)) => crate::text::str_eq(a.as_str(), b.as_str()),
            (None, None) => true,
            _ => false,
        };
        let same_root = match (&root, &self.project_root) {
            (Some(a), Some(b)) => crate::text::str_eq(a.as_str(), b.as_str()),
            (None, None) => true,
            _ => false,
        };
        if same_id && same_root {
            return false;
        }
        self.project_id = project_id;
        self.project_root = root;
        self.generation = self.generation.wrapping_add(1);
        self.model = OperationsModel::new();
        self.loading = false;
        self.error = None;
        true
    }

    /// Start a request for the shown project.  Without a project nothing is
    /// sent and the panel says why.
    pub fn begin(&mut self, request: OperationsRequest) -> (r: Option<PendingRequest>)
        ensures
            match old(self).project_id {
                None => r is None && !final(self).loading && opt_text(final(self).error) == Some(
                    no_project_message(),
                ),
                Some(id) => r matches Some(p) && p.request == request && p.project_id@ == id@
                    && p.generation == old(self).generation && if shows_loading(request) {
                    final(self).loading && final(self).error is None
                } else {
                    final(self).loading == old(self).loading && final(self).error == old(
                        self,
                    ).error
                },
            },
            same_model(final(self).model, old(self).model),
            final(self).project_id == old(self).project_id,
            final(self).project_root == old(self).project_root,
            final(self).generation == old(self).generation,
            final(self).tab == old(self).tab,
    {
        let project_id = match &self.project_id {
            Some(id) => owned(id.as_str()),
            None => {
                self.loading = false;
                self.error = Some(owned("select a project before using repository actions"));
                return None;
            },
        };
        if !matches!(request, OperationsRequest::Branches) {
            self.loading = true;
            self.error = None;
        }
        Some(PendingRequest { request, project_id, generation: self.generation })
    }

    /// A reply belongs to what is shown: same generation and same project.
    pub fn is_current(&self, pending: &PendingRequest) -> (b: bool)
        ensures
            b == (pending.generation == self.generation && opt_text(self.project_id) == Some(
                pending.project_id@,
            )),
    {
        self.generation == pending.generation && match &self.project_id {
            Some(id) => crate::text::str_eq(id.as_str(), pending.project_id.as_str()),
            None => false,
        }
    }

    /// Take in the reply to a request and say which requests follow.  A
    /// reply for another project or generation changes nothing.  Otherwise a
    /// listing, file or acknowledgement is taken into the model, a
    /// successful mutation is acknowledged, the running state ends (the
    /// quiet branch listing never set it), and a failure is shown.
    pub fn finish(&mut self, pending: &PendingRequest, reply: OperationsReply) -> (r: Vec<
        OperationsRequest,
    >)
        ensures
            final(self).project_id == old(self).project_id,
            final(self).project_root == old(self).project_root,
            final(self).generation == old(self).generation,
            final(self).tab == old(self).tab,
            !old(self).is_current_spec(*pending) ==> {
                &&& r@.len() == 0
                &&& same_model(final(self).model, old(self).model)
                &&& final(self).loading == old(self).loading
                &&& final(self).error == old(self).error
            },
            old(self).is_current_spec(*pending) ==> {
                let req = pending.request;
                &&& r@ == follow_ups(req, reply)
                &&& final(self).loading == (if shows_loading(req) {
                    false
                } else {
                    old(self).loading
                })
                &&& opt_text(final(self).error) == match shown_error(req, reply) {
                    Some(e) => Some(e),
                    None => opt_text(old(self).error),
                }
                &&& match (req, reply) {
                    (OperationsRequest::Status, OperationsReply::Status(st)) => {
                        &&& final(self).model.branch_v() == st.branch
                        &&& final(self).model.files_v() == st.files
                        &&& final(self).model.selected_v().is_none()
                        &&& final(self).model.branches_v() == old(self).model.branches_v()
                        &&& final(self).model.keeps_view() == old(self).model.keeps_view()
                        &&& final(self).model.acknowledgement_v() == old(
                            self,
                        ).model.acknowledgement_v()
                    },
                    (OperationsRequest::Branches, OperationsReply::Branches(b)) => {
                        &&& final(self).model.branch_v() == b.current
                        &&& final(self).model.branches_v() == b.branches
                        &&& final(self).model.files_v() == old(self).model.files_v()
                        &&& final(self).model.selected_v() == old(self).model.selected_v()
                        &&& final(self).model.keeps_view() == old(self).model.keeps_view()
                        &&& final(self).model.acknowledgement_v() == old(
                            self,
                        ).model.acknowledgement_v()
                    },
                    (OperationsRequest::File(_), OperationsReply::File(f)) => {
                        &&& final(self).model.selected_v() == Some(f)
                        &&& {
                            let rev = revision_of(f.content@);
                            final(self).model.keeps_view() == if kept(
                                old(self).model.keeps_view(),
                                f.path@,
                                rev,
                            ) {
                                old(self).model.keeps_view()
                            } else {
                                old(self).model.keeps_view().remove(f.path@)
                            }
                        }
                        &&& final(self).model.branch_v() == old(self).model.branch_v()
                        &&& final(self).model.files_v() == old(self).model.files_v()
                        &&& final(self).model.branches_v() == old(self).model.branches_v()
                        &&& final(self).model.acknowledgement_v() == old(
                            self,
                        ).model.acknowledgement_v()
                    },
                    (OperationsRequest::Stage(_), OperationsReply::Done)
                    | (OperationsRequest::Unstage(_), OperationsReply::Done)
                    | (OperationsRequest::Revert(_), OperationsReply::Done) => {
                        &&& final(self).model.acknowledgement_v() == Some(true)
                        &&& final(self).model.branch_v() == old(self).model.branch_v()
                        &&& final(self).model.files_v() == old(self).model.files_v()
                        &&& final(self).model.branches_v() == old(self).model.branches_v()
                        &&& final(self).model.selected_v() == old(self).model.selected_v()
                        &&& final(self).model.keeps_view() == old(self).model.keeps_view()
                    },
                    (OperationsRequest::Acknowledge, OperationsReply::Acknowledged(a)) => {
                        &&& final(self).model.acknowledgement_v() == Some(a)
                        &&& final(self).model.branch_v() == old(self).model.branch_v()
                        &&& final(self).model.files_v() == old(self).model.files_v()
                        &&& final(self).model.branches_v() == old(self).model.branches_v()
                        &&& final(self).model.selected_v() == old(self).model.selected_v()
                        &&& final(self).model.keeps_view() == old(self).model.keeps_view()
                    },
                    _ => same_model(final(self).model, old(self).model),
                }
            },
    {
        if !self.is_current(pending) {
            return Vec::new();
        }
        let quiet = matches!(pending.request, OperationsRequest::Branches);
        if !quiet {
            self.loading = false;
        }
        let mut next: Vec<OperationsRequest> = Vec::new();
        match reply {
            OperationsReply::Status(st) => if matches!(pending.request, OperationsRequest::Status) {
                self.model.apply_status(st.branch, st.files);
            },
            OperationsReply::Branches(b) => if quiet {
                self.model.apply_branch_listing(b);
            },
            OperationsReply::File(f) => if matches!(pending.request, OperationsRequest::File(_)) {
                self.model.apply_file(f);
            },
            OperationsReply::Acknowledged(a) => if matches!(
                pending.request,
                OperationsRequest::Acknowledge
            ) {
                self.model.acknowledge(a);
            },
            OperationsReply::Done => match pending.request {
                OperationsRequest::Stage(_) | OperationsRequest::Unstage(_)
                | OperationsRequest::Revert(_) => {
                    self.model.acknowledge(true);
                    next.push(OperationsRequest::Status);
                    next.push(OperationsRequest::Branches);
                },
                OperationsRequest::SwitchBranch(_) => {
                    next.push(OperationsRequest::Status);
                    next.push(OperationsRequest::Branches);
                },
                OperationsRequest::CreateBranch(_) => next.push(OperationsRequest::Branches),
                _ => {},
            },
            OperationsReply::Failed(e) => {
                if !quiet {
                    self.error = Some(e);
                }
                if matches!(pending.request, OperationsRequest::CreateBranch(_)) {
                    next.push(OperationsRequest::Branches);
                }
            },
            OperationsReply::Interrupted(e) => match pending.request {
                OperationsRequest::Branches => {},
                OperationsRequest::CreateBranch(_) => next.push(OperationsRequest::Branches),
                _ => self.error = Some(e),
            },
        }
        next
    }
}

impl OperationsPanel {
    pub open spec fn is_current_spec(&self, pending: PendingRequest) -> bool {
        pending.generation == self.generation && opt_text(self.project_id) == Some(
            pending.project_id@,
        )
    }
}

/// Once another project (or root) is shown, no reply to a request sent
/// before can be taken for the shown repository: the generation always
/// moves on, also when it wraps around.
pub proof fn law_reselection_drops_pending_replies(
    before: OperationsPanel,
    after: OperationsPanel,
    pending: PendingRequest,
)
    requires
        pending.generation == before.generation,
        after.generation == (if before.generation == u64::MAX {
            0
        } else {
            before.generation + 1
        }),
    ensures
        !after.is_current_spec(pending),
{
}


/// A successful mutation (stage, unstage, revert) or branch switch is
/// followed by a full reload, the status and then the branches, so the
/// panel never keeps showing the repository as it was; a failed or
/// interrupted one asks for nothing more.
pub proof fn law_successful_changes_reload(req: OperationsRequest, reply: OperationsReply)
    requires
        req is Stage || req is Unstage || req is Revert || req is SwitchBranch,
    ensures
        reply is Done ==> follow_ups(req, reply) == seq![OperationsRequest::Status, OperationsRequest::Branches],
        !(reply is Done) ==> follow_ups(req, reply).len() == 0,
{
}

} // verus!
