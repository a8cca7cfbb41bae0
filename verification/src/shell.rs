//! The project shell: a small projection around the projects boundary.
//! It stays independent of the daemon, so loading, empty and failure states
//! are reachable before a connection exists.  Roots are the text of their
//! paths.
use crate::projects::ProjectAction;
use crate::text::{ends_with, has_suffix, is_blank, owned, trim_end_all, trim_end_matches};
use vstd::prelude::*;
use vstd::string::*;

verus! {

#[derive(Debug, Clone, PartialEq, Eq)]
pub struct ProjectItem {
    pub id: String,
    pub name: String,
    pub path: String,
}

pub open spec fn inactive_suffix() -> Seq<char> {
    " (inactive)"@
}

/// The label of a project in the list: inactive projects stay listed, so
/// that they can be reactivated or given a new id, and say so.
pub open spec fn item_label(name: Seq<char>, inactive: bool) -> Seq<char> {
    if inactive {
        name + inactive_suffix()
    } else {
        name
    }
}

fn label(name: &str, inactive: bool) -> (r: String)
    ensures
        r@ == item_label(name@, inactive),
{
    let mut r = owned(name);
    if inactive {
        r.append(" (inactive)");
    }
    r
}

impl ProjectItem {
    /// The list entry of a registered project.
    pub fn from_project(project: &crate::projects::Project) -> (item: Self)
        ensures
            item.id@ == project.id@,
            item.name@ == item_label(project.name@, project.inactive),
            item.path@ == project.root@,
    {
        ProjectItem {
            id: owned(project.id.as_str()),
            name: label(project.name.as_str(), project.inactive),
            path: owned(project.root.as_str()),
        }
    }
}

/// The list entries of the daemon's project records, in order.
pub fn project_items(projects: &[crate::proto::projects::Project]) -> (r: Vec<ProjectItem>)
    ensures
        r@.len() == projects@.len(),
        forall|i: int|
            0 <= i < r@.len() ==> {
                &&& (#[trigger] r@[i]).id@ == projects@[i].id@
                &&& r@[i].name@ == item_label(projects@[i].name@, !projects@[i].active)
                &&& r@[i].path@ == projects@[i].root@
            },
{
    let mut r: Vec<ProjectItem> = Vec::new();
    let mut i: usize = 0;
    while i < projects.len()
        invariant
            i <= projects@.len(),
            r@.len() == i,
            forall|j: int|
                0 <= j < i ==> {
                    &&& (#[trigger] r@[j]).id@ == projects@[j].id@
                    &&& r@[j].name@ == item_label(projects@[j].name@, !projects@[j].active)
                    &&& r@[j].path@ == projects@[j].root@
                },
        decreases projects@.len() - i,
    {
        let p = &projects[i];
        r.push(
            ProjectItem {
                id: owned(p.id.as_str()),
                name: label(p.name.as_str(), !p.active),
                path: owned(p.root.as_str()),
            },
        );
        i = i + 1;
    }
    r
}

#[derive(Debug, Clone, PartialEq, Eq)]
pub enum ProjectState {
    Loading,
    Ready(Vec<ProjectItem>),
    Empty,
    Error(String),
}

#[derive(Debug, Clone, Copy, PartialEq, Eq, Structural)]
pub enum ShellLayout {
    Full,
    Rail,
    ContentOnly,
}

/// Actions emitted by shell controls.  The parent view translates them into
/// the project service; this module owns no wire protocol.
#[derive(Debug, Clone, PartialEq, Eq)]
pub enum ShellAction {
    ToggleProjects,
    NewProject,
    RetryProjects,
    SelectProject(String),
}

pub enum ShellActionView {
    ToggleProjects,
    NewProject,
    RetryProjects,
    SelectProject(Seq<char>),
}

impl View for ShellAction {
    type V = ShellActionView;

    open spec fn view(&self) -> ShellActionView {
        match self {
            ShellAction::ToggleProjects => ShellActionView::ToggleProjects,
            ShellAction::NewProject => ShellActionView::NewProject,
            ShellAction::RetryProjects => ShellActionView::RetryProjects,
            ShellAction::SelectProject(id) => ShellActionView::SelectProject(id@),
        }
    }
}

/// The typed boundary of the shell's controls: the service behind it can be
/// a daemon, an in-process registry or a test double.
#[derive(Debug, Clone, PartialEq, Eq)]
pub enum ProjectServiceAction {
    Create { name: String, root: String },
    CreateNewId(String),
    Select(String),
    Update { id: String, name: String, root: String },
    Unregister(String),
    Reactivate(String),
}

pub enum ServiceActionView {
    Create { name: Seq<char>, root: Seq<char> },
    CreateNewId(Seq<char>),
    Select(Seq<char>),
    Update { id: Seq<char>, name: Seq<char>, root: Seq<char> },
    Unregister(Seq<char>),
    Reactivate(Seq<char>),
}

impl View for ProjectServiceAction {
    type V = ServiceActionView;

    open spec fn view(&self) -> ServiceActionView {
        match self {
            ProjectServiceAction::Create { name, root } => ServiceActionView::Create {
                name: name@,
                root: root@,
            },
            ProjectServiceAction::CreateNewId(id) => ServiceActionView::CreateNewId(id@),
            ProjectServiceAction::Select(id) => ServiceActionView::Select(id@),
            ProjectServiceAction::Update { id, name, root } => ServiceActionView::Update {
                id: id@,
                name: name@,
                root: root@,
            },
            ProjectServiceAction::Unregister(id) => ServiceActionView::Unregister(id@),
            ProjectServiceAction::Reactivate(id) => ServiceActionView::Reactivate(id@),
        }
    }
}

pub open spec fn opt_action(o: Option<ProjectServiceAction>) -> Option<ServiceActionView> {
    match o {
        Some(a) => Some(a@),
        None => None,
    }
}

pub open spec fn opt_shell_action(o: Option<ShellAction>) -> Option<ShellActionView> {
    match o {
        Some(a) => Some(a@),
        None => None,
    }
}

pub open spec fn opt_seq(o: Option<String>) -> Option<Seq<char>> {
    match o {
        Some(s) => Some(s@),
        None => None,
    }
}

fn copy_action(a: &ProjectServiceAction) -> (r: ProjectServiceAction)
    ensures
        r@ == a@,
{
    match a {
        ProjectServiceAction::Create { name, root } => ProjectServiceAction::Create {
            name: owned(name.as_str()),
            root: owned(root.as_str()),
        },
        ProjectServiceAction::CreateNewId(id) => ProjectServiceAction::CreateNewId(
            owned(id.as_str()),
        ),
        ProjectServiceAction::Select(id) => ProjectServiceAction::Select(owned(id.as_str())),
        ProjectServiceAction::Update { id, name, root } => ProjectServiceAction::Update {
            id: owned(id.as_str()),
            name: owned(name.as_str()),
            root: owned(root.as_str()),
        },
        ProjectServiceAction::Unregister(id) => ProjectServiceAction::Unregister(
            owned(id.as_str()),
        ),
        ProjectServiceAction::Reactivate(id) => ProjectServiceAction::Reactivate(
            owned(id.as_str()),
        ),
    }
}

#[derive(Debug, Clone, Copy, PartialEq, Eq, Structural)]
pub enum InactiveProjectChoice {
    Reactivate,
    CreateNew,
}

#[derive(Debug, Clone, PartialEq, Eq)]
pub struct CreateProjectPrompt {
    pub name: String,
    pub root: String,
    pub open: bool,
}

#[derive(Debug, Clone, PartialEq, Eq)]
pub enum LifecycleStatus {
    Idle,
    Loading,
    Error(String),
    Acknowledged(String),
}

/// Where the shell's production controls send their actions.
pub trait ProjectServiceAdapter {
    fn dispatch(&mut self, action: ProjectServiceAction);
}

/// A stable projection of the shell, for the view and for tests.
#[derive(Debug, Clone, PartialEq, Eq)]
pub struct ShellDescription {
    pub layout: ShellLayout,
    pub state: &'static str,
    pub selected: Option<String>,
    pub project_count: usize,
}

pub struct ProjectShell {
    pub projects: ProjectState,
    pub selected: Option<String>,
    pub projects_visible: bool,
    pub last_action: Option<ShellAction>,
    pub last_service_action: Option<ProjectServiceAction>,
    pub create_prompt: Option<CreateProjectPrompt>,
    pub lifecycle: LifecycleStatus,
    pub inactive_choice: Option<(String, String, String)>,
    pub menu_open_for: Option<String>,
}

/// The final component of a path, when it has one (`Path::file_name`).  The
/// rules of path syntax are not restated here.
pub uninterp spec fn path_file_name(path: Seq<char>) -> Option<Seq<char>>;

/// `Path::new(path).file_name()`, as text; it depends on the path alone.
#[verifier::external_body]
fn file_name(path: &str) -> (r: Option<String>)
    ensures
        opt_seq(r) == path_file_name(path@),
{
    std::path::Path::new(path).file_name().and_then(|n| n.to_str()).map(String::from)
}

/// The name a create prompt proposes for a root: its last path component,
/// else `project`.
pub open spec fn proposed_name(root: Seq<char>) -> Seq<char> {
    match path_file_name(root) {
        Some(n) => n,
        None => "project"@,
    }
}

/// The shell's state word.
pub open spec fn state_word(p: ProjectState) -> Seq<char> {
    match p {
        ProjectState::Loading => "loading"@,
        ProjectState::Ready(_) => "ready"@,
        ProjectState::Empty => "empty"@,
        ProjectState::Error(_) => "error"@,
    }
}

pub open spec fn item_count(p: ProjectState) -> nat {
    match p {
        ProjectState::Ready(items) => items@.len(),
        _ => 0,
    }
}

impl ProjectShell {
    pub fn new(projects: ProjectState) -> (s: Self)
        ensures
            s.projects == projects,
            s.selected is None,
            s.projects_visible,
            s.last_action is None,
            s.last_service_action is None,
            s.create_prompt is None,
            s.lifecycle == LifecycleStatus::Idle,
            s.inactive_choice is None,
            s.menu_open_for is None,
    {
        ProjectShell {
            projects,
            selected: None,
            projects_visible: true,
            last_action: None,
            last_service_action: None,
            create_prompt: None,
            lifecycle: LifecycleStatus::Idle,
            inactive_choice: None,
            menu_open_for: None,
        }
    }

    /// Select a project: it becomes the selection, the last action, and the
    /// request to the service.
    pub fn select(&mut self, id: String)
        ensures
            opt_seq(final(self).selected) == Some(id@),
            opt_shell_action(final(self).last_action) == Some(ShellActionView::SelectProject(id@)),
            opt_action(final(self).last_service_action) == Some(ServiceActionView::Select(id@)),
            final(self).projects == old(self).projects,
            final(self).projects_visible == old(self).projects_visible,
            final(self).create_prompt == old(self).create_prompt,
            final(self).lifecycle == old(self).lifecycle,
            final(self).inactive_choice == old(self).inactive_choice,
            final(self).menu_open_for == old(self).menu_open_for,
    {
        self.selected = Some(owned(id.as_str()));
        self.last_action = Some(ShellAction::SelectProject(owned(id.as_str())));
        self.last_service_action = Some(ProjectServiceAction::Select(id));
    }

    /// Record a service action; a selection also selects.
    pub fn dispatch_project_action(&mut self, action: ProjectServiceAction)
        ensures
            opt_action(final(self).last_service_action) == Some(action@),
            match action {
                ProjectServiceAction::Select(id) => opt_seq(final(self).selected) == Some(id@)
                    && opt_shell_action(final(self).last_action) == Some(
                    ShellActionView::SelectProject(id@),
                ),
                _ => final(self).selected == old(self).selected && final(self).last_action == old(
                    self,
                ).last_action,
            },
            final(self).projects == old(self).projects,
            final(self).projects_visible == old(self).projects_visible,
            final(self).create_prompt == old(self).create_prompt,
            final(self).lifecycle == old(self).lifecycle,
            final(self).inactive_choice == old(self).inactive_choice,
            final(self).menu_open_for == old(self).menu_open_for,
    {
        if let ProjectServiceAction::Select(id) = &action {
            self.select(owned(id.as_str()));
        }
        self.last_service_action = Some(action);
    }

    /// Hand an action to the service, then record it.
    pub fn dispatch_to<A: ProjectServiceAdapter>(
        &mut self,
        adapter: &mut A,
        action: ProjectServiceAction,
    )
        ensures
            opt_action(final(self).last_service_action) == Some(action@),
    {
        adapter.dispatch(copy_action(&action));
        self.dispatch_project_action(action);
    }

    pub fn create_project(&mut self, name: String, root: String)
        ensures
            opt_action(final(self).last_service_action) == Some(
                ServiceActionView::Create { name: name@, root: root@ },
            ),
            final(self).selected == old(self).selected,
            final(self).create_prompt == old(self).create_prompt,
            final(self).lifecycle == old(self).lifecycle,
    {
        self.dispatch_project_action(ProjectServiceAction::Create { name, root });
    }

    /// Open the create form, its name proposed from the chosen root.
    pub fn open_create_prompt(&mut self, root: String)
        ensures
            match final(self).create_prompt {
                Some(p) => p.name@ == proposed_name(root@) && p.root@ == root@ && p.open,
                None => false,
            },
            opt_shell_action(final(self).last_action) == Some(ShellActionView::NewProject),
            final(self).last_service_action == old(self).last_service_action,
            final(self).lifecycle == old(self).lifecycle,
            final(self).projects == old(self).projects,
            final(self).selected == old(self).selected,
            final(self).menu_open_for == old(self).menu_open_for,
            final(self).inactive_choice == old(self).inactive_choice,
    {
        let name = match file_name(root.as_str()) {
            Some(n) => n,
            None => owned("project"),
        };
        self.create_prompt = Some(CreateProjectPrompt { name, root, open: true });
        self.last_action = Some(ShellAction::NewProject);
    }

    /// Fill in the open create form.
    pub fn set_create_fields(&mut self, name: String, root: String)
        ensures
            match old(self).create_prompt {
                Some(p) => final(self).create_prompt == Some(
                    CreateProjectPrompt { name: name, root: root, ..p },
                ),
                None => final(self).create_prompt is None,
            },
            final(self).last_action == old(self).last_action,
            final(self).last_service_action == old(self).last_service_action,
    {
        match self.create_prompt.take() {
            Some(p) => {
                self.create_prompt = Some(CreateProjectPrompt { name, root, open: p.open });
            },
            None => {},
        }
    }

    /// Submit the create form: a blank name or an empty root keeps the form
    /// open and sends nothing; otherwise the creation is sent and the shell
    /// waits for the result.
    pub fn submit_create_prompt(&mut self) -> (r: Option<ProjectServiceAction>)
        ensures
            match old(self).create_prompt {
                None => r is None && final(self).create_prompt is None
                    && final(self).last_service_action == old(self).last_service_action,
                Some(p) => if crate::text::blank(p.name@) || p.root@.len() == 0 {
                    r is None && final(self).create_prompt == Some(p)
                        && final(self).last_service_action == old(self).last_service_action
                        && final(self).lifecycle == old(self).lifecycle
                } else {
                    opt_action(r) == Some(ServiceActionView::Create { name: p.name@, root: p.root@ })
                        && opt_action(final(self).last_service_action) == opt_action(r)
                        && final(self).create_prompt is None && final(self).lifecycle
                        == LifecycleStatus::Loading
                },
            },
    {
        let prompt = match self.create_prompt.take() {
            Some(p) => p,
            None => return None,
        };
        if is_blank(prompt.name.as_str()) || prompt.root.as_str().unicode_len() == 0 {
            self.create_prompt = Some(prompt);
            return None;
        }
        let action = ProjectServiceAction::Create { name: prompt.name, root: prompt.root };
        self.lifecycle = LifecycleStatus::Loading;
        self.dispatch_project_action(copy_action(&action));
        Some(action)
    }

    pub fn cancel_create_prompt(&mut self)
        ensures
            final(self).create_prompt is None,
            opt_shell_action(final(self).last_action) == Some(ShellActionView::ToggleProjects),
            final(self).last_service_action == old(self).last_service_action,
    {
        self.create_prompt = None;
        self.last_action = Some(ShellAction::ToggleProjects);
    }

    pub fn set_lifecycle(&mut self, status: LifecycleStatus)
        ensures
            final(self).lifecycle == status,
            final(self).last_action == old(self).last_action,
            final(self).last_service_action == old(self).last_service_action,
    {
        self.lifecycle = status;
    }

    /// Ask the owning root to reload the project list; the shell does not
    /// load it itself.
    pub fn retry_projects(&mut self)
        ensures
            opt_shell_action(final(self).last_action) == Some(ShellActionView::RetryProjects),
            final(self).lifecycle == LifecycleStatus::Loading,
            final(self).last_service_action == old(self).last_service_action,
    {
        self.last_action = Some(ShellAction::RetryProjects);
        self.lifecycle = LifecycleStatus::Loading;
    }

    /// Remember the inactive project a registration ran into.
    pub fn choose_inactive(&mut self, id: String, name: String, root: String)
        ensures
            final(self).inactive_choice == Some((id, name, root)),
            final(self).last_service_action == old(self).last_service_action,
    {
        self.inactive_choice = Some((id, name, root));
    }

    /// Resolve the pending inactive project: reactivate it, or give its root a
    /// new id.
    pub fn submit_inactive_choice(&mut self, choice: InactiveProjectChoice) -> (r: Option<
        ProjectServiceAction,
    >)
        ensures
            match old(self).inactive_choice {
                None => r is None && final(self).last_service_action == old(
                    self,
                ).last_service_action,
                Some((id, _, _)) => {
                    &&& opt_action(r) == Some(
                        if choice == InactiveProjectChoice::Reactivate {
                            ServiceActionView::Reactivate(id@)
                        } else {
                            ServiceActionView::CreateNewId(id@)
                        },
                    )
                    &&& opt_action(final(self).last_service_action) == opt_action(r)
                    &&& final(self).lifecycle == LifecycleStatus::Loading
                },
            },
            final(self).inactive_choice is None,
    {
        let (id, _name, _root) = match self.inactive_choice.take() {
            Some(c) => c,
            None => return None,
        };
        let action = match choice {
            InactiveProjectChoice::Reactivate => ProjectServiceAction::Reactivate(id),
            InactiveProjectChoice::CreateNew => ProjectServiceAction::CreateNewId(id),
        };
        self.lifecycle = LifecycleStatus::Loading;
        self.dispatch_project_action(copy_action(&action));
        Some(action)
    }

    pub fn update_project(&mut self, id: String, name: String, root: String)
        ensures
            opt_action(final(self).last_service_action) == Some(
                ServiceActionView::Update { id: id@, name: name@, root: root@ },
            ),
    {
        self.dispatch_project_action(ProjectServiceAction::Update { id, name, root });
    }

    pub fn unregister_project(&mut self, id: String)
        ensures
            opt_action(final(self).last_service_action) == Some(
                ServiceActionView::Unregister(id@),
            ),
    {
        self.dispatch_project_action(ProjectServiceAction::Unregister(id));
    }

    /// Register a root an inactive project already has, as chosen.
    pub fn register_inactive(
        &mut self,
        id: String,
        name: String,
        root: String,
        choice: InactiveProjectChoice,
    )
        ensures
            opt_action(final(self).last_service_action) == Some(
                if choice == InactiveProjectChoice::Reactivate {
                    ServiceActionView::Reactivate(id@)
                } else {
                    ServiceActionView::CreateNewId(id@)
                },
            ),
    {
        match choice {
            InactiveProjectChoice::Reactivate => self.dispatch_project_action(
                ProjectServiceAction::Reactivate(id),
            ),
            InactiveProjectChoice::CreateNew => self.dispatch_project_action(
                ProjectServiceAction::CreateNewId(id),
            ),
        }
    }

    /// Mirror a registry action: a selection selects; any other action
    /// folds the project list away.  Either becomes the service request.
    pub fn apply_project_action(&mut self, action: ProjectAction)
        ensures
            match action {
                ProjectAction::Select(id) => opt_seq(final(self).selected) == Some(id@)
                    && opt_shell_action(final(self).last_action) == Some(
                    ShellActionView::SelectProject(id@),
                ) && opt_action(final(self).last_service_action) == Some(
                    ServiceActionView::Select(id@),
                ),
                ProjectAction::Create { name, root } => final(self).selected == old(self).selected
                    && opt_shell_action(final(self).last_action) == Some(
                    ShellActionView::ToggleProjects,
                ) && opt_action(final(self).last_service_action) == Some(
                    ServiceActionView::Create { name: name@, root: root@ },
                ),
                ProjectAction::Update { id, name, root } => final(self).selected == old(
                    self,
                ).selected && opt_shell_action(final(self).last_action) == Some(
                    ShellActionView::ToggleProjects,
                ) && opt_action(final(self).last_service_action) == Some(
                    ServiceActionView::Update { id: id@, name: name@, root: root@ },
                ),
                ProjectAction::Unregister(id) => final(self).selected == old(self).selected
                    && opt_shell_action(final(self).last_action) == Some(
                    ShellActionView::ToggleProjects,
                ) && opt_action(final(self).last_service_action) == Some(
                    ServiceActionView::Unregister(id@),
                ),
                ProjectAction::Reactivate(id) => final(self).selected == old(self).selected
                    && opt_shell_action(final(self).last_action) == Some(
                    ShellActionView::ToggleProjects,
                ) && opt_action(final(self).last_service_action) == Some(
                    ServiceActionView::Reactivate(id@),
                ),
            },
    {
        match action {
            ProjectAction::Select(id) => {
                self.selected = Some(owned(id.as_str()));
                self.last_service_action = Some(ProjectServiceAction::Select(owned(id.as_str())));
                self.last_action = Some(ShellAction::SelectProject(id));
            },
            ProjectAction::Create { name, root } => {
                self.last_service_action = Some(ProjectServiceAction::Create { name, root });
                self.last_action = Some(ShellAction::ToggleProjects);
            },
            ProjectAction::Update { id, name, root } => {
                self.last_service_action = Some(ProjectServiceAction::Update { id, name, root });
                self.last_action = Some(ShellAction::ToggleProjects);
            },
            ProjectAction::Unregister(id) => {
                self.last_service_action = Some(ProjectServiceAction::Unregister(id));
                self.last_action = Some(ShellAction::ToggleProjects);
            },
            ProjectAction::Reactivate(id) => {
                self.last_service_action = Some(ProjectServiceAction::Reactivate(id));
                self.last_action = Some(ShellAction::ToggleProjects);
            },
        }
    }

    /// The shell's description under a layout.
    pub fn describe_in(&self, layout: ShellLayout) -> (d: ShellDescription)
        ensures
            d.layout == layout,
            d.state@ == state_word(self.projects),
            opt_seq(d.selected) == opt_seq(self.selected),
            d.project_count == item_count(self.projects),
    {
        let (state, count): (&'static str, usize) = match &self.projects {
            ProjectState::Loading => ("loading", 0),
            ProjectState::Ready(items) => ("ready", items.len()),
            ProjectState::Empty => ("empty", 0),
            ProjectState::Error(_) => ("error", 0),
        };
        let selected = match &self.selected {
            Some(s) => Some(owned(s.as_str())),
            None => None,
        };
        ShellDescription { layout, state, selected, project_count: count }
    }
}

/// A control in the menu of a project row.
#[derive(Debug, Clone, Copy, PartialEq, Eq, Structural)]
pub enum RowControl {
    Reactivate,
    NewId,
    Update,
    Unregister,
}

/// A row of the project list as it is drawn: its entry, whether it is
/// inactive, selected, and whether its menu is open, and the menu's
/// controls (none while it is closed).
#[derive(Debug, Clone, PartialEq, Eq)]
pub struct ProjectRow {
    pub id: String,
    pub name: String,
    pub inactive: bool,
    pub selected: bool,
    pub menu_open: bool,
    pub menu: Vec<RowControl>,
}

/// An entry labelled inactive can be reactivated or given a new id; an
/// active one can be updated or unregistered.
pub open spec fn row_controls(inactive: bool) -> Seq<RowControl> {
    if inactive {
        seq![RowControl::Reactivate, RowControl::NewId]
    } else {
        seq![RowControl::Update, RowControl::Unregister]
    }
}

pub open spec fn is_inactive_label(name: Seq<char>) -> bool {
    has_suffix(name, inactive_suffix())
}

/// The row of `item` given the shell's selection and open menu.
pub open spec fn row_matches(
    row: ProjectRow,
    item: ProjectItem,
    selected: Option<String>,
    menu_open_for: Option<String>,
) -> bool {
    let inactive = is_inactive_label(item.name@);
    let open = opt_seq(menu_open_for) == Some(item.id@);
    &&& row.id@ == item.id@
    &&& row.name@ == item.name@
    &&& row.inactive == inactive
    &&& row.selected == (opt_seq(selected) == Some(item.id@))
    &&& row.menu_open == open
    &&& row.menu@ == (if open {
        row_controls(inactive)
    } else {
        Seq::empty()
    })
}

/// A control shown in place of the list when there is no list to show.
#[derive(Debug, Clone, Copy, PartialEq, Eq, Structural)]
pub enum ListControl {
    Refresh,
    CreateProject,
    Retry,
}

/// The notice shown in place of the list, with its control.
pub open spec fn list_notice_of(p: ProjectState) -> Option<(Seq<char>, ListControl)> {
    match p {
        ProjectState::Loading => Some(("Loading projects…"@, ListControl::Refresh)),
        ProjectState::Empty => Some(("No projects yet"@, ListControl::CreateProject)),
        ProjectState::Error(m) => Some(("Could not load projects: "@ + m@, ListControl::Retry)),
        ProjectState::Ready(_) => None,
    }
}

/// The status line under the list.
pub open spec fn lifecycle_caption(status: LifecycleStatus) -> Option<Seq<char>> {
    match status {
        LifecycleStatus::Idle => None,
        LifecycleStatus::Loading => Some("Working…"@),
        LifecycleStatus::Error(m) => Some("Error: "@ + m@),
        LifecycleStatus::Acknowledged(m) => Some(m@),
    }
}

pub fn lifecycle_message(status: &LifecycleStatus) -> (r: Option<String>)
    ensures
        opt_seq(r) == lifecycle_caption(*status),
{
    match status {
        LifecycleStatus::Idle => None,
        LifecycleStatus::Loading => Some(owned("Working…")),
        LifecycleStatus::Error(m) => {
            let mut text = owned("Error: ");
            text.append(m.as_str());
            Some(text)
        },
        LifecycleStatus::Acknowledged(m) => Some(owned(m.as_str())),
    }
}

/// Which parts a layout shows: the rail, and the list beside it.
pub fn layout_parts(layout: ShellLayout) -> (r: (bool, bool))
    ensures
        r == (match layout {
            ShellLayout::Full => (true, true),
            ShellLayout::Rail => (true, false),
            ShellLayout::ContentOnly => (false, false),
        }),
{
    match layout {
        ShellLayout::Full => (true, true),
        ShellLayout::Rail => (true, false),
        ShellLayout::ContentOnly => (false, false),
    }
}

fn opt_eq(o: &Option<String>, s: &str) -> (r: bool)
    ensures
        r == (opt_seq(*o) == Some(s@)),
{
    match o {
        Some(v) => crate::text::str_eq(v.as_str(), s),
        None => false,
    }
}

impl ProjectShell {
    /// The rows of the list, one per entry, in order; none unless the list
    /// is ready.
    pub fn project_rows(&self) -> (r: Vec<ProjectRow>)
        ensures
            match self.projects {
                ProjectState::Ready(items) => r@.len() == items@.len() && forall|i: int|
                    0 <= i < r@.len() ==> row_matches(
                        #[trigger] r@[i],
                        items@[i],
                        self.selected,
                        self.menu_open_for,
                    ),
                _ => r@.len() == 0,
            },
    {
        let mut rows: Vec<ProjectRow> = Vec::new();
        let items = match &self.projects {
            ProjectState::Ready(items) => items,
            _ => return rows,
        };
        let mut i: usize = 0;
        while i < items.len()
            invariant
                self.projects == ProjectState::Ready(*items),
                i <= items@.len(),
                rows@.len() == i,
                forall|j: int|
                    0 <= j < i ==> row_matches(
                        #[trigger] rows@[j],
                        items@[j],
                        self.selected,
                        self.menu_open_for,
                    ),
            decreases items@.len() - i,
        {
            let item = &items[i];
            let inactive = ends_with(item.name.as_str(), " (inactive)");
            proof {
                reveal_strlit(" (inactive)");
            }
            let selected = opt_eq(&self.selected, item.id.as_str());
            let menu_open = opt_eq(&self.menu_open_for, item.id.as_str());
            let menu = if !menu_open {
                Vec::new()
            } else if inactive {
                vec![RowControl::Reactivate, RowControl::NewId]
            } else {
                vec![RowControl::Update, RowControl::Unregister]
            };
            let row = ProjectRow {
                id: owned(item.id.as_str()),
                name: owned(item.name.as_str()),
                inactive,
                selected,
                menu_open,
                menu,
            };
            assert(row_matches(row, items@[i as int], self.selected, self.menu_open_for));
            rows.push(row);
            i = i + 1;
        }
        rows
    }

    /// Open the menu of a row, or close it when it is the open one.
    pub fn toggle_project_menu(&mut self, id: String)
        ensures
            opt_seq(final(self).menu_open_for) == (if opt_seq(old(self).menu_open_for) == Some(
                id@,
            ) {
                None
            } else {
                Some(id@)
            }),
            final(self).selected == old(self).selected,
            final(self).last_action == old(self).last_action,
            final(self).last_service_action == old(self).last_service_action,
            final(self).lifecycle == old(self).lifecycle,
    {
        if opt_eq(&self.menu_open_for, id.as_str()) {
            self.menu_open_for = None;
        } else {
            self.menu_open_for = Some(id);
        }
    }

    /// A click on a menu control of `item`'s row: reactivate it or give it a
    /// new id (under its name without the inactive label), update or
    /// unregister it.  The menu closes.
    pub fn click_row_control(&mut self, item: &ProjectItem, control: RowControl)
        ensures
            final(self).menu_open_for is None,
            opt_action(final(self).last_service_action) == Some(
                match control {
                    RowControl::Reactivate => ServiceActionView::Reactivate(item.id@),
                    RowControl::NewId => ServiceActionView::CreateNewId(item.id@),
                    RowControl::Update => ServiceActionView::Update {
                        id: item.id@,
                        name: item.name@,
                        root: item.path@,
                    },
                    RowControl::Unregister => ServiceActionView::Unregister(item.id@),
                },
            ),
            (control == RowControl::Reactivate || control == RowControl::NewId) ==> (final(self).lifecycle
                == LifecycleStatus::Loading && final(self).inactive_choice is None),
    {
        match control {
            RowControl::Reactivate | RowControl::NewId => {
                proof {
                    reveal_strlit(" (inactive)");
                }
                let name = trim_end_matches(item.name.as_str(), " (inactive)");
                assert(name@ == trim_end_all(item.name@, inactive_suffix()));
                self.choose_inactive(
                    owned(item.id.as_str()),
                    owned(name),
                    owned(item.path.as_str()),
                );
                let choice = match control {
                    RowControl::Reactivate => InactiveProjectChoice::Reactivate,
                    _ => InactiveProjectChoice::CreateNew,
                };
                let _ = self.submit_inactive_choice(choice);
            },
            RowControl::Update => self.update_project(
                owned(item.id.as_str()),
                owned(item.name.as_str()),
                owned(item.path.as_str()),
            ),
            RowControl::Unregister => self.unregister_project(owned(item.id.as_str())),
        }
        self.menu_open_for = None;
    }

    /// The notice shown instead of the list, if any.
    pub fn list_notice(&self) -> (r: Option<(String, ListControl)>)
        ensures
            match r {
                Some((text, control)) => list_notice_of(self.projects) == Some((text@, control)),
                None => list_notice_of(self.projects) is None,
            },
    {
        match &self.projects {
            ProjectState::Loading => Some((owned("Loading projects…"), ListControl::Refresh)),
            ProjectState::Empty => Some((owned("No projects yet"), ListControl::CreateProject)),
            ProjectState::Error(m) => {
                let mut text = owned("Could not load projects: ");
                text.append(m.as_str());
                Some((text, ListControl::Retry))
            },
            ProjectState::Ready(_) => None,
        }
    }

    /// The rail's new-project control: open the create form for `project`.
    pub fn new_project(&mut self)
        ensures
            match final(self).create_prompt {
                Some(p) => p.name@ == proposed_name("project"@) && p.root@ == "project"@ && p.open,
                None => false,
            },
            opt_shell_action(final(self).last_action) == Some(ShellActionView::NewProject),
            final(self).last_service_action == old(self).last_service_action,
            final(self).lifecycle == old(self).lifecycle,
    {
        self.open_create_prompt(owned("project"));
    }

    /// A click on the notice's control: reload, or start a project.
    pub fn click_list_control(&mut self, control: ListControl)
        ensures
            final(self).last_service_action == old(self).last_service_action,
            match control {
                ListControl::CreateProject => opt_shell_action(final(self).last_action) == Some(
                    ShellActionView::NewProject,
                ) && match final(self).create_prompt {
                    Some(p) => p.root@ == "project"@ && p.open,
                    None => false,
                },
                _ => opt_shell_action(final(self).last_action) == Some(
                    ShellActionView::RetryProjects,
                ) && final(self).lifecycle == LifecycleStatus::Loading,
            },
    {
        match control {
            ListControl::CreateProject => self.new_project(),
            ListControl::Refresh | ListControl::Retry => self.retry_projects(),
        }
    }

    /// The lines of the open create form: its name and its path.
    pub fn create_prompt_lines(&self) -> (r: Option<(String, String)>)
        ensures
            match self.create_prompt {
                Some(p) => r matches Some(l) && l.0@ == "Name: "@ + p.name@ && l.1@ == "Path: "@
                    + p.root@,
                None => r is None,
            },
    {
        match &self.create_prompt {
            Some(p) => {
                let mut name = owned("Name: ");
                name.append(p.name.as_str());
                let mut path = owned("Path: ");
                path.append(p.root.as_str());
                Some((name, path))
            },
            None => None,
        }
    }
}

/// A daemon record that is active and registered at `cwd`.
pub open spec fn active_at_root(p: crate::proto::projects::Project, cwd: Seq<char>) -> bool {
    p.active && p.root@ == cwd
}

/// Some active daemon record has this id.
pub open spec fn has_active_id(ps: Seq<crate::proto::projects::Project>, id: Seq<char>) -> bool {
    exists|i: int| 0 <= i < ps.len() && (#[trigger] ps[i]).active && ps[i].id@ == id
}

/// `i` is the first active record registered at `cwd`.
pub open spec fn first_at_root(ps: Seq<crate::proto::projects::Project>, cwd: Seq<char>, i: int) -> bool {
    &&& 0 <= i < ps.len()
    &&& active_at_root(ps[i], cwd)
    &&& forall|j: int| 0 <= j < i ==> !active_at_root(#[trigger] ps[j], cwd)
}

pub open spec fn none_at_root(ps: Seq<crate::proto::projects::Project>, cwd: Seq<char>) -> bool {
    forall|j: int| 0 <= j < ps.len() ==> !active_at_root(#[trigger] ps[j], cwd)
}

/// The project the root selects after a reload, as a relation: the
/// preferred id (else the remembered one) when an active project has it;
/// otherwise the first active project registered at the working directory;
/// otherwise none.
pub open spec fn reload_selection(
    ps: Seq<crate::proto::projects::Project>,
    preferred: Option<Seq<char>>,
    remembered: Option<Seq<char>>,
    cwd: Seq<char>,
    r: Option<Seq<char>>,
) -> bool {
    let candidate = match preferred {
        Some(p) => Some(p),
        None => remembered,
    };
    if candidate is Some && has_active_id(ps, candidate->0) {
        r == candidate
    } else {
        match r {
            Some(id) => exists|i: int| first_at_root(ps, cwd, i) && ps[i].id@ == id,
            None => none_at_root(ps, cwd),
        }
    }
}

fn find_active_id(projects: &[crate::proto::projects::Project], id: &str) -> (b: bool)
    ensures
        b == has_active_id(projects@, id@),
{
    let mut i: usize = 0;
    while i < projects.len()
        invariant
            i <= projects@.len(),
            forall|j: int| 0 <= j < i ==> !((#[trigger] projects@[j]).active && projects@[j].id@ == id@),
        decreases projects@.len() - i,
    {
        if projects[i].active && crate::text::str_eq(projects[i].id.as_str(), id) {
            return true;
        }
        i = i + 1;
    }
    false
}

fn first_active_at_root(projects: &[crate::proto::projects::Project], cwd: &str) -> (r: Option<usize>)
    ensures
        match r {
            Some(i) => first_at_root(projects@, cwd@, i as int),
            None => none_at_root(projects@, cwd@),
        },
{
    let mut i: usize = 0;
    while i < projects.len()
        invariant
            i <= projects@.len(),
            forall|j: int| 0 <= j < i ==> !active_at_root(#[trigger] projects@[j], cwd@),
        decreases projects@.len() - i,
    {
        if projects[i].active && crate::text::str_eq(projects[i].root.as_str(), cwd) {
            return Some(i);
        }
        i = i + 1;
    }
    None
}

/// Which project is selected once the daemon's list has arrived.
pub fn selection_after_reload(
    projects: &[crate::proto::projects::Project],
    preferred: Option<String>,
    remembered: Option<String>,
    cwd: &str,
) -> (r: Option<String>)
    ensures
        reload_selection(projects@, opt_seq(preferred), opt_seq(remembered), cwd@, opt_seq(r)),
{
    let candidate = match preferred {
        Some(p) => Some(p),
        None => remembered,
    };
    match candidate {
        Some(c) => if find_active_id(projects, c.as_str()) {
            return Some(c);
        },
        None => {},
    }
    match first_active_at_root(projects, cwd) {
        Some(i) => Some(owned(projects[i].id.as_str())),
        None => None,
    }
}

/// The working directory has no active registration yet.
pub fn cwd_unregistered(projects: &[crate::proto::projects::Project], cwd: &str) -> (b: bool)
    ensures
        b == none_at_root(projects@, cwd@),
{
    first_active_at_root(projects, cwd).is_none()
}

/// `i` is the first active record with this id.
pub open spec fn first_with_id(ps: Seq<crate::proto::projects::Project>, id: Seq<char>, i: int) -> bool {
    &&& 0 <= i < ps.len()
    &&& ps[i].active && ps[i].id@ == id
    &&& forall|j: int| 0 <= j < i ==> !((#[trigger] ps[j]).active && ps[j].id@ == id)
}

pub open spec fn view_selected(
    ps: Seq<crate::proto::projects::Project>,
    id: Option<Seq<char>>,
    r: Option<(String, String)>,
) -> bool {
    match id {
        None => r is None,
        Some(x) => match r {
            Some(sel) => sel.0@ == x && exists|i: int|
                first_with_id(ps, x, i) && (#[trigger] ps[i]).root@ == sel.1@,
            None => !has_active_id(ps, x),
        },
    }
}

/// What the view may select for a shell selection: only an active daemon
/// project, with its root; an inactive or unknown id selects nothing.
pub fn view_selection(projects: &[crate::proto::projects::Project], id: &Option<String>) -> (r:
    Option<(String, String)>)
    ensures
        view_selected(projects@, opt_seq(*id), r),
{
    let wanted = match id {
        Some(x) => x,
        None => return None,
    };
    assert(opt_seq(*id) == Some(wanted@));
    let mut i: usize = 0;
    while i < projects.len()
        invariant
            i <= projects@.len(),
            opt_seq(*id) == Some(wanted@),
            forall|j: int|
                0 <= j < i ==> !((#[trigger] projects@[j]).active && projects@[j].id@ == wanted@),
        decreases projects@.len() - i,
    {
        if projects[i].active && crate::text::str_eq(projects[i].id.as_str(), wanted.as_str()) {
            let found = (owned(projects[i].id.as_str()), owned(projects[i].root.as_str()));
            assert(first_with_id(projects@, wanted@, i as int));
            assert(projects@[i as int].root@ == found.1@);
            assert(view_selected(projects@, Some(wanted@), Some(found)));
            return Some(found);
        }
        i = i + 1;
    }
    None
}

/// The project a service action asks to keep selected once it is done:
/// the one it selects, updates or reactivates.
pub fn preferred_after(action: &ProjectServiceAction) -> (r: Option<String>)
    ensures
        opt_seq(r) == match action@ {
            ServiceActionView::Select(id) => Some(id),
            ServiceActionView::Update { id, .. } => Some(id),
            ServiceActionView::Reactivate(id) => Some(id),
            _ => None,
        },
{
    match action {
        ProjectServiceAction::Select(id) | ProjectServiceAction::Update { id, .. }
        | ProjectServiceAction::Reactivate(id) => Some(owned(id.as_str())),
        _ => None,
    }
}

impl ProjectShell {
    /// A reload has started.
    pub fn begin_reload(&mut self)
        ensures
            final(self).projects == ProjectState::Loading,
            final(self).lifecycle == LifecycleStatus::Loading,
            final(self).selected == old(self).selected,
            final(self).last_action == old(self).last_action,
            final(self).last_service_action == old(self).last_service_action,
    {
        self.projects = ProjectState::Loading;
        self.lifecycle = LifecycleStatus::Loading;
    }

    /// The daemon's list arrived: it is shown (or the empty state), the
    /// selection is set, the load is acknowledged, and when the working
    /// directory has no registration the create form is opened for it.
    pub fn finish_reload(
        &mut self,
        projects: &[crate::proto::projects::Project],
        selected: Option<String>,
        cwd: String,
    )
        ensures
            match final(self).projects {
                ProjectState::Empty => projects@.len() == 0,
                ProjectState::Ready(items) => projects@.len() > 0 && items@.len() == projects@.len()
                    && forall|i: int|
                    0 <= i < items@.len() ==> {
                        &&& (#[trigger] items@[i]).id@ == projects@[i].id@
                        &&& items@[i].name@ == item_label(projects@[i].name@, !projects@[i].active)
                        &&& items@[i].path@ == projects@[i].root@
                    },
                _ => false,
            },
            final(self).selected == selected,
            final(self).lifecycle matches LifecycleStatus::Acknowledged(m) && m@ == "Projects loaded"@,
            final(self).last_action == (if none_at_root(projects@, cwd@) {
                Some(ShellAction::NewProject)
            } else {
                None
            }),
            none_at_root(projects@, cwd@) ==> match final(self).create_prompt {
                Some(p) => p.root@ == cwd@ && p.name@ == proposed_name(cwd@) && p.open,
                None => false,
            },
            !none_at_root(projects@, cwd@) ==> final(self).create_prompt == old(self).create_prompt,
            final(self).last_service_action == old(self).last_service_action,
    {
        let items = project_items(projects);
        self.projects = if items.len() == 0 {
            ProjectState::Empty
        } else {
            ProjectState::Ready(items)
        };
        self.selected = selected;
        self.lifecycle = LifecycleStatus::Acknowledged(owned("Projects loaded"));
        self.last_action = None;
        if cwd_unregistered(projects, cwd.as_str()) {
            self.open_create_prompt(cwd);
        }
    }

    /// The daemon's list could not be had: the failure is shown.
    pub fn fail_reload(&mut self, error: String)
        ensures
            final(self).projects matches ProjectState::Error(e) && e@ == error@,
            final(self).lifecycle == LifecycleStatus::Error(error),
            final(self).last_action is None,
            final(self).selected == old(self).selected,
            final(self).last_service_action == old(self).last_service_action,
    {
        self.projects = ProjectState::Error(owned(error.as_str()));
        self.lifecycle = LifecycleStatus::Error(error);
        self.last_action = None;
    }

    /// A service action failed: it is forgotten and the failure is shown.
    pub fn fail_service_action(&mut self, error: String)
        ensures
            final(self).last_service_action is None,
            final(self).lifecycle == LifecycleStatus::Error(error),
            final(self).projects == old(self).projects,
            final(self).selected == old(self).selected,
            final(self).last_action == old(self).last_action,
    {
        self.last_service_action = None;
        self.lifecycle = LifecycleStatus::Error(error);
    }
}

fn same_text(a: &Option<String>, b: &Option<String>) -> (r: bool)
    ensures
        r == (opt_seq(*a) == opt_seq(*b)),
{
    match (a, b) {
        (Some(x), Some(y)) => crate::text::str_eq(x.as_str(), y.as_str()),
        (None, None) => true,
        _ => false,
    }
}

fn same_action(a: &Option<ProjectServiceAction>, b: &Option<ProjectServiceAction>) -> (r: bool)
    ensures
        r == (opt_action(*a) == opt_action(*b)),
{
    let eq = |x: &String, y: &String| -> (r: bool)
        ensures
            r == (x@ == y@),
        { crate::text::str_eq(x.as_str(), y.as_str()) };
    match (a, b) {
        (None, None) => true,
        (Some(x), Some(y)) => match (x, y) {
            (
                ProjectServiceAction::Create { name: n1, root: r1 },
                ProjectServiceAction::Create { name: n2, root: r2 },
            ) => eq(n1, n2) && eq(r1, r2),
            (ProjectServiceAction::CreateNewId(i1), ProjectServiceAction::CreateNewId(i2)) => eq(
                i1,
                i2,
            ),
            (ProjectServiceAction::Select(i1), ProjectServiceAction::Select(i2)) => eq(i1, i2),
            (
                ProjectServiceAction::Update { id: i1, name: n1, root: r1 },
                ProjectServiceAction::Update { id: i2, name: n2, root: r2 },
            ) => eq(i1, i2) && eq(n1, n2) && eq(r1, r2),
            (ProjectServiceAction::Unregister(i1), ProjectServiceAction::Unregister(i2)) => eq(
                i1,
                i2,
            ),
            (ProjectServiceAction::Reactivate(i1), ProjectServiceAction::Reactivate(i2)) => eq(
                i1,
                i2,
            ),
            _ => false,
        },
        _ => false,
    }
}

/// What the production root does after the shell changed: start a service
/// action the shell newly recorded, reload when a reload is asked for and
/// none runs, and follow a new selection.
#[derive(Debug, Clone, PartialEq, Eq)]
pub struct SyncPlan {
    /// The shell's service action differs from the one the root last saw;
    /// the root remembers it and starts it when there is one.
    pub new_service_action: Option<Option<ProjectServiceAction>>,
    pub reload: bool,
    /// The reload-in-flight flag afterwards, unless a reload starts.
    pub retry_in_flight: bool,
    /// The new selection to hand to the view, when it changed.
    pub new_selection: Option<Option<String>>,
}

pub fn sync_plan(
    shell: &ProjectShell,
    last_seen: &Option<ProjectServiceAction>,
    selected: &Option<String>,
    retry_in_flight: bool,
) -> (r: SyncPlan)
    ensures
        match r.new_service_action {
            Some(a) => opt_action(shell.last_service_action) != opt_action(*last_seen) && opt_action(
                a,
            ) == opt_action(shell.last_service_action),
            None => opt_action(shell.last_service_action) == opt_action(*last_seen),
        },
        r.reload == (shell.last_action == Some(ShellAction::RetryProjects) && !retry_in_flight),
        r.retry_in_flight == (retry_in_flight && shell.last_action == Some(
            ShellAction::RetryProjects,
        )),
        match r.new_selection {
            Some(s) => opt_seq(shell.selected) != opt_seq(*selected) && opt_seq(s) == opt_seq(
                shell.selected,
            ),
            None => opt_seq(shell.selected) == opt_seq(*selected),
        },
{
    let new_service_action = if same_action(&shell.last_service_action, last_seen) {
        None
    } else {
        Some(
            match &shell.last_service_action {
                Some(a) => Some(copy_action(a)),
                None => None,
            },
        )
    };
    let retry_requested = matches!(shell.last_action, Some(ShellAction::RetryProjects));
    let new_selection = if same_text(&shell.selected, selected) {
        None
    } else {
        Some(
            match &shell.selected {
                Some(s) => Some(owned(s.as_str())),
                None => None,
            },
        )
    };
    SyncPlan {
        new_service_action,
        reload: retry_requested && !retry_in_flight,
        retry_in_flight: retry_in_flight && retry_requested,
        new_selection,
    }
}

} // verus!
