//! Client-local project registry.
//!
//! No transport or server API lives here.  A project is a GUI concern: the
//! registry remembers workspace groups, keyed by id, and which one the
//! client last displayed.  Roots are kept as the text of their paths.
use crate::order::{lex_lt, text_lt};
use crate::segments::views;
use crate::text::{
    append_decimal, decimal, hex16, hex_pad, lemma_decimal_injective, owned, str_eq,
};
use vstd::prelude::*;
use vstd::string::*;
use vstd::utf8::encode_utf8;

verus! {

pub type ProjectId = String;

#[derive(Clone, Debug, PartialEq, Eq)]
pub struct Project {
    pub id: ProjectId,
    pub name: String,
    pub root: String,
    pub inactive: bool,
}

pub struct ProjectView {
    pub id: Seq<char>,
    pub name: Seq<char>,
    pub root: Seq<char>,
    pub inactive: bool,
}

impl View for Project {
    type V = ProjectView;

    open spec fn view(&self) -> ProjectView {
        ProjectView {
            id: self.id@,
            name: self.name@,
            root: self.root@,
            inactive: self.inactive,
        }
    }
}

/// The registry: projects (one per id) and the active selection.
pub struct ProjectState {
    pub projects: Vec<Project>,
    pub active_project_id: Option<ProjectId>,
}

pub struct StateView {
    pub projects: Seq<ProjectView>,
    pub active: Option<Seq<char>>,
}

pub open spec fn opt_seq(o: Option<String>) -> Option<Seq<char>> {
    match o {
        Some(s) => Some(s@),
        None => None,
    }
}

pub open spec fn project_views(v: Seq<Project>) -> Seq<ProjectView> {
    v.map_values(|p: Project| p@)
}

impl View for ProjectState {
    type V = StateView;

    open spec fn view(&self) -> StateView {
        StateView {
            projects: project_views(self.projects@),
            active: opt_seq(self.active_project_id),
        }
    }
}

#[derive(Clone, Copy, Debug, PartialEq, Eq, Structural)]
pub enum InactiveRegistration {
    ReactivateExisting,
    CreateNew,
}

#[derive(Clone, Debug, PartialEq, Eq)]
pub enum ProjectAction {
    Create { name: String, root: String },
    Select(ProjectId),
    Update { id: ProjectId, name: String, root: String },
    Unregister(ProjectId),
    Reactivate(ProjectId),
}

#[derive(Clone, Debug, PartialEq, Eq)]
pub enum ProjectError {
    NotFound(ProjectId),
    AlreadyRegistered(String),
}

pub enum ErrorView {
    NotFound(Seq<char>),
    AlreadyRegistered(Seq<char>),
}

impl View for ProjectError {
    type V = ErrorView;

    open spec fn view(&self) -> ErrorView {
        match self {
            ProjectError::NotFound(id) => ErrorView::NotFound(id@),
            ProjectError::AlreadyRegistered(root) => ErrorView::AlreadyRegistered(root@),
        }
    }
}

/// No two projects share an id.
pub open spec fn ids_unique(ps: Seq<ProjectView>) -> bool {
    forall|i: int, j: int| 0 <= i < j < ps.len() ==> ps[i].id != ps[j].id
}

impl StateView {
    pub open spec fn wf(self) -> bool {
        ids_unique(self.projects)
    }
}

pub open spec fn ids_of(ps: Seq<ProjectView>) -> Seq<Seq<char>> {
    ps.map_values(|p: ProjectView| p.id)
}

/// Where the project `id` stands, or -1.
pub open spec fn index_of(ps: Seq<ProjectView>, id: Seq<char>) -> int
    decreases ps.len(),
{
    if ps.len() == 0 {
        -1
    } else if ps.last().id == id {
        ps.len() - 1
    } else {
        index_of(ps.drop_last(), id)
    }
}

pub proof fn lemma_index_of(ps: Seq<ProjectView>, id: Seq<char>)
    ensures
        -1 <= index_of(ps, id) < ps.len(),
        index_of(ps, id) >= 0 ==> ps[index_of(ps, id)].id == id,
        index_of(ps, id) < 0 ==> forall|j: int| 0 <= j < ps.len() ==> ps[j].id != id,
    decreases ps.len(),
{
    if ps.len() > 0 && ps.last().id != id {
        lemma_index_of(ps.drop_last(), id);
        let k = index_of(ps.drop_last(), id);
        if k < 0 {
            assert forall|j: int| 0 <= j < ps.len() implies ps[j].id != id by {
                if j < ps.len() - 1 {
                    assert(ps[j] == ps.drop_last()[j]);
                }
            }
        }
    }
}

pub proof fn lemma_index_of_unique(ps: Seq<ProjectView>, id: Seq<char>, i: int)
    requires
        ids_unique(ps),
        0 <= i < ps.len(),
        ps[i].id == id,
    ensures
        index_of(ps, id) == i,
    decreases ps.len(),
{
    if i < ps.len() - 1 {
        assert(ps.drop_last()[i] == ps[i]);
        lemma_index_of_unique(ps.drop_last(), id, i);
    }
}

/// Some active project has this root.
pub open spec fn root_active(ps: Seq<ProjectView>, root: Seq<char>) -> bool {
    exists|i: int| 0 <= i < ps.len() && ps[i].root == root && !(#[trigger] ps[i]).inactive
}

pub open spec fn inactive_at(ps: Seq<ProjectView>, root: Seq<char>, i: int) -> bool {
    0 <= i < ps.len() && ps[i].root == root && ps[i].inactive
}

/// `i` is the inactive project with this root that comes first by id.
pub open spec fn first_inactive(ps: Seq<ProjectView>, root: Seq<char>, i: int) -> bool {
    &&& inactive_at(ps, root, i)
    &&& forall|j: int| #[trigger] inactive_at(ps, root, j) ==> !lex_lt(ps[j].id, ps[i].id)
}

/// The FNV-1a hash of some bytes.
pub open spec fn fnv(bytes: Seq<u8>) -> u64
    decreases bytes.len(),
{
    if bytes.len() == 0 {
        14695981039346656037u64
    } else {
        (((fnv(bytes.drop_last()) ^ (bytes.last() as u64)) as nat * 1099511628211nat)
            % 0x1_0000_0000_0000_0000nat) as u64
    }
}

/// The id a root suggests: `project-` and the sixteen hex digits of the
/// hash of its text.
pub open spec fn id_base(root: Seq<char>) -> Seq<char> {
    "project-"@ + hex_pad(fnv(encode_utf8(root)) as nat, 16)
}

/// The `n`-th alternative to a taken base id.
pub open spec fn candidate(base: Seq<char>, n: nat) -> Seq<char> {
    base + "-"@ + decimal(n)
}

/// `id` is what a new project with this root is called: the suggested base
/// when it is free, else the base with the least number `n >= 1` that makes
/// it free.
pub open spec fn is_fresh_id(ids: Seq<Seq<char>>, root: Seq<char>, id: Seq<char>) -> bool {
    let base = id_base(root);
    if !ids.contains(base) {
        id == base
    } else {
        exists|n: nat|
            n >= 1 && id == candidate(base, n) && !ids.contains(id) && forall|m: nat|
                1 <= m < n ==> ids.contains(#[trigger] candidate(base, m))
    }
}

proof fn lemma_candidate_injective(base: Seq<char>, n: nat, m: nat)
    requires
        candidate(base, n) == candidate(base, m),
    ensures
        n == m,
{
    reveal_strlit("-");
    let k = base.len() + 1;
    let cn = candidate(base, n);
    let cm = candidate(base, m);
    assert(cn.skip(k as int) =~= decimal(n));
    assert(cm.skip(k as int) =~= decimal(m));
    lemma_decimal_injective(n, m);
}

/// Among `n` taken alternatives there are no more than the ids there are.
proof fn lemma_candidates_bounded(ids: Seq<Seq<char>>, base: Seq<char>, n: nat)
    requires
        forall|m: nat| 1 <= m <= n ==> ids.contains(#[trigger] candidate(base, m)),
    ensures
        n <= ids.len(),
{
    let cs = Seq::new(n, |i: int| candidate(base, (i + 1) as nat));
    assert forall|i: int, j: int| 0 <= i < cs.len() && 0 <= j < cs.len() && i != j implies cs[i]
        != cs[j] by {
        if cs[i] == cs[j] {
            lemma_candidate_injective(base, (i + 1) as nat, (j + 1) as nat);
        }
    }
    cs.unique_seq_to_set();
    assert(cs.to_set().subset_of(ids.to_set())) by {
        assert forall|x: Seq<char>| cs.to_set().contains(x) implies ids.to_set().contains(x) by {
            let i = choose|i: int| 0 <= i < cs.len() && cs[i] == x;
            assert(ids.contains(candidate(base, (i + 1) as nat)));
        }
    }
    ids.lemma_cardinality_of_set();
    vstd::set_lib::lemma_len_subset(cs.to_set(), ids.to_set());
}

pub open spec fn created(
    v: StateView,
    name: Seq<char>,
    root: Seq<char>,
    id: Seq<char>,
) -> StateView {
    StateView {
        projects: v.projects.push(ProjectView { id: id, name: name, root: root, inactive: false }),
        active: Some(id),
    }
}

pub open spec fn res_view(r: Result<String, ProjectError>) -> Result<Seq<char>, ErrorView> {
    match r {
        Ok(id) => Ok(id@),
        Err(e) => Err(e@),
    }
}

/// What `create` does: a root that an active project already has is
/// refused; otherwise a project with a fresh id joins and becomes active.
pub open spec fn create_done(
    old: StateView,
    name: Seq<char>,
    root: Seq<char>,
    new: StateView,
    r: Result<Seq<char>, ErrorView>,
) -> bool {
    if root_active(old.projects, root) {
        new == old && r == Err::<Seq<char>, ErrorView>(ErrorView::AlreadyRegistered(root))
    } else {
        exists|id: Seq<char>|
            r == Ok::<Seq<char>, ErrorView>(id) && #[trigger] is_fresh_id(
                ids_of(old.projects),
                root,
                id,
            ) && new == created(old, name, root, id)
    }
}

pub open spec fn reactivated(v: StateView, i: int) -> StateView {
    StateView {
        projects: v.projects.update(i, ProjectView { inactive: false, ..v.projects[i] }),
        active: Some(v.projects[i].id),
    }
}

pub open spec fn unit_view(r: Result<(), ProjectError>) -> Result<(), ErrorView> {
    match r {
        Ok(()) => Ok(()),
        Err(e) => Err(e@),
    }
}

pub open spec fn not_found(id: Seq<char>) -> Result<(), ErrorView> {
    Err(ErrorView::NotFound(id))
}

/// `select`: an active project becomes the selection.
pub open spec fn select_done(
    old: StateView,
    id: Seq<char>,
    new: StateView,
    r: Result<(), ErrorView>,
) -> bool {
    let i = index_of(old.projects, id);
    if i < 0 || old.projects[i].inactive {
        new == old && r == not_found(id)
    } else {
        new == StateView { active: Some(id), ..old } && r == Ok::<(), ErrorView>(())
    }
}

/// `update`: a known project takes the new name and root.
pub open spec fn update_done(
    old: StateView,
    id: Seq<char>,
    name: Seq<char>,
    root: Seq<char>,
    new: StateView,
    r: Result<(), ErrorView>,
) -> bool {
    let i = index_of(old.projects, id);
    if i < 0 {
        new == old && r == not_found(id)
    } else {
        new == StateView {
            projects: old.projects.update(
                i,
                ProjectView { name: name, root: root, ..old.projects[i] },
            ),
            ..old
        } && r == Ok::<(), ErrorView>(())
    }
}

/// `unregister`: a known project turns inactive and stops being the
/// selection.
pub open spec fn unregister_done(
    old: StateView,
    id: Seq<char>,
    new: StateView,
    r: Result<(), ErrorView>,
) -> bool {
    let i = index_of(old.projects, id);
    if i < 0 {
        new == old && r == not_found(id)
    } else {
        new == StateView {
            projects: old.projects.update(i, ProjectView { inactive: true, ..old.projects[i] }),
            active: if old.active == Some(id) {
                None
            } else {
                old.active
            },
        } && r == Ok::<(), ErrorView>(())
    }
}

/// `reactivate`: a known project turns active and becomes the selection.
pub open spec fn reactivate_done(
    old: StateView,
    id: Seq<char>,
    new: StateView,
    r: Result<(), ErrorView>,
) -> bool {
    let i = index_of(old.projects, id);
    if i < 0 {
        new == old && r == not_found(id)
    } else {
        new == reactivated(old, i) && r == Ok::<(), ErrorView>(())
    }
}

/// The selection kept by `restore_active`: the saved id when it names an
/// active project.
pub open spec fn restored(v: StateView, saved: Option<Seq<char>>) -> Option<Seq<char>> {
    match saved {
        Some(id) => {
            let i = index_of(v.projects, id);
            if i >= 0 && !v.projects[i].inactive {
                Some(id)
            } else {
                None
            }
        },
        None => None,
    }
}

/// The FNV-1a hash of a root's text.
fn stable_hash(root: &str) -> (h: u64)
    ensures
        h == fnv(encode_utf8(root@)),
{
    let bytes = root.as_bytes();
    let mut h: u64 = 14695981039346656037;
    let mut i: usize = 0;
    assert(bytes@.take(0) =~= Seq::<u8>::empty());
    while i < bytes.len()
        invariant
            i <= bytes@.len(),
            bytes@ == encode_utf8(root@),
            h == fnv(bytes@.take(i as int)),
        decreases bytes@.len() - i,
    {
        assert(bytes@.take(i + 1).drop_last() =~= bytes@.take(i as int));
        h = (h ^ (bytes[i] as u64)).wrapping_mul(1099511628211);
        i = i + 1;
    }
    assert(bytes@.take(bytes@.len() as int) =~= bytes@);
    h
}

fn has_id(ps: &Vec<Project>, id: &str) -> (b: bool)
    ensures
        b == ids_of(project_views(ps@)).contains(id@),
{
    let ghost ids = ids_of(project_views(ps@));
    let mut i: usize = 0;
    while i < ps.len()
        invariant
            ids == ids_of(project_views(ps@)),
            i <= ps@.len(),
            forall|j: int| 0 <= j < i ==> ids[j] != id@,
        decreases ps@.len() - i,
    {
        if str_eq(ps[i].id.as_str(), id) {
            assert(ids[i as int] == id@);
            return true;
        }
        i = i + 1;
    }
    false
}

/// The id a new project with this root gets.
fn fresh_id(ps: &Vec<Project>, root: &str) -> (id: String)
    ensures
        is_fresh_id(ids_of(project_views(ps@)), root@, id@),
{
    let ghost ids = ids_of(project_views(ps@));
    let mut base = owned("project-");
    base.append(hex16(stable_hash(root)).as_str());
    assert(base@ == id_base(root@));
    if !has_id(ps, base.as_str()) {
        return base;
    }
    let total = ps.len();
    let mut n: u128 = 1;
    let mut c = owned(base.as_str());
    c.append("-");
    append_decimal(&mut c, n);
    while has_id(ps, c.as_str())
        invariant
            ids == ids_of(project_views(ps@)),
            ids.len() == total,
            ids.contains(base@),
            base@ == id_base(root@),
            1 <= n <= ids.len() + 1,
            c@ == candidate(base@, n as nat),
            forall|m: nat| 1 <= m < n ==> ids.contains(#[trigger] candidate(base@, m)),
        decreases ids.len() + 1 - n,
    {
        proof {
            assert forall|m: nat| 1 <= m <= n implies ids.contains(#[trigger] candidate(base@, m)) by {
                if m == n {
                    assert(candidate(base@, m) == c@);
                }
            }
            lemma_candidates_bounded(ids, base@, n as nat);
        }
        n = n + 1;
        c = owned(base.as_str());
        c.append("-");
        append_decimal(&mut c, n);
    }
    c
}

/// Where project `id` stands.
fn find_index(ps: &Vec<Project>, id: &str) -> (r: Option<usize>)
    requires
        ids_unique(project_views(ps@)),
    ensures
        match r {
            Some(i) => i < ps@.len() && index_of(project_views(ps@), id@) == i,
            None => index_of(project_views(ps@), id@) == -1,
        },
{
    let ghost pv = project_views(ps@);
    let mut i: usize = 0;
    while i < ps.len()
        invariant
            pv == project_views(ps@),
            ids_unique(pv),
            i <= ps@.len(),
            forall|j: int| 0 <= j < i ==> pv[j].id != id@,
        decreases ps@.len() - i,
    {
        if str_eq(ps[i].id.as_str(), id) {
            proof {
                lemma_index_of_unique(pv, id@, i as int);
            }
            return Some(i);
        }
        i = i + 1;
    }
    proof {
        lemma_index_of(pv, id@);
    }
    None
}

fn root_is_active(ps: &Vec<Project>, root: &str) -> (b: bool)
    ensures
        b == root_active(project_views(ps@), root@),
{
    let ghost pv = project_views(ps@);
    let mut i: usize = 0;
    while i < ps.len()
        invariant
            pv == project_views(ps@),
            i <= ps@.len(),
            forall|j: int| 0 <= j < i ==> !(pv[j].root == root@ && !(#[trigger] pv[j]).inactive),
        decreases ps@.len() - i,
    {
        if !ps[i].inactive && str_eq(ps[i].root.as_str(), root) {
            assert(pv[i as int].root == root@ && !pv[i as int].inactive);
            return true;
        }
        i = i + 1;
    }
    false
}

/// The inactive project with this root that comes first by id, if any.
fn first_inactive_index(ps: &Vec<Project>, root: &str) -> (r: Option<usize>)
    requires
        ids_unique(project_views(ps@)),
    ensures
        match r {
            Some(i) => first_inactive(project_views(ps@), root@, i as int),
            None => forall|j: int| !inactive_at(project_views(ps@), root@, j),
        },
{
    let ghost pv = project_views(ps@);
    let mut best: Option<usize> = None;
    let mut i: usize = 0;
    while i < ps.len()
        invariant
            pv == project_views(ps@),
            ids_unique(pv),
            i <= ps@.len(),
            match best {
                Some(b) => b < i && inactive_at(pv, root@, b as int) && forall|j: int|
                    0 <= j < i && #[trigger] inactive_at(pv, root@, j) ==> !lex_lt(
                        pv[j].id,
                        pv[b as int].id,
                    ),
                None => forall|j: int| 0 <= j < i ==> !#[trigger] inactive_at(pv, root@, j),
            },
        decreases ps@.len() - i,
    {
        assert(pv[i as int] == ps@[i as int]@);
        proof {
            crate::order::lemma_lex_lt_props();
        }
        if ps[i].inactive && str_eq(ps[i].root.as_str(), root) {
            match best {
                None => {
                    best = Some(i);
                },
                Some(b) => {
                    if text_lt(ps[i].id.as_str(), ps[b].id.as_str()) {
                        best = Some(i);
                    }
                },
            }
        }
        i = i + 1;
    }
    best
}

impl ProjectState {
    pub fn new() -> (s: Self)
        ensures
            s@ == (StateView { projects: Seq::empty(), active: None }),
    {
        let s = ProjectState { projects: Vec::new(), active_project_id: None };
        assert(s@.projects =~= Seq::<ProjectView>::empty());
        s
    }

    /// The project with this id.
    pub fn get(&self, id: &str) -> (r: Option<&Project>)
        requires
            self@.wf(),
        ensures
            match r {
                Some(p) => index_of(self@.projects, id@) >= 0 && *p == self.projects@[index_of(
                    self@.projects,
                    id@,
                )],
                None => index_of(self@.projects, id@) < 0,
            },
    {
        match find_index(&self.projects, id) {
            Some(i) => Some(&self.projects[i]),
            None => None,
        }
    }

    pub fn active(&self) -> (r: Option<&Project>)
        requires
            self@.wf(),
        ensures
            match self@.active {
                Some(id) => match r {
                    Some(p) => index_of(self@.projects, id) >= 0 && *p == self.projects@[index_of(
                        self@.projects,
                        id,
                    )],
                    None => index_of(self@.projects, id) < 0,
                },
                None => r is None,
            },
    {
        match &self.active_project_id {
            Some(id) => self.get(id.as_str()),
            None => None,
        }
    }

    /// Restore the last selection only when it still names an active
    /// project.
    pub fn restore_active(&mut self, saved: Option<&str>) -> (r: Option<&Project>)
        requires
            old(self)@.wf(),
        ensures
            final(self)@ == (StateView {
                active: restored(old(self)@, match saved {
                    Some(s) => Some(s@),
                    None => None,
                }),
                ..old(self)@
            }),
            match restored(old(self)@, match saved {
                Some(s) => Some(s@),
                None => None,
            }) {
                Some(id) => match r {
                    Some(p) => *p == old(self).projects@[index_of(old(self)@.projects, id)],
                    None => false,
                },
                None => r is None,
            },
    {
        let keep = match saved {
            Some(id) => match find_index(&self.projects, id) {
                Some(i) => if !self.projects[i].inactive {
                    Some(owned(id))
                } else {
                    None
                },
                None => None,
            },
            None => None,
        };
        self.active_project_id = keep;
        self.active()
    }

    /// The daemon identity and canonical workspace root of the active
    /// project, kept together so that callers never fall back to the
    /// process working directory.
    pub fn active_selection(&self) -> (r: Option<(&ProjectId, &str)>)
        requires
            self@.wf(),
        ensures
            match self@.active {
                Some(id) => {
                    let i = index_of(self@.projects, id);
                    match r {
                        Some((pid, root)) => i >= 0 && pid@ == self@.projects[i].id && root@
                            == self@.projects[i].root,
                        None => i < 0,
                    }
                },
                None => r is None,
            },
    {
        let a = self.active();
        match a {
            Some(p) => {
                proof {
                    let id = self@.active.unwrap();
                    lemma_index_of(self@.projects, id);
                    let i = index_of(self@.projects, id);
                    assert(self@.projects[i] == self.projects@[i]@);
                }
                Some((&p.id, p.root.as_str()))
            },
            None => None,
        }
    }

    pub fn create(&mut self, name: String, root: String) -> (r: Result<ProjectId, ProjectError>)
        requires
            old(self)@.wf(),
        ensures
            final(self)@.wf(),
            create_done(old(self)@, name@, root@, final(self)@, res_view(r)),
    {
        if root_is_active(&self.projects, root.as_str()) {
            return Err(ProjectError::AlreadyRegistered(root));
        }
        let id = fresh_id(&self.projects, root.as_str());
        let ghost before = self@;
        let ghost ids = ids_of(before.projects);
        proof {
            let base = id_base(root@);
            if ids.contains(base) {
                let n = choose|n: nat|
                    n >= 1 && id@ == candidate(base, n) && !ids.contains(id@) && forall|m: nat|
                        1 <= m < n ==> ids.contains(#[trigger] candidate(base, m));
            }
            assert(!ids.contains(id@));
            assert forall|j: int| 0 <= j < before.projects.len() implies before.projects[j].id
                != id@ by {
                assert(ids[j] == before.projects[j].id);
            }
        }
        let ghost vname = name@;
        let ghost vroot = root@;
        self.projects.push(Project { id: owned(id.as_str()), name, root, inactive: false });
        self.active_project_id = Some(owned(id.as_str()));
        assert(self@.projects =~= before.projects.push(
            ProjectView { id: id@, name: vname, root: vroot, inactive: false },
        ));
        assert(self@ == created(before, vname, vroot, id@));
        assert(is_fresh_id(ids, vroot, id@));
        Ok(id)
    }

    /// Set the inactive flag of the project at `i`.
    fn set_inactive(&mut self, i: usize, inactive: bool)
        requires
            i < old(self).projects@.len(),
        ensures
            final(self)@ == (StateView {
                projects: old(self)@.projects.update(
                    i as int,
                    ProjectView { inactive: inactive, ..old(self)@.projects[i as int] },
                ),
                ..old(self)@
            }),
    {
        let mut p = Project {
            id: String::new(),
            name: String::new(),
            root: String::new(),
            inactive: false,
        };
        self.projects.set_and_swap(i, &mut p);
        let ghost before = project_views(old(self).projects@);
        let ghost pv = p@;
        p.inactive = inactive;
        self.projects.set(i, p);
        assert(project_views(self.projects@) =~= before.update(
            i as int,
            ProjectView { inactive: inactive, ..pv },
        ));
    }

    pub fn select(&mut self, id: &str) -> (r: Result<(), ProjectError>)
        requires
            old(self)@.wf(),
        ensures
            final(self)@.wf(),
            select_done(old(self)@, id@, final(self)@, unit_view(r)),
    {
        match find_index(&self.projects, id) {
            Some(i) => {
                if self.projects[i].inactive {
                    return Err(ProjectError::NotFound(owned(id)));
                }
                self.active_project_id = Some(owned(id));
                Ok(())
            },
            None => Err(ProjectError::NotFound(owned(id))),
        }
    }

    pub fn update(&mut self, id: &str, name: String, root: String) -> (r: Result<(), ProjectError>)
        requires
            old(self)@.wf(),
        ensures
            final(self)@.wf(),
            update_done(old(self)@, id@, name@, root@, final(self)@, unit_view(r)),
    {
        match find_index(&self.projects, id) {
            Some(i) => {
                let mut p = Project {
                    id: String::new(),
                    name: String::new(),
                    root: String::new(),
                    inactive: false,
                };
                self.projects.set_and_swap(i, &mut p);
                let ghost before = project_views(old(self).projects@);
                let ghost pv = p@;
                let ghost vname = name@;
                let ghost vroot = root@;
                p.name = name;
                p.root = root;
                self.projects.set(i, p);
                assert(project_views(self.projects@) =~= before.update(
                    i as int,
                    ProjectView { name: vname, root: vroot, ..pv },
                ));
                assert(pv == before[i as int]);
                assert forall|a: int, b: int|
                    0 <= a < b < self@.projects.len() implies self@.projects[a].id
                    != self@.projects[b].id by {
                    assert(self@.projects[a].id == before[a].id);
                    assert(self@.projects[b].id == before[b].id);
                }
                Ok(())
            },
            None => Err(ProjectError::NotFound(owned(id))),
        }
    }

    pub fn unregister(&mut self, id: &str) -> (r: Result<(), ProjectError>)
        requires
            old(self)@.wf(),
        ensures
            final(self)@.wf(),
            unregister_done(old(self)@, id@, final(self)@, unit_view(r)),
    {
        match find_index(&self.projects, id) {
            Some(i) => {
                self.set_inactive(i, true);
                let selected = match &self.active_project_id {
                    Some(a) => str_eq(a.as_str(), id),
                    None => false,
                };
                if selected {
                    self.active_project_id = None;
                }
                Ok(())
            },
            None => Err(ProjectError::NotFound(owned(id))),
        }
    }

    pub fn reactivate(&mut self, id: &str) -> (r: Result<(), ProjectError>)
        requires
            old(self)@.wf(),
        ensures
            final(self)@.wf(),
            reactivate_done(old(self)@, id@, final(self)@, unit_view(r)),
    {
        match find_index(&self.projects, id) {
            Some(i) => {
                proof {
                    lemma_index_of(self@.projects, id@);
                }
                self.set_inactive(i, false);
                self.active_project_id = Some(owned(id));
                Ok(())
            },
            None => Err(ProjectError::NotFound(owned(id))),
        }
    }

    /// Register a root.  When an inactive project already has it, the choice
    /// decides between reactivating that project (the first by id) and
    /// creating a second one with a fresh id.
    pub fn register(
        &mut self,
        name: String,
        root: String,
        choice: InactiveRegistration,
    ) -> (r: Result<ProjectId, ProjectError>)
        requires
            old(self)@.wf(),
        ensures
            final(self)@.wf(),
            forall|i: int|
                #[trigger] first_inactive(old(self)@.projects, root@, i) && choice
                    == InactiveRegistration::ReactivateExisting ==> final(self)@ == reactivated(
                    old(self)@,
                    i,
                ) && res_view(r) == Ok::<Seq<char>, ErrorView>(old(self)@.projects[i].id),
            (forall|j: int| !inactive_at(old(self)@.projects, root@, j)) || choice
                == InactiveRegistration::CreateNew ==> create_done(
                old(self)@,
                name@,
                root@,
                final(self)@,
                res_view(r),
            ),
    {
        match first_inactive_index(&self.projects, root.as_str()) {
            Some(i) => match choice {
                InactiveRegistration::ReactivateExisting => {
                    let existing = owned(self.projects[i].id.as_str());
                    proof {
                        let pv = self@.projects;
                        lemma_index_of_unique(pv, pv[i as int].id, i as int);
                        assert forall|k: int| #[trigger] first_inactive(pv, root@, k) implies k
                            == i by {
                            crate::order::lemma_lex_lt_props();
                            if k != i {
                                assert(pv[k].id != pv[i as int].id);
                            }
                        }
                    }
                    let _ = self.reactivate(existing.as_str());
                    Ok(existing)
                },
                InactiveRegistration::CreateNew => self.create(name, root),
            },
            None => self.create(name, root),
        }
    }

    pub fn apply(&mut self, action: ProjectAction) -> (r: Result<Option<ProjectId>, ProjectError>)
        requires
            old(self)@.wf(),
        ensures
            final(self)@.wf(),
            match action {
                ProjectAction::Create { name, root } => create_done(
                    old(self)@,
                    name@,
                    root@,
                    final(self)@,
                    match r {
                        Ok(Some(id)) => Ok(id@),
                        Ok(None) => Err(ErrorView::NotFound(Seq::empty())),
                        Err(e) => Err(e@),
                    },
                ) && !(r matches Ok(None)),
                ProjectAction::Select(id) => select_done(
                    old(self)@,
                    id@,
                    final(self)@,
                    match r {
                        Ok(_) => Ok(()),
                        Err(e) => Err(e@),
                    },
                ) && (r matches Ok(x) ==> x == Some(id)),
                ProjectAction::Update { id, name, root } => update_done(
                    old(self)@,
                    id@,
                    name@,
                    root@,
                    final(self)@,
                    match r {
                        Ok(_) => Ok(()),
                        Err(e) => Err(e@),
                    },
                ) && (r matches Ok(x) ==> x == Some(id)),
                ProjectAction::Unregister(id) => unregister_done(
                    old(self)@,
                    id@,
                    final(self)@,
                    match r {
                        Ok(_) => Ok(()),
                        Err(e) => Err(e@),
                    },
                ) && (r matches Ok(x) ==> x is None),
                ProjectAction::Reactivate(id) => reactivate_done(
                    old(self)@,
                    id@,
                    final(self)@,
                    match r {
                        Ok(_) => Ok(()),
                        Err(e) => Err(e@),
                    },
                ) && (r matches Ok(x) ==> x == Some(id)),
            },
    {
        match action {
            ProjectAction::Create { name, root } => match self.create(name, root) {
                Ok(id) => Ok(Some(id)),
                Err(e) => Err(e),
            },
            ProjectAction::Select(id) => match self.select(id.as_str()) {
                Ok(()) => Ok(Some(id)),
                Err(e) => Err(e),
            },
            ProjectAction::Update { id, name, root } => match self.update(id.as_str(), name, root) {
                Ok(()) => Ok(Some(id)),
                Err(e) => Err(e),
            },
            ProjectAction::Unregister(id) => match self.unregister(id.as_str()) {
                Ok(()) => Ok(None),
                Err(e) => Err(e),
            },
            ProjectAction::Reactivate(id) => match self.reactivate(id.as_str()) {
                Ok(()) => Ok(Some(id)),
                Err(e) => Err(e),
            },
        }
    }
}

impl Default for ProjectState {
    fn default() -> (s: Self)
        ensures
            s@ == (StateView { projects: Seq::empty(), active: None }),
    {
        Self::new()
    }
}

/// Every selection names a registered project that is active.
pub open spec fn selection_active(v: StateView) -> bool {
    match v.active {
        Some(id) => index_of(v.projects, id) >= 0 && !v.projects[index_of(v.projects, id)].inactive,
        None => true,
    }
}

/// Unregistering keeps the project and its id; reactivating it afterwards
/// gives back the same project, active and selected.
pub proof fn law_unregister_then_reactivate(
    v: StateView,
    id: Seq<char>,
    mid: StateView,
    r1: Result<(), ErrorView>,
    after: StateView,
    r2: Result<(), ErrorView>,
)
    requires
        v.wf(),
        index_of(v.projects, id) >= 0,
        unregister_done(v, id, mid, r1),
        reactivate_done(mid, id, after, r2),
    ensures
        r1 is Ok && r2 is Ok,
        after.active == Some(id),
        after.projects == v.projects.update(
            index_of(v.projects, id),
            ProjectView { inactive: false, ..v.projects[index_of(v.projects, id)] },
        ),
        after.wf(),
{
    let i = index_of(v.projects, id);
    lemma_index_of(v.projects, id);
    assert(mid.projects[i].id == id);
    assert(ids_unique(mid.projects)) by {
        assert forall|a: int, b: int| 0 <= a < b < mid.projects.len() implies mid.projects[a].id
            != mid.projects[b].id by {
            assert(mid.projects[a].id == v.projects[a].id);
            assert(mid.projects[b].id == v.projects[b].id);
        }
    }
    lemma_index_of_unique(mid.projects, id, i);
    assert(after.projects =~= v.projects.update(
        i,
        ProjectView { inactive: false, ..v.projects[i] },
    ));
    assert forall|a: int, b: int| 0 <= a < b < after.projects.len() implies after.projects[a].id
        != after.projects[b].id by {
        assert(after.projects[a].id == v.projects[a].id);
        assert(after.projects[b].id == v.projects[b].id);
    }
}

/// Selecting, unregistering and reactivating keep the selection on a
/// registered, active project.
pub proof fn law_selection_stays_active(
    v: StateView,
    id: Seq<char>,
    after_select: StateView,
    r_select: Result<(), ErrorView>,
    after_unregister: StateView,
    r_unregister: Result<(), ErrorView>,
    after_reactivate: StateView,
    r_reactivate: Result<(), ErrorView>,
)
    requires
        v.wf(),
        selection_active(v),
        select_done(v, id, after_select, r_select),
        unregister_done(v, id, after_unregister, r_unregister),
        reactivate_done(v, id, after_reactivate, r_reactivate),
    ensures
        selection_active(after_select),
        selection_active(after_unregister),
        selection_active(after_reactivate),
{
    let i = index_of(v.projects, id);
    lemma_index_of(v.projects, id);
    if i >= 0 {
        let pu = after_unregister.projects;
        assert(ids_unique(pu)) by {
            assert forall|a: int, b: int| 0 <= a < b < pu.len() implies pu[a].id != pu[b].id by {
                assert(pu[a].id == v.projects[a].id);
                assert(pu[b].id == v.projects[b].id);
            }
        }
        match v.active {
            Some(cur) => {
                if cur != id {
                    let j = index_of(v.projects, cur);
                    lemma_index_of(v.projects, cur);
                    assert(pu[j].id == cur);
                    lemma_index_of_unique(pu, cur, j);
                    assert(j != i);
                }
            },
            None => {},
        }
        let pr = after_reactivate.projects;
        assert(ids_unique(pr)) by {
            assert forall|a: int, b: int| 0 <= a < b < pr.len() implies pr[a].id != pr[b].id by {
                assert(pr[a].id == v.projects[a].id);
                assert(pr[b].id == v.projects[b].id);
            }
        }
        assert(pr[i].id == id);
        lemma_index_of_unique(pr, id, i);
    }
}

} // verus!
