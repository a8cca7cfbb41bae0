//! Session navigator model and the typed intents it hands to the daemon
//! adapter.  The model owns no project registry knowledge.
use vstd::prelude::*;
use crate::order::{KeyView, SortKey, stable_order, stable_sort_of, stable_witness, key_lt, lex_lt};
use crate::text::{
    blank, contains, contains_seq, is_blank, lowercase, occurs_at, owned, str_eq, to_lowercase, trim, trimmed,
};
use vstd::string::*;

verus! {

/// Opaque project identifier.
#[derive(Debug, PartialEq, Eq, Hash)]
pub struct ProjectId(String);

impl ProjectId {
    pub closed spec fn view_id(&self) -> Seq<char> {
        self.0@
    }

    pub fn new(value: String) -> (id: Self)
        ensures
            id.view_id() == value@,
    {
        ProjectId(value)
    }

    pub fn as_str(&self) -> (s: &str)
        ensures
            s@ == self.view_id(),
    {
        self.0.as_str()
    }
}

impl Clone for ProjectId {
    fn clone(&self) -> (r: Self)
        ensures
            r == *self,
    {
        ProjectId(self.0.clone())
    }
}

#[derive(Debug, PartialEq, Eq)]
pub struct SessionSummary {
    pub id: String,
    pub project_id: ProjectId,
    pub title: Option<String>,
    pub updated_at: i64,
    pub archived: bool,
}

impl Clone for SessionSummary {
    fn clone(&self) -> (r: Self)
        ensures
            r == *self,
    {
        SessionSummary {
            id: self.id.clone(),
            project_id: self.project_id.clone(),
            title: match &self.title {
                Some(t) => Some(t.clone()),
                None => None,
            },
            updated_at: self.updated_at,
            archived: self.archived,
        }
    }
}

/// The name some adapters use for a session summary.
pub type SessionRecord = SessionSummary;

#[derive(Debug, Clone, PartialEq, Eq)]
pub enum SessionIntent {
    Create { project_id: ProjectId },
    List { project_id: ProjectId, include_archived: bool },
    Select { project_id: ProjectId, session_id: String },
    Rename { project_id: ProjectId, session_id: String, title: String },
    Archive { project_id: ProjectId, session_id: String },
    Restore { project_id: ProjectId, session_id: String },
}

/// Newest first; equal times by id.
pub open spec fn session_key(r: SessionSummary) -> KeyView {
    (-(r.updated_at as int), r.id@, Seq::empty())
}

/// Records are listed newest first, ties broken by id.
pub open spec fn newest_first(s: Seq<SessionSummary>) -> bool {
    forall|i: int, j: int|
        0 <= i < j < s.len() ==> !key_lt(session_key(#[trigger] s[j]), session_key(#[trigger] s[i]))
}

pub open spec fn title_text(r: SessionSummary) -> Seq<char> {
    match r.title {
        Some(t) => t@,
        None => Seq::empty(),
    }
}

/// A record is visible when it is not archived (unless archived ones are
/// shown), belongs to the chosen project (if any), and the trimmed,
/// lower-cased query is empty or occurs in its lower-cased title or id.
pub open spec fn visible_pred(
    r: SessionSummary,
    q: Seq<char>,
    project: Option<ProjectId>,
    show_archived: bool,
) -> bool {
    &&& show_archived || !r.archived
    &&& (match project {
        Some(p) => p.view_id() == r.project_id.view_id(),
        None => true,
    })
    &&& (q.len() == 0 || contains_seq(lowercase(title_text(r)), q) || contains_seq(lowercase(r.id@), q))
}

#[derive(Debug, PartialEq, Eq)]
pub struct Navigator {
    records: Vec<SessionSummary>,
    query: String,
    project: Option<ProjectId>,
    show_archived: bool,
    selected: Option<String>,
}

pub open spec fn opt_text(o: Option<String>) -> Option<Seq<char>> {
    match o {
        Some(s) => Some(s@),
        None => None,
    }
}

pub open spec fn has_record(s: Seq<SessionSummary>, id: Seq<char>) -> bool {
    exists|i: int| 0 <= i < s.len() && #[trigger] s[i].id@ == id
}

fn sort_records(records: Vec<SessionSummary>) -> (r: Vec<SessionSummary>)
    ensures
        stable_sort_of(r@, records@, |s: SessionSummary| session_key(s)),
        newest_first(r@),
{
    let mut keys: Vec<SortKey> = Vec::new();
    let mut i: usize = 0;
    while i < records.len()
        invariant
            i <= records@.len(),
            keys@.len() == i,
            forall|k: int| 0 <= k < i ==> #[trigger] keys@[k].view_key() == session_key(records@[k]),
        decreases records@.len() - i,
    {
        let rank: i128 = -(records[i].updated_at as i128);
        let second = String::new();
        keys.push(SortKey { rank, first: records[i].id.clone(), second });
        proof {
            assert(keys@[i as int].view_key() == session_key(records@[i as int]));
        }
        i = i + 1;
    }
    let perm = stable_order(&keys);
    let mut out: Vec<SessionSummary> = Vec::new();
    let mut j: usize = 0;
    while j < perm.len()
        invariant
            j <= perm@.len(),
            perm@.len() == records@.len(),
            forall|t: int| 0 <= t < perm@.len() ==> #[trigger] perm@[t] < records@.len(),
            out@.len() == j,
            forall|t: int| 0 <= t < j ==> #[trigger] out@[t] == records@[perm@[t] as int],
        decreases perm@.len() - j,
    {
        out.push(records[perm[j]].clone());
        j = j + 1;
    }
    proof {
        let src = perm@.map_values(|p: usize| p as int);
        assert(stable_witness(out@, records@, |s: SessionSummary| session_key(s), src));
        crate::order::lemma_key_lt_props();
        assert forall|a: int, b: int| 0 <= a < b < out@.len() implies !key_lt(session_key(#[trigger] out@[b]), session_key(#[trigger] out@[a])) by {
            assert(out@[a] == records@[perm@[a] as int] && out@[b] == records@[perm@[b] as int]);
            assert(keys@[perm@[a] as int].view_key() == session_key(out@[a]));
            assert(keys@[perm@[b] as int].view_key() == session_key(out@[b]));
        }
    }
    out
}

proof fn lemma_filter_newest_first(s: Seq<SessionSummary>, pred: spec_fn(SessionSummary) -> bool)
    requires
        newest_first(s),
    ensures
        newest_first(s.filter(pred)),
        forall|i: int| 0 <= i < s.filter(pred).len() ==> s.contains(#[trigger] s.filter(pred)[i]),
    decreases s.len(),
{
    reveal_with_fuel(Seq::filter, 1);
    if s.len() > 0 {
        let d = s.drop_last();
        assert(newest_first(d)) by {
            assert forall|i: int, j: int| 0 <= i < j < d.len() implies !key_lt(session_key(#[trigger] d[j]), session_key(#[trigger] d[i])) by {
                assert(d[i] == s[i] && d[j] == s[j]);
            }
        }
        lemma_filter_newest_first(d, pred);
        let f = d.filter(pred);
        assert forall|i: int| 0 <= i < f.len() implies s.contains(#[trigger] f[i]) by {
            assert(d.contains(f[i]));
            let k = choose|k: int| 0 <= k < d.len() && d[k] == f[i];
            assert(s[k] == d[k]);
        }
        if pred(s.last()) {
            let g = f.push(s.last());
            assert forall|i: int, j: int| 0 <= i < j < g.len() implies !key_lt(session_key(#[trigger] g[j]), session_key(#[trigger] g[i])) by {
                if j == g.len() - 1 {
                    assert(d.contains(g[i]));
                    let k = choose|k: int| 0 <= k < d.len() && d[k] == g[i];
                    assert(s[k] == g[i]);
                    assert(s[s.len() - 1] == g[j]);
                } else {
                    assert(g[i] == f[i] && g[j] == f[j]);
                }
            }
            assert forall|i: int| 0 <= i < g.len() implies s.contains(#[trigger] g[i]) by {
                if i == g.len() - 1 {
                    assert(s[s.len() - 1] == g[i]);
                } else {
                    assert(g[i] == f[i]);
                }
            }
        }
    }
}

impl Navigator {
    #[verifier::type_invariant]
    spec fn records_sorted(&self) -> bool {
        newest_first(self.records@)
    }

    pub closed spec fn records_view(&self) -> Seq<SessionSummary> {
        self.records@
    }

    pub closed spec fn query_view(&self) -> Seq<char> {
        self.query@
    }

    pub closed spec fn project_view(&self) -> Option<ProjectId> {
        self.project
    }

    pub closed spec fn show_archived_view(&self) -> bool {
        self.show_archived
    }

    pub closed spec fn selected_view(&self) -> Option<Seq<char>> {
        opt_text(self.selected)
    }

    /// The rows the navigator shows, newest first.
    pub open spec fn spec_visible(&self) -> Seq<SessionSummary> {
        let q = lowercase(trim(self.query_view()));
        let project = self.project_view();
        let show = self.show_archived_view();
        self.records_view().filter(|r: SessionSummary| visible_pred(r, q, project, show))
    }

    pub fn new(records: Vec<SessionSummary>) -> (n: Self)
        ensures
            stable_sort_of(n.records_view(), records@, |s: SessionSummary| session_key(s)),
            n.query_view() == Seq::<char>::empty(),
            n.project_view().is_none(),
            !n.show_archived_view(),
            n.selected_view().is_none(),
    {
        let records = sort_records(records);
        Navigator { records, query: String::new(), project: None, show_archived: false, selected: None }
    }

    pub fn records(&self) -> (r: &[SessionSummary])
        ensures
            r@ == self.records_view(),
            newest_first(r@),
    {
        proof {
            use_type_invariant(self);
        }
        self.records.as_slice()
    }

    pub fn selected(&self) -> (r: Option<&str>)
        ensures
            match r {
                Some(s) => self.selected_view() == Some(s@),
                None => self.selected_view().is_none(),
            },
    {
        match &self.selected {
            Some(s) => Some(s.as_str()),
            None => None,
        }
    }

    pub fn active(&self) -> (r: Option<&str>)
        ensures
            match r {
                Some(s) => self.selected_view() == Some(s@),
                None => self.selected_view().is_none(),
            },
    {
        self.selected()
    }

    pub fn set_query(&mut self, query: String)
        ensures
            final(self).query_view() == query@,
            final(self).records_view() == old(self).records_view(),
            final(self).project_view() == old(self).project_view(),
            final(self).show_archived_view() == old(self).show_archived_view(),
            final(self).selected_view() == old(self).selected_view(),
    {
        proof {
            use_type_invariant(&*self);
        }
        self.query = query;
    }

    pub fn set_project(&mut self, project: Option<ProjectId>)
        ensures
            final(self).project_view() == project,
            final(self).records_view() == old(self).records_view(),
            final(self).query_view() == old(self).query_view(),
            final(self).show_archived_view() == old(self).show_archived_view(),
            final(self).selected_view() == old(self).selected_view(),
    {
        proof {
            use_type_invariant(&*self);
        }
        self.project = project;
    }

    pub fn set_show_archived(&mut self, show: bool)
        ensures
            final(self).show_archived_view() == show,
            final(self).records_view() == old(self).records_view(),
            final(self).query_view() == old(self).query_view(),
            final(self).project_view() == old(self).project_view(),
            final(self).selected_view() == old(self).selected_view(),
    {
        proof {
            use_type_invariant(&*self);
        }
        self.show_archived = show;
    }

    pub fn show_archived(&self) -> (b: bool)
        ensures
            b == self.show_archived_view(),
    {
        self.show_archived
    }

    /// The visible rows, in the navigator's newest-first order.  With a blank
    /// query, only the archive and project filters apply.
    pub fn visible(&self) -> (r: Vec<&SessionSummary>)
        ensures
            r@.map_values(|s: &SessionSummary| *s) == self.spec_visible(),
            newest_first(self.spec_visible()),
            trim(self.query_view()).len() == 0 ==> r@.map_values(|s: &SessionSummary| *s)
                == self.records_view().filter(
                |s: SessionSummary|
                    visible_pred(s, Seq::<char>::empty(), self.project_view(), self.show_archived_view()),
            ),
    {
        proof {
            use_type_invariant(self);
        }
        let q = to_lowercase(trimmed(self.query.as_str()));
        let ghost pred = |r: SessionSummary| visible_pred(r, lowercase(trim(self.query@)), self.project, self.show_archived);
        let mut out: Vec<&SessionSummary> = Vec::new();
        let mut i: usize = 0;
        while i < self.records.len()
            invariant
                i <= self.records@.len(),
                q@ == lowercase(trim(self.query@)),
                pred == (|r: SessionSummary| visible_pred(r, lowercase(trim(self.query@)), self.project, self.show_archived)),
                out@.map_values(|s: &SessionSummary| *s) == self.records@.take(i as int).filter(pred),
            decreases self.records@.len() - i,
        {
            proof {
                reveal_with_fuel(Seq::filter, 1);
                assert(self.records@.take(i + 1).drop_last() =~= self.records@.take(i as int));
            }
            let r = &self.records[i];
            let archived_ok = self.show_archived || !r.archived;
            let project_ok = match &self.project {
                Some(p) => {
                    str_eq(p.0.as_str(), r.project_id.0.as_str())
                },
                None => true,
            };
            let query_ok = if q.as_str().is_empty() {
                true
            } else {
                let title_lower = match &r.title {
                    Some(t) => to_lowercase(t.as_str()),
                    None => {
                        let e = String::new();
                        proof {
                            assert(e@ =~= title_text(*r));
                        }
                        to_lowercase(e.as_str())
                    },
                };
                let id_lower = to_lowercase(r.id.as_str());
                contains(title_lower.as_str(), q.as_str()) || contains(id_lower.as_str(), q.as_str())
            };
            let ghost before = out@.map_values(|s: &SessionSummary| *s);
            if archived_ok && project_ok && query_ok {
                out.push(r);
                assert(out@.map_values(|s: &SessionSummary| *s) =~= before.push(*r));
            }
            i = i + 1;
        }
        proof {
            assert(self.records@.take(self.records@.len() as int) =~= self.records@);
            lemma_filter_newest_first(self.records@, pred);
            if trim(self.query@).len() == 0 {
                assert(lowercase(trim(self.query@)) =~= Seq::<char>::empty());
                assert(pred =~= (|s: SessionSummary|
                    visible_pred(s, Seq::<char>::empty(), self.project, self.show_archived)));
            }
        }
        out
    }

    /// Replace the records with a fresh listing; a selection that names no
    /// listed session is dropped.
    pub fn ingest(&mut self, records: Vec<SessionSummary>)
        ensures
            stable_sort_of(final(self).records_view(), records@, |s: SessionSummary| session_key(s)),
            final(self).query_view() == old(self).query_view(),
            final(self).project_view() == old(self).project_view(),
            final(self).show_archived_view() == old(self).show_archived_view(),
            final(self).selected_view() == match old(self).selected_view() {
                Some(id) => if has_record(final(self).records_view(), id) { Some(id) } else { None },
                None => None,
            },
    {
        let sorted = sort_records(records);
        let keep = match &self.selected {
            Some(id) => find_record(&sorted, id.as_str()).is_some(),
            None => false,
        };
        let selected = if keep { self.selected.clone() } else { None };
        *self = Navigator {
            records: sorted,
            query: self.query.clone(),
            project: self.project.clone(),
            show_archived: self.show_archived,
            selected,
        };
    }

    /// Select the session with this id, if it is listed; otherwise clear
    /// the selection.
    pub fn restore_selection(&mut self, id: Option<&str>)
        ensures
            final(self).records_view() == old(self).records_view(),
            final(self).query_view() == old(self).query_view(),
            final(self).project_view() == old(self).project_view(),
            final(self).show_archived_view() == old(self).show_archived_view(),
            final(self).selected_view() == match id {
                Some(i) => if has_record(old(self).records_view(), i@) { Some(i@) } else { None },
                None => None,
            },
    {
        let selected = match id {
            Some(id) => match find_record(&self.records, id) {
                Some(k) => Some(self.records[k].id.clone()),
                None => None,
            },
            None => None,
        };
        proof {
            use_type_invariant(&*self);
        }
        self.selected = selected;
    }

    pub fn restart_selection(&mut self, id: Option<&str>)
        ensures
            final(self).records_view() == old(self).records_view(),
            final(self).query_view() == old(self).query_view(),
            final(self).project_view() == old(self).project_view(),
            final(self).show_archived_view() == old(self).show_archived_view(),
            final(self).selected_view() == match id {
                Some(i) => if has_record(old(self).records_view(), i@) { Some(i@) } else { None },
                None => None,
            },
    {
        self.restore_selection(id);
    }

    pub fn intent(&self, intent: SessionIntent) -> (r: SessionIntent)
        ensures
            r == intent,
    {
        intent
    }

    pub fn create_intent(&self, project_id: ProjectId) -> (r: SessionIntent)
        ensures
            r == (SessionIntent::Create { project_id }),
    {
        SessionIntent::Create { project_id }
    }

    pub fn list_intent(&self, project_id: ProjectId) -> (r: SessionIntent)
        ensures
            r == (SessionIntent::List { project_id, include_archived: self.show_archived_view() }),
    {
        SessionIntent::List { project_id, include_archived: self.show_archived }
    }

    /// Select a row and ask the daemon to open it.
    pub fn select_intent(&mut self, record: &SessionSummary) -> (r: SessionIntent)
        ensures
            final(self).selected_view() == Some(record.id@),
            final(self).records_view() == old(self).records_view(),
            final(self).query_view() == old(self).query_view(),
            final(self).project_view() == old(self).project_view(),
            final(self).show_archived_view() == old(self).show_archived_view(),
            r == (SessionIntent::Select { project_id: record.project_id, session_id: record.id }),
    {
        proof {
            use_type_invariant(&*self);
        }
        self.selected = Some(record.id.clone());
        SessionIntent::Select { project_id: record.project_id.clone(), session_id: record.id.clone() }
    }

    pub fn rename_intent(&self, record: &SessionSummary, title: String) -> (r: SessionIntent)
        ensures
            r == (SessionIntent::Rename { project_id: record.project_id, session_id: record.id, title }),
    {
        SessionIntent::Rename { project_id: record.project_id.clone(), session_id: record.id.clone(), title }
    }

    pub fn archive_intent(&self, record: &SessionSummary) -> (r: SessionIntent)
        ensures
            r == (SessionIntent::Archive { project_id: record.project_id, session_id: record.id }),
    {
        SessionIntent::Archive { project_id: record.project_id.clone(), session_id: record.id.clone() }
    }

    pub fn restore_intent(&self, record: &SessionSummary) -> (r: SessionIntent)
        ensures
            r == (SessionIntent::Restore { project_id: record.project_id, session_id: record.id }),
    {
        SessionIntent::Restore { project_id: record.project_id.clone(), session_id: record.id.clone() }
    }
}

impl Default for Navigator {
    fn default() -> (n: Self)
        ensures
            n.records_view() == Seq::<SessionSummary>::empty(),
            n.query_view() == Seq::<char>::empty(),
            n.project_view().is_none(),
            !n.show_archived_view(),
            n.selected_view().is_none(),
    {
        Navigator { records: Vec::new(), query: String::new(), project: None, show_archived: false, selected: None }
    }
}

fn find_record(records: &Vec<SessionSummary>, id: &str) -> (r: Option<usize>)
    ensures
        match r {
            Some(k) => k < records@.len() && records@[k as int].id@ == id@,
            None => !has_record(records@, id@),
        },
{
    let mut i: usize = 0;
    while i < records.len()
        invariant
            i <= records@.len(),
            forall|k: int| 0 <= k < i ==> #[trigger] records@[k].id@ != id@,
        decreases records@.len() - i,
    {
        if str_eq(records[i].id.as_str(), id) {
            return Some(i);
        }
        i = i + 1;
    }
    None
}

/// How a session row is captioned: its title (`Untitled` without one), two
/// spaces, and its id.
pub open spec fn row_caption(r: SessionSummary) -> Seq<char> {
    let title = match r.title {
        Some(t) => t@,
        None => "Untitled"@,
    };
    title + "  "@ + r.id@
}

/// A row of the session list as drawn.
#[derive(Debug, Clone, PartialEq, Eq)]
pub struct SessionRow {
    pub project_id: String,
    pub id: String,
    pub caption: String,
    pub archived: bool,
    pub selected: bool,
}

pub open spec fn row_of(row: SessionRow, r: SessionSummary, selected: Option<Seq<char>>) -> bool {
    &&& row.project_id@ == r.project_id.view_id()
    &&& row.id@ == r.id@
    &&& row.caption@ == row_caption(r)
    &&& row.archived == r.archived
    &&& row.selected == (selected == Some(r.id@))
}

/// The label of a row's archive control: an archived session is restored.
pub fn lifecycle_label(archived: bool) -> (r: &'static str)
    ensures
        r@ == (if archived { "Restore"@ } else { "Archive"@ }),
{
    if archived {
        "Restore"
    } else {
        "Archive"
    }
}

/// The label of the archived-sessions toggle.
pub fn archived_toggle_label(show_archived: bool) -> (r: &'static str)
    ensures
        r@ == (if show_archived { "Hide archived"@ } else { "Show archived"@ }),
{
    if show_archived {
        "Hide archived"
    } else {
        "Show archived"
    }
}

/// The title a rename asks for: the typed text, or `Untitled` when it is
/// blank.
pub fn rename_title(input: &str) -> (r: String)
    ensures
        r@ == (if blank(input@) { "Untitled"@ } else { input@ }),
{
    if is_blank(input) {
        owned("Untitled")
    } else {
        owned(input)
    }
}

impl Navigator {
    /// The rows of the visible sessions, in order.
    pub fn rows(&self) -> (r: Vec<SessionRow>)
        ensures
            r@.len() == self.spec_visible().len(),
            forall|i: int|
                0 <= i < r@.len() ==> row_of(
                    #[trigger] r@[i],
                    self.spec_visible()[i],
                    self.selected_view(),
                ),
    {
        let visible = self.visible();
        let selected = self.selected();
        let mut rows: Vec<SessionRow> = Vec::new();
        let mut i: usize = 0;
        while i < visible.len()
            invariant
                i <= visible@.len(),
                visible@.map_values(|s: &SessionSummary| *s) == self.spec_visible(),
                match selected {
                    Some(s) => self.selected_view() == Some(s@),
                    None => self.selected_view().is_none(),
                },
                rows@.len() == i,
                forall|j: int|
                    0 <= j < i ==> row_of(#[trigger] rows@[j], *visible@[j], self.selected_view()),
            decreases visible@.len() - i,
        {
            let record: &SessionSummary = visible[i];
            let mut caption = match &record.title {
                Some(t) => owned(t.as_str()),
                None => owned("Untitled"),
            };
            caption.append("  ");
            caption.append(record.id.as_str());
            let is_selected = match selected {
                Some(s) => str_eq(s, record.id.as_str()),
                None => false,
            };
            rows.push(
                SessionRow {
                    project_id: owned(record.project_id.as_str()),
                    id: owned(record.id.as_str()),
                    caption,
                    archived: record.archived,
                    selected: is_selected,
                },
            );
            i = i + 1;
        }
        proof {
            assert forall|j: int| 0 <= j < rows@.len() implies row_of(
                #[trigger] rows@[j],
                self.spec_visible()[j],
                self.selected_view(),
            ) by {
                assert(self.spec_visible()[j] == *visible@[j]);
            }
        }
        rows
    }

    /// The archive control of a row: restore an archived session, archive
    /// another.
    pub fn lifecycle_intent(&self, record: &SessionSummary) -> (r: SessionIntent)
        ensures
            r == (if record.archived {
                SessionIntent::Restore { project_id: record.project_id, session_id: record.id }
            } else {
                SessionIntent::Archive { project_id: record.project_id, session_id: record.id }
            }),
    {
        if record.archived {
            self.restore_intent(record)
        } else {
            self.archive_intent(record)
        }
    }
}


/// Session search ignores case: a record that passes the archive and
/// project filters is visible when its title or id contains the trimmed
/// query once both are lower-cased; in particular a query whose trimmed text
/// is the record's title always finds it.
pub proof fn law_search_ignores_case(n: Navigator, r: SessionSummary)
    requires
        n.records_view().contains(r),
        n.show_archived_view() || !r.archived,
        match n.project_view() {
            Some(p) => p.view_id() == r.project_id.view_id(),
            None => true,
        },
        ({
            let q = lowercase(trim(n.query_view()));
            ||| contains_seq(lowercase(title_text(r)), q)
            ||| contains_seq(lowercase(r.id@), q)
            ||| trim(n.query_view()) == title_text(r)
        }),
    ensures
        n.spec_visible().contains(r),
{
    let q = lowercase(trim(n.query_view()));
    if trim(n.query_view()) == title_text(r) {
        assert(lowercase(title_text(r)).subrange(0, q.len() as int) =~= q);
        assert(occurs_at(lowercase(title_text(r)), q, 0));
    }
    let pred = |x: SessionSummary| visible_pred(x, q, n.project_view(), n.show_archived_view());
    assert(pred(r));
    let i = choose|i: int| 0 <= i < n.records_view().len() && n.records_view()[i] == r;
    n.records_view().lemma_filter_contains(pred, i);
}

} // verus!
