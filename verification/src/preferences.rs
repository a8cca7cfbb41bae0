//! GUI-only preferences, separate from daemon configuration.  Reading and
//! writing the file is the caller's; this module turns the preferences
//! document into values and values into the document.
use vstd::prelude::*;
use crate::text::{owned, push_char, str_eq};
use vstd::string::*;

verus! {

pub const MAX_RECENT_MODELS: usize = 8;

#[derive(Debug, PartialEq, Eq)]
pub struct GuiPreferences {
    pub favorites: Vec<String>,
    pub recent_models: Vec<String>,
    pub selected_model: Option<String>,
    pub selected_agent: Option<String>,
    pub sidebar: bool,
    pub autonomy: bool,
    pub daemon_warning: bool,
    pub daemon_owned: bool,
}

/// What a preferences value says, with texts by their characters.
pub struct PrefsView {
    pub favorites: Seq<Seq<char>>,
    pub recent_models: Seq<Seq<char>>,
    pub selected_model: Option<Seq<char>>,
    pub selected_agent: Option<Seq<char>>,
    pub sidebar: bool,
    pub autonomy: bool,
    pub daemon_warning: bool,
    pub daemon_owned: bool,
}

pub open spec fn texts(s: Seq<String>) -> Seq<Seq<char>> {
    s.map_values(|x: String| x@)
}

pub open spec fn opt_text(o: Option<String>) -> Option<Seq<char>> {
    match o {
        Some(s) => Some(s@),
        None => None,
    }
}

impl View for GuiPreferences {
    type V = PrefsView;

    open spec fn view(&self) -> PrefsView {
        PrefsView {
            favorites: texts(self.favorites@),
            recent_models: texts(self.recent_models@),
            selected_model: opt_text(self.selected_model),
            selected_agent: opt_text(self.selected_agent),
            sidebar: self.sidebar,
            autonomy: self.autonomy,
            daemon_warning: self.daemon_warning,
            daemon_owned: self.daemon_owned,
        }
    }
}

pub open spec fn default_view() -> PrefsView {
    PrefsView {
        favorites: Seq::empty(),
        recent_models: Seq::empty(),
        selected_model: None,
        selected_agent: None,
        sidebar: true,
        autonomy: false,
        daemon_warning: true,
        daemon_owned: true,
    }
}

impl Default for GuiPreferences {
    fn default() -> (p: Self)
        ensures
            p@ == default_view(),
    {
        let p = GuiPreferences {
            favorites: Vec::new(),
            recent_models: Vec::new(),
            selected_model: None,
            selected_agent: None,
            sidebar: true,
            autonomy: false,
            daemon_warning: true,
            daemon_owned: true,
        };
        assert(texts(p.favorites@) =~= Seq::<Seq<char>>::empty());
        assert(texts(p.recent_models@) =~= Seq::<Seq<char>>::empty());
        p
    }
}

/// `s` without repeated entries, each kept at its first position.
pub open spec fn dedup(s: Seq<Seq<char>>) -> Seq<Seq<char>> {
    s.remove_duplicates(Seq::empty())
}

/// `s` cut to at most `n` entries.
pub open spec fn truncated(s: Seq<Seq<char>>, n: nat) -> Seq<Seq<char>> {
    if s.len() <= n { s } else { s.take(n as int) }
}

/// Favorites keep their first-seen order; recents keep newest first and at
/// most `MAX_RECENT_MODELS` entries.
pub open spec fn normalized(p: PrefsView) -> PrefsView {
    PrefsView {
        favorites: dedup(p.favorites),
        recent_models: truncated(dedup(p.recent_models), MAX_RECENT_MODELS as nat),
        ..p
    }
}

/// `values` with every entry equal to `m` removed.
pub open spec fn without(values: Seq<Seq<char>>, m: Seq<char>) -> Seq<Seq<char>> {
    values.filter(|x: Seq<char>| x != m)
}

/// Recents after using `m`: it moves (or is added) to the front, once.
pub open spec fn with_recent(values: Seq<Seq<char>>, m: Seq<char>) -> Seq<Seq<char>> {
    truncated(seq![m] + without(values, m), MAX_RECENT_MODELS as nat)
}

/// Favorites after toggling `m`.
pub open spec fn toggled(values: Seq<Seq<char>>, m: Seq<char>) -> Seq<Seq<char>> {
    if values.contains(m) { without(values, m) } else { values.push(m) }
}

/// `values` deduplicated, keeping first occurrences.
fn deduplicate(values: Vec<String>) -> (r: Vec<String>)
    ensures
        texts(r@) == dedup(texts(values@)),
{
    let ghost v = texts(values@);
    let mut unique: Vec<String> = Vec::new();
    let mut i: usize = 0;
    assert(v.skip(0) =~= v);
    while i < values.len()
        invariant
            i <= values@.len(),
            v == texts(values@),
            v.skip(i as int).remove_duplicates(texts(unique@)) == dedup(v),
        decreases values@.len() - i,
    {
        let mut seen = false;
        let mut k: usize = 0;
        while k < unique.len() && !seen
            invariant
                i < values@.len(),
                v == texts(values@),
                k <= unique@.len(),
                seen ==> texts(unique@).contains(v[i as int]),
                !seen ==> forall|t: int| 0 <= t < k ==> #[trigger] texts(unique@)[t] != v[i as int],
            decreases unique@.len() - k + (if seen { 0int } else { 1int }),
        {
            if str_eq(unique[k].as_str(), values[i].as_str()) {
                assert(texts(unique@)[k as int] == v[i as int]);
                seen = true;
            } else {
                k = k + 1;
            }
        }
        let ghost before = texts(unique@);
        assert(v.skip(i as int)[0] == v[i as int]);
        assert(v.skip(i as int).skip(1) =~= v.skip(i + 1));
        if !seen {
            unique.push(values[i].clone());
            assert(texts(unique@) =~= before + seq![v[i as int]]);
        }
        i = i + 1;
    }
    assert(v.skip(values@.len() as int) =~= Seq::<Seq<char>>::empty());
    unique
}

/// `values` without `m`.
fn remove_all(values: Vec<String>, m: &str) -> (r: Vec<String>)
    ensures
        texts(r@) == without(texts(values@), m@),
{
    let ghost pred = |x: Seq<char>| x != m@;
    let ghost v = texts(values@);
    let mut out: Vec<String> = Vec::new();
    let mut i: usize = 0;
    while i < values.len()
        invariant
            i <= values@.len(),
            v == texts(values@),
            pred == (|x: Seq<char>| x != m@),
            texts(out@) == v.take(i as int).filter(pred),
        decreases values@.len() - i,
    {
        proof {
            reveal_with_fuel(Seq::filter, 1);
            assert(v.take(i + 1).drop_last() =~= v.take(i as int));
        }
        let ghost before = texts(out@);
        if !str_eq(values[i].as_str(), m) {
            out.push(values[i].clone());
            assert(texts(out@) =~= before.push(v[i as int]));
        }
        i = i + 1;
    }
    assert(v.take(values@.len() as int) =~= v);
    out
}

fn contains_text(values: &Vec<String>, m: &str) -> (r: bool)
    ensures
        r == texts(values@).contains(m@),
{
    let mut i: usize = 0;
    while i < values.len()
        invariant
            i <= values@.len(),
            forall|t: int| 0 <= t < i ==> #[trigger] texts(values@)[t] != m@,
        decreases values@.len() - i,
    {
        if str_eq(values[i].as_str(), m) {
            assert(texts(values@)[i as int] == m@);
            return true;
        }
        i = i + 1;
    }
    false
}

fn truncate_to(values: &mut Vec<String>, n: usize)
    ensures
        texts(final(values)@) == truncated(texts(old(values)@), n as nat),
{
    if values.len() > n {
        values.truncate(n);
        assert(texts(values@) =~= texts(old(values)@).take(n as int));
    }
}

impl GuiPreferences {
    pub fn normalize(&mut self)
        ensures
            final(self)@ == normalized(old(self)@),
    {
        let mut favorites: Vec<String> = Vec::new();
        std::mem::swap(&mut favorites, &mut self.favorites);
        self.favorites = deduplicate(favorites);
        let mut recent: Vec<String> = Vec::new();
        std::mem::swap(&mut recent, &mut self.recent_models);
        self.recent_models = deduplicate(recent);
        truncate_to(&mut self.recent_models, MAX_RECENT_MODELS);
    }

    /// Add `model` to the favorites, or remove it when it is one.
    pub fn toggle_favorite(&mut self, model: String)
        ensures
            final(self)@ == (PrefsView { favorites: toggled(old(self)@.favorites, model@), ..old(self)@ }),
    {
        if contains_text(&self.favorites, model.as_str()) {
            let mut favorites: Vec<String> = Vec::new();
        std::mem::swap(&mut favorites, &mut self.favorites);
            self.favorites = remove_all(favorites, model.as_str());
        } else {
            let ghost before = texts(self.favorites@);
            self.favorites.push(model);
            assert(texts(self.favorites@) =~= before.push(model@));
        }
    }

    pub fn select_model(&mut self, model: String)
        ensures
            final(self)@ == (PrefsView {
                selected_model: Some(model@),
                recent_models: with_recent(old(self)@.recent_models, model@),
                ..old(self)@
            }),
    {
        self.selected_model = Some(model.clone());
        self.record_recent_model(model);
    }

    pub fn select_agent(&mut self, agent: String)
        ensures
            final(self)@ == (PrefsView { selected_agent: Some(agent@), ..old(self)@ }),
    {
        self.selected_agent = Some(agent);
    }

    /// Move `model` to the front of the recents, keeping them unique and
    /// bounded.
    pub fn record_recent_model(&mut self, model: String)
        ensures
            final(self)@ == (PrefsView { recent_models: with_recent(old(self)@.recent_models, model@), ..old(self)@ }),
    {
        let mut recent: Vec<String> = Vec::new();
        std::mem::swap(&mut recent, &mut self.recent_models);
        let ghost m = model@;
        let mut rest = remove_all(recent, model.as_str());
        rest.insert(0, model);
        assert(texts(rest@) =~= seq![m] + without(texts(old(self).recent_models@), m));
        truncate_to(&mut rest, MAX_RECENT_MODELS);
        self.recent_models = rest;
    }
}


/// The first value of a preferences node, as far as the preferences read it.
#[derive(Debug, PartialEq, Eq)]
pub enum PrefValue {
    Str(String),
    Bool(bool),
    Other,
}

/// One node of the preferences document: its name and its first entry.
#[derive(Debug, PartialEq, Eq)]
pub struct PrefNode {
    pub name: String,
    pub first: Option<PrefValue>,
}

/// Why a preferences document was refused.
#[derive(Debug, Clone, PartialEq, Eq)]
pub enum PreferencesError {
    /// The text is not a KDL document.
    InvalidDocument,
    /// A known node whose first value must be a string is not.
    RequiresString(&'static str),
    /// A known node whose first value must be a boolean is not.
    RequiresBool(&'static str),
}

impl PreferencesError {
    /// The error's message, as the `Display` of the error shows it.
    pub fn message(&self) -> (m: String)
        ensures
            m@ == match *self {
                PreferencesError::InvalidDocument => "invalid GUI preferences KDL"@,
                PreferencesError::RequiresString(name) => name@ + " requires a string"@,
                PreferencesError::RequiresBool(name) => name@ + " requires bool"@,
            },
    {
        match self {
            PreferencesError::InvalidDocument => owned("invalid GUI preferences KDL"),
            PreferencesError::RequiresString(name) => {
                let mut m = owned(name);
                m.append(" requires a string");
                m
            },
            PreferencesError::RequiresBool(name) => {
                let mut m = owned(name);
                m.append(" requires bool");
                m
            },
        }
    }
}

/// The nodes of a KDL document, as `KdlDocument`'s parser reads the text;
/// `None` when the text is not a KDL document.
pub uninterp spec fn kdl_document_nodes(text: Seq<char>) -> Option<Seq<PrefNode>>;

pub open spec fn opt_nodes(r: Option<Vec<PrefNode>>) -> Option<Seq<PrefNode>> {
    match r {
        Some(v) => Some(v@),
        None => None,
    }
}

/// `str::parse::<kdl::KdlDocument>`: each node becomes its name and its
/// first entry's value (a string, a boolean, or something else).  The
/// result is named by `kdl_document_nodes` and depends on the text alone.
#[verifier::external_body]
fn parse_document(text: &str) -> (r: Option<Vec<PrefNode>>)
    ensures
        opt_nodes(r) == kdl_document_nodes(text@),
{
    let document = text.parse::<kdl::KdlDocument>().ok()?;
    Some(document.nodes().iter().map(|node| PrefNode {
        name: node.name().value().to_owned(),
        first: node.entries().first().map(|entry| match entry.value() {
            kdl::KdlValue::String(value) => PrefValue::Str(value.clone()),
            kdl::KdlValue::Bool(value) => PrefValue::Bool(*value),
            _ => PrefValue::Other,
        }),
    }).collect())
}

pub open spec fn node_string(n: PrefNode) -> Option<Seq<char>> {
    match n.first {
        Some(PrefValue::Str(v)) => Some(v@),
        _ => None,
    }
}

pub open spec fn node_bool(n: PrefNode) -> Option<bool> {
    match n.first {
        Some(PrefValue::Bool(v)) => Some(v),
        _ => None,
    }
}

/// What one node does to the preferences read so far.  Unknown nodes are
/// ignored, so newer files still load.
pub open spec fn apply_node(p: PrefsView, n: PrefNode) -> Result<PrefsView, PreferencesError> {
    let name = n.name@;
    let text = node_string(n);
    let flag = node_bool(n);
    if name == "favorite"@ {
        match text {
            Some(v) => Ok(PrefsView { favorites: p.favorites.push(v), ..p }),
            None => Err(PreferencesError::RequiresString("favorite")),
        }
    } else if name == "recent"@ {
        match text {
            Some(v) => Ok(PrefsView { recent_models: p.recent_models.push(v), ..p }),
            None => Err(PreferencesError::RequiresString("recent")),
        }
    } else if name == "selected_model"@ {
        match text {
            Some(v) => Ok(PrefsView { selected_model: Some(v), ..p }),
            None => Err(PreferencesError::RequiresString("selected_model")),
        }
    } else if name == "selected_agent"@ {
        match text {
            Some(v) => Ok(PrefsView { selected_agent: Some(v), ..p }),
            None => Err(PreferencesError::RequiresString("selected_agent")),
        }
    } else if name == "sidebar"@ {
        match flag {
            Some(b) => Ok(PrefsView { sidebar: b, ..p }),
            None => Err(PreferencesError::RequiresBool("sidebar")),
        }
    } else if name == "autonomy"@ {
        match flag {
            Some(b) => Ok(PrefsView { autonomy: b, ..p }),
            None => Err(PreferencesError::RequiresBool("autonomy")),
        }
    } else if name == "daemon_warning"@ {
        match flag {
            Some(b) => Ok(PrefsView { daemon_warning: b, ..p }),
            None => Err(PreferencesError::RequiresBool("daemon_warning")),
        }
    } else if name == "daemon_owned"@ {
        match flag {
            Some(b) => Ok(PrefsView { daemon_owned: b, ..p }),
            None => Err(PreferencesError::RequiresBool("daemon_owned")),
        }
    } else {
        Ok(p)
    }
}

/// The nodes applied in document order; the first refused node decides
/// the error.
pub open spec fn apply_nodes(p: PrefsView, nodes: Seq<PrefNode>) -> Result<PrefsView, PreferencesError>
    decreases nodes.len(),
{
    if nodes.len() == 0 {
        Ok(p)
    } else {
        match apply_node(p, nodes[0]) {
            Ok(q) => apply_nodes(q, nodes.drop_first()),
            Err(e) => Err(e),
        }
    }
}

/// Preferences read from a document's nodes: defaults, then each node,
/// then normalized.
pub open spec fn spec_from_nodes(nodes: Seq<PrefNode>) -> Result<PrefsView, PreferencesError> {
    match apply_nodes(default_view(), nodes) {
        Ok(p) => Ok(normalized(p)),
        Err(e) => Err(e),
    }
}

pub open spec fn result_view(r: Result<GuiPreferences, PreferencesError>) -> Result<PrefsView, PreferencesError> {
    match r {
        Ok(p) => Ok(p@),
        Err(e) => Err(e),
    }
}

fn apply_one(p: &mut GuiPreferences, n: &PrefNode) -> (r: Result<(), PreferencesError>)
    ensures
        match apply_node(old(p)@, *n) {
            Ok(q) => r is Ok && final(p)@ == q,
            Err(e) => r == Err::<(), PreferencesError>(e),
        },
{
    let name = n.name.as_str();
    let text: Option<&String> = match &n.first {
        Some(PrefValue::Str(v)) => Some(v),
        _ => None,
    };
    let flag: Option<bool> = match &n.first {
        Some(PrefValue::Bool(b)) => Some(*b),
        _ => None,
    };
    if str_eq(name, "favorite") {
        match text {
            Some(v) => {
                let ghost before = texts(p.favorites@);
                p.favorites.push(v.clone());
                assert(texts(p.favorites@) =~= before.push(v@));
                Ok(())
            },
            None => Err(PreferencesError::RequiresString("favorite")),
        }
    } else if str_eq(name, "recent") {
        match text {
            Some(v) => {
                let ghost before = texts(p.recent_models@);
                p.recent_models.push(v.clone());
                assert(texts(p.recent_models@) =~= before.push(v@));
                Ok(())
            },
            None => Err(PreferencesError::RequiresString("recent")),
        }
    } else if str_eq(name, "selected_model") {
        match text {
            Some(v) => {
                p.selected_model = Some(v.clone());
                Ok(())
            },
            None => Err(PreferencesError::RequiresString("selected_model")),
        }
    } else if str_eq(name, "selected_agent") {
        match text {
            Some(v) => {
                p.selected_agent = Some(v.clone());
                Ok(())
            },
            None => Err(PreferencesError::RequiresString("selected_agent")),
        }
    } else if str_eq(name, "sidebar") {
        match flag {
            Some(b) => {
                p.sidebar = b;
                Ok(())
            },
            None => Err(PreferencesError::RequiresBool("sidebar")),
        }
    } else if str_eq(name, "autonomy") {
        match flag {
            Some(b) => {
                p.autonomy = b;
                Ok(())
            },
            None => Err(PreferencesError::RequiresBool("autonomy")),
        }
    } else if str_eq(name, "daemon_warning") {
        match flag {
            Some(b) => {
                p.daemon_warning = b;
                Ok(())
            },
            None => Err(PreferencesError::RequiresBool("daemon_warning")),
        }
    } else if str_eq(name, "daemon_owned") {
        match flag {
            Some(b) => {
                p.daemon_owned = b;
                Ok(())
            },
            None => Err(PreferencesError::RequiresBool("daemon_owned")),
        }
    } else {
        Ok(())
    }
}

impl GuiPreferences {
    /// Preferences from the nodes of a preferences document.
    pub fn from_nodes(nodes: &Vec<PrefNode>) -> (r: Result<GuiPreferences, PreferencesError>)
        ensures
            result_view(r) == spec_from_nodes(nodes@),
    {
        let mut p = GuiPreferences::default();
        let mut i: usize = 0;
        assert(nodes@.skip(0) =~= nodes@);
        while i < nodes.len()
            invariant
                i <= nodes@.len(),
                apply_nodes(default_view(), nodes@) == apply_nodes(p@, nodes@.skip(i as int)),
            decreases nodes@.len() - i,
        {
            assert(nodes@.skip(i as int)[0] == nodes@[i as int]);
            assert(nodes@.skip(i as int).drop_first() =~= nodes@.skip(i + 1));
            match apply_one(&mut p, &nodes[i]) {
                Ok(()) => {},
                Err(e) => {
                    return Err(e);
                },
            }
            i = i + 1;
        }
        assert(nodes@.skip(nodes@.len() as int) =~= Seq::<PrefNode>::empty());
        p.normalize();
        Ok(p)
    }

    /// Preferences from the text of a preferences document.
    pub fn parse(text: &str) -> (r: Result<GuiPreferences, PreferencesError>)
        ensures
            result_view(r) == match kdl_document_nodes(text@) {
                None => Err(PreferencesError::InvalidDocument),
                Some(nodes) => spec_from_nodes(nodes),
            },
    {
        match parse_document(text) {
            None => Err(PreferencesError::InvalidDocument),
            Some(nodes) => GuiPreferences::from_nodes(&nodes),
        }
    }

    /// The preferences document that stores these preferences (normalized).
    pub fn render(&self) -> (r: String)
        ensures
            r@ == document(self@),
    {
        let favorites = deduplicate(clone_texts(&self.favorites));
        let mut recent = deduplicate(clone_texts(&self.recent_models));
        truncate_to(&mut recent, MAX_RECENT_MODELS);
        let mut out = String::new();
        append_entries(&mut out, "favorite", &favorites);
        append_entries(&mut out, "recent", &recent);
        append_optional(&mut out, "selected_model", &self.selected_model);
        append_optional(&mut out, "selected_agent", &self.selected_agent);
        append_flag(&mut out, "sidebar", self.sidebar);
        append_flag(&mut out, "autonomy", self.autonomy);
        append_flag(&mut out, "daemon_warning", self.daemon_warning);
        append_flag(&mut out, "daemon_owned", self.daemon_owned);
        assert(out@ =~= document(self@));
        out
    }
}

/// How `kdl::KdlValue::String` displays a text: bare when it is a plain
/// identifier, otherwise quoted with escapes.
pub uninterp spec fn kdl_string_literal(value: Seq<char>) -> Seq<char>;

/// `Display` of `kdl::KdlValue::String(value)`; the text it gives is named
/// by `kdl_string_literal` and depends on the value alone.
#[verifier::external_body]
fn kdl_literal(value: &str) -> (r: String)
    ensures
        r@ == kdl_string_literal(value@),
{
    format!("{}", kdl::KdlValue::String(value.to_owned()))
}

/// One `tag value` line per entry.
pub open spec fn entry_lines(tag: Seq<char>, values: Seq<Seq<char>>) -> Seq<char>
    decreases values.len(),
{
    if values.len() == 0 {
        Seq::empty()
    } else {
        entry_lines(tag, values.drop_last()) + tag + " "@ + kdl_string_literal(values.last()) + "\n"@
    }
}

pub open spec fn optional_line(tag: Seq<char>, value: Option<Seq<char>>) -> Seq<char> {
    match value {
        Some(v) => tag + " "@ + kdl_string_literal(v) + "\n"@,
        None => Seq::empty(),
    }
}

pub open spec fn flag_line(tag: Seq<char>, b: bool) -> Seq<char> {
    tag + (if b { " #true\n"@ } else { " #false\n"@ })
}

/// The preferences document for `p`: its normalized favorites and recents,
/// its selections, then its four flags.
pub open spec fn document(p: PrefsView) -> Seq<char> {
    let n = normalized(p);
    entry_lines("favorite"@, n.favorites) + entry_lines("recent"@, n.recent_models) + optional_line(
        "selected_model"@,
        n.selected_model,
    ) + optional_line("selected_agent"@, n.selected_agent) + flag_line("sidebar"@, n.sidebar)
        + flag_line("autonomy"@, n.autonomy) + flag_line("daemon_warning"@, n.daemon_warning)
        + flag_line("daemon_owned"@, n.daemon_owned)
}

fn clone_texts(v: &Vec<String>) -> (r: Vec<String>)
    ensures
        texts(r@) == texts(v@),
{
    let mut r: Vec<String> = Vec::new();
    let mut i: usize = 0;
    while i < v.len()
        invariant
            i <= v@.len(),
            texts(r@) == texts(v@).take(i as int),
        decreases v@.len() - i,
    {
        let ghost before = texts(r@);
        r.push(v[i].clone());
        assert(texts(r@) =~= before.push(v@[i as int]@));
        assert(texts(v@).take(i + 1) =~= texts(v@).take(i as int).push(v@[i as int]@));
        i = i + 1;
    }
    assert(texts(v@).take(v@.len() as int) =~= texts(v@));
    r
}

fn append_entries(out: &mut String, tag: &str, values: &Vec<String>)
    ensures
        final(out)@ == old(out)@ + entry_lines(tag@, texts(values@)),
{
    let mut i: usize = 0;
    while i < values.len()
        invariant
            i <= values@.len(),
            out@ == old(out)@ + entry_lines(tag@, texts(values@).take(i as int)),
        decreases values@.len() - i,
    {
        let literal = kdl_literal(values[i].as_str());
        let ghost before = out@;
        out.append(tag);
        out.append(" ");
        out.append(literal.as_str());
        out.append("\n");
        proof {
            let t = texts(values@).take(i + 1);
            assert(t.drop_last() =~= texts(values@).take(i as int));
            assert(t.last() == values@[i as int]@);
            assert(out@ =~= old(out)@ + entry_lines(tag@, t));
        }
        i = i + 1;
    }
    assert(texts(values@).take(values@.len() as int) =~= texts(values@));
}

fn append_optional(out: &mut String, tag: &str, value: &Option<String>)
    ensures
        final(out)@ == old(out)@ + optional_line(tag@, opt_text(*value)),
{
    match value {
        Some(v) => {
            let literal = kdl_literal(v.as_str());
            out.append(tag);
            out.append(" ");
            out.append(literal.as_str());
            out.append("\n");
            assert(out@ =~= old(out)@ + optional_line(tag@, opt_text(*value)));
        },
        None => {
            assert(out@ =~= old(out)@ + optional_line(tag@, opt_text(*value)));
        },
    }
}

fn append_flag(out: &mut String, tag: &str, b: bool)
    ensures
        final(out)@ == old(out)@ + flag_line(tag@, b),
{
    out.append(tag);
    if b {
        out.append(" #true\n");
    } else {
        out.append(" #false\n");
    }
    assert(out@ =~= old(out)@ + flag_line(tag@, b));
}

proof fn lemma_remove_duplicates_unique(s: Seq<Seq<char>>, seen: Seq<Seq<char>>)
    requires
        seen.no_duplicates(),
    ensures
        s.remove_duplicates(seen).no_duplicates(),
    decreases s.len(),
{
    if s.len() > 0 {
        if seen.contains(s[0]) {
            lemma_remove_duplicates_unique(s.skip(1), seen);
        } else {
            let seen2 = seen + seq![s[0]];
            assert forall|i: int, j: int|
                0 <= i < seen2.len() && 0 <= j < seen2.len() && i != j implies seen2[i]
                != seen2[j] by {
                if i == seen.len() as int {
                    assert(seen2[j] == seen[j]);
                } else if j == seen.len() as int {
                    assert(seen2[i] == seen[i]);
                }
            }
            lemma_remove_duplicates_unique(s.skip(1), seen2);
        }
    }
}

proof fn lemma_remove_duplicates_keeps(s: Seq<Seq<char>>, seen: Seq<Seq<char>>)
    requires
        s.no_duplicates(),
        forall|i: int| 0 <= i < s.len() ==> !seen.contains(#[trigger] s[i]),
    ensures
        s.remove_duplicates(seen) == seen + s,
    decreases s.len(),
{
    if s.len() > 0 {
        let seen2 = seen + seq![s[0]];
        let rest = s.skip(1);
        assert forall|i: int| 0 <= i < rest.len() implies !seen2.contains(#[trigger] rest[i]) by {
            assert(rest[i] == s[i + 1]);
            if seen2.contains(rest[i]) {
                let k = choose|k: int| 0 <= k < seen2.len() && seen2[k] == rest[i];
                if k < seen.len() {
                    assert(seen.contains(s[i + 1]));
                } else {
                    assert(s[0] == s[i + 1]);
                }
            }
        }
        lemma_remove_duplicates_keeps(rest, seen2);
        assert(seen2 + rest =~= seen + s);
    } else {
        assert(seen + s =~= seen);
    }
}

/// Removing repeats leaves no repeats, and a list without repeats as it is.
pub proof fn lemma_dedup(s: Seq<Seq<char>>)
    ensures
        dedup(s).no_duplicates(),
        s.no_duplicates() ==> dedup(s) == s,
{
    lemma_remove_duplicates_unique(s, Seq::empty());
    if s.no_duplicates() {
        lemma_remove_duplicates_keeps(s, Seq::empty());
        assert(Seq::<Seq<char>>::empty() + s =~= s);
    }
}

proof fn lemma_truncated_unique(s: Seq<Seq<char>>, n: nat)
    requires
        s.no_duplicates(),
    ensures
        truncated(s, n).no_duplicates(),
        truncated(s, n).len() <= n,
        forall|x: Seq<char>| truncated(s, n).contains(x) ==> s.contains(x),
{
    assert forall|x: Seq<char>| truncated(s, n).contains(x) implies s.contains(x) by {
        let k = choose|k: int| 0 <= k < truncated(s, n).len() && truncated(s, n)[k] == x;
        assert(s[k] == x);
    }
}

/// Normalizing twice is normalizing once.
pub proof fn law_normalize_idempotent(p: PrefsView)
    ensures
        normalized(normalized(p)) == normalized(p),
{
    let n = normalized(p);
    lemma_dedup(p.favorites);
    lemma_dedup(n.favorites);
    lemma_dedup(p.recent_models);
    lemma_truncated_unique(dedup(p.recent_models), MAX_RECENT_MODELS as nat);
    lemma_dedup(n.recent_models);
}

proof fn lemma_without(values: Seq<Seq<char>>, m: Seq<char>)
    ensures
        !without(values, m).contains(m),
        forall|x: Seq<char>| x != m && values.contains(x) ==> without(values, m).contains(x),
        values.no_duplicates() ==> without(values, m).no_duplicates(),
        !values.contains(m) ==> without(values, m) == values,
    decreases values.len(),
{
    reveal_with_fuel(Seq::filter, 1);
    if values.len() > 0 {
        let init = values.drop_last();
        lemma_without(init, m);
        let w = without(values, m);
        let wi = without(init, m);
        assert(w == if values.last() != m {
            wi.push(values.last())
        } else {
            wi
        });
        assert(!w.contains(m)) by {
            if w.contains(m) {
                let k = choose|k: int| 0 <= k < w.len() && w[k] == m;
                if k < wi.len() {
                    assert(wi.contains(m));
                }
            }
        }
        assert forall|x: Seq<char>| x != m && values.contains(x) implies w.contains(x) by {
            let k = choose|k: int| 0 <= k < values.len() && values[k] == x;
            if k < init.len() {
                assert(init[k] == x);
                assert(init.contains(x));
                assert(wi.contains(x));
                let j = choose|j: int| 0 <= j < wi.len() && wi[j] == x;
                if values.last() != m {
                    assert(w[j] == wi[j]);
                }
                assert(w[j] == x);
            } else {
                assert(w[w.len() - 1] == x);
            }
        }
        if values.no_duplicates() {
            assert(init.no_duplicates()) by {
                assert forall|i: int, j: int|
                    0 <= i < init.len() && 0 <= j < init.len() && i != j implies init[i]
                    != init[j] by {
                    assert(init[i] == values[i] && init[j] == values[j]);
                }
            }
            if values.last() != m {
                assert(!wi.contains(values.last())) by {
                    if wi.contains(values.last()) {
                        lemma_filter_subset(init, m, values.last());
                        let k = choose|k: int| 0 <= k < init.len() && init[k] == values.last();
                        assert(values[k] == values[values.len() - 1]);
                    }
                }
                assert forall|i: int, j: int|
                    0 <= i < w.len() && 0 <= j < w.len() && i != j implies w[i] != w[j] by {
                    if i == w.len() - 1 {
                        assert(wi[j] == w[j]);
                    } else if j == w.len() - 1 {
                        assert(wi[i] == w[i]);
                    } else {
                        assert(wi[i] == w[i] && wi[j] == w[j]);
                    }
                }
            }
        }
        if !values.contains(m) {
            assert(!init.contains(m)) by {
                if init.contains(m) {
                    let k = choose|k: int| 0 <= k < init.len() && init[k] == m;
                    assert(values[k] == m);
                }
            }
            assert(values.last() != m);
            assert(values =~= init.push(values.last()));
        }
    }
}

proof fn lemma_filter_subset(values: Seq<Seq<char>>, m: Seq<char>, x: Seq<char>)
    requires
        without(values, m).contains(x),
    ensures
        values.contains(x),
    decreases values.len(),
{
    reveal_with_fuel(Seq::filter, 1);
    if values.len() > 0 {
        let init = values.drop_last();
        let wi = without(init, m);
        let w = without(values, m);
        let k = choose|k: int| 0 <= k < w.len() && w[k] == x;
        if k < wi.len() {
            assert(wi[k] == x);
            lemma_filter_subset(init, m, x);
            let j = choose|j: int| 0 <= j < init.len() && init[j] == x;
            assert(values[j] == x);
        } else {
            assert(values[values.len() - 1] == x);
        }
    }
}

/// After recording a model it is the newest recent, listed once, the
/// recents stay within `MAX_RECENT_MODELS`, and they never gain a repeat.
pub proof fn law_recents_unique_and_bounded(values: Seq<Seq<char>>, m: Seq<char>)
    ensures
        with_recent(values, m).len() >= 1,
        with_recent(values, m).len() <= MAX_RECENT_MODELS,
        with_recent(values, m)[0] == m,
        forall|i: int| 0 < i < with_recent(values, m).len() ==> #[trigger] with_recent(values, m)[i] != m,
        values.no_duplicates() ==> with_recent(values, m).no_duplicates(),
{
    lemma_without(values, m);
    let full = seq![m] + without(values, m);
    let r = with_recent(values, m);
    assert forall|i: int| 0 < i < r.len() implies #[trigger] r[i] != m by {
        assert(r[i] == full[i]);
        assert(full[i] == without(values, m)[i - 1]);
    }
    if values.no_duplicates() {
        assert(full.no_duplicates()) by {
            assert forall|i: int, j: int|
                0 <= i < full.len() && 0 <= j < full.len() && i != j implies full[i] != full[j] by {
                if i == 0 {
                    assert(full[j] == without(values, m)[j - 1]);
                } else if j == 0 {
                    assert(full[i] == without(values, m)[i - 1]);
                } else {
                    assert(full[i] == without(values, m)[i - 1]);
                    assert(full[j] == without(values, m)[j - 1]);
                }
            }
        }
        lemma_truncated_unique(full, MAX_RECENT_MODELS as nat);
    }
}

/// Toggling a model that is not a favorite twice leaves the favorites as
/// they were.
pub proof fn law_toggle_favorite_twice(values: Seq<Seq<char>>, m: Seq<char>)
    requires
        !values.contains(m),
    ensures
        toggled(toggled(values, m), m) == values,
{
    let pushed = values.push(m);
    assert(pushed.contains(m)) by {
        assert(pushed[values.len() as int] == m);
    }
    reveal_with_fuel(Seq::filter, 1);
    assert(pushed.drop_last() =~= values);
    lemma_without(values, m);
}

} // verus!
