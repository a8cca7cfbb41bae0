//! The window-independent prompt composer.
//!
//! The view maps its key actions and IME callbacks to [`ComposerAction`];
//! all editing, selection, undo, prompt history and the send/cancel state
//! live here.  Positions are byte offsets into the text, as `str` indexing
//! uses them; caret motion steps over whole grapheme clusters.
use crate::segments::{
    byte_len, byte_offset, char_at_byte, char_floor, cluster_at_column, cluster_count,
    cluster_count_of, cluster_left, cluster_left_of, cluster_right, cluster_right_of,
    cluster_start, is_boundary, lemma_byte_offset_mono, lemma_char_floor_mono, lemma_char_floor_of_offset,
    lemma_char_floor_props, line_end, line_end_of, line_start, line_start_of, offset_of_char,
    utf8_len, vertical_char, vertical_of, views,
};
use crate::text::{
    blank, has_prefix, push_char, is_blank, is_whitespace, is_ws, owned, split_whitespace, starts_with,
    str_eq, words,
};
use vstd::prelude::*;
use vstd::string::*;

verus! {

/// A selection: `anchor` stays where it began, `cursor` is the caret.
#[derive(Clone, Copy, Debug, Default, PartialEq, Eq, Structural)]
pub struct Selection {
    pub anchor: usize,
    pub cursor: usize,
}

impl Selection {
    pub open spec fn lower(self) -> usize {
        if self.anchor <= self.cursor {
            self.anchor
        } else {
            self.cursor
        }
    }

    pub open spec fn upper(self) -> usize {
        if self.anchor <= self.cursor {
            self.cursor
        } else {
            self.anchor
        }
    }

    pub fn caret(at: usize) -> (s: Self)
        ensures
            s == caret_at(at),
    {
        Selection { anchor: at, cursor: at }
    }

    /// The selected byte range, smaller end first.
    pub fn range(self) -> (r: (usize, usize))
        ensures
            r == (self.lower(), self.upper()),
    {
        if self.anchor <= self.cursor {
            (self.anchor, self.cursor)
        } else {
            (self.cursor, self.anchor)
        }
    }

    pub fn is_empty(self) -> (b: bool)
        ensures
            b == (self.anchor == self.cursor),
    {
        self.anchor == self.cursor
    }
}

pub open spec fn caret_at(at: usize) -> Selection {
    Selection { anchor: at, cursor: at }
}

struct Snapshot {
    text: String,
    selection: Selection,
}

#[derive(Clone, Debug, PartialEq, Eq)]
pub enum ComposerAction {
    InsertText(String),
    Newline,
    Backspace,
    Delete,
    MoveLeft { selecting: bool },
    MoveRight { selecting: bool },
    MoveUp { selecting: bool },
    MoveDown { selecting: bool },
    MoveHome { selecting: bool },
    MoveEnd { selecting: bool },
    SelectAll,
    Undo,
    Redo,
    Cut,
    Copy,
    Paste,
    HistoryPrevious,
    HistoryNext,
    InsertFileReference(String),
    ChooseSlashCommand(String),
    ChooseCompletion(String),
    ChooseModel(String),
    ChooseAgent(String),
    Send,
    Cancel,
}

#[derive(Clone, Copy, Debug, PartialEq, Eq, Structural)]
pub enum ComposerMode {
    Editing,
    Streaming,
}

#[derive(Clone, Copy, Debug, PartialEq, Eq, Structural)]
pub struct ComposerState {
    pub mode: ComposerMode,
    pub disabled: bool,
    pub send_enabled: bool,
    pub cancel_enabled: bool,
}

impl ComposerState {
    pub fn editing() -> (s: Self)
        ensures
            s == (ComposerState {
                mode: ComposerMode::Editing,
                disabled: false,
                send_enabled: false,
                cancel_enabled: false,
            }),
    {
        ComposerState {
            mode: ComposerMode::Editing,
            disabled: false,
            send_enabled: false,
            cancel_enabled: false,
        }
    }
}

pub struct Composer {
    session_id: Option<String>,
    project_id: Option<String>,
    text: String,
    selection: Selection,
    undo: Vec<Snapshot>,
    redo: Vec<Snapshot>,
    history: Vec<String>,
    history_index: Option<usize>,
    clipboard: String,
    state: ComposerState,
    pub model: Option<String>,
    pub agent: Option<String>,
}

/// What a composer holds, as values.
pub struct ComposerView {
    pub session_id: Option<Seq<char>>,
    pub project_id: Option<Seq<char>>,
    pub text: Seq<char>,
    pub selection: Selection,
    pub undo: Seq<(Seq<char>, Selection)>,
    pub redo: Seq<(Seq<char>, Selection)>,
    pub history: Seq<Seq<char>>,
    pub history_index: Option<usize>,
    pub clipboard: Seq<char>,
    pub state: ComposerState,
    pub model: Option<Seq<char>>,
    pub agent: Option<Seq<char>>,
}

pub open spec fn opt_text(o: Option<String>) -> Option<Seq<char>> {
    match o {
        Some(s) => Some(s@),
        None => None,
    }
}

spec fn snaps(v: Seq<Snapshot>) -> Seq<(Seq<char>, Selection)> {
    v.map_values(|s: Snapshot| (s.text@, s.selection))
}

impl View for Composer {
    type V = ComposerView;

    closed spec fn view(&self) -> ComposerView {
        ComposerView {
            session_id: opt_text(self.session_id),
            project_id: opt_text(self.project_id),
            text: self.text@,
            selection: self.selection,
            undo: snaps(self.undo@),
            redo: snaps(self.redo@),
            history: views(self.history@),
            history_index: self.history_index,
            clipboard: self.clipboard@,
            state: self.state,
            model: opt_text(self.model),
            agent: opt_text(self.agent),
        }
    }
}

impl ComposerView {
    /// The history cursor, when set, points into the history.
    pub open spec fn wf(self) -> bool {
        match self.history_index {
            Some(i) => i < self.history.len(),
            None => true,
        }
    }

    /// The character offset of the caret.
    pub open spec fn caret(self) -> int {
        char_floor(self.text, self.selection.cursor as int) as int
    }

    /// The selected characters: both ends moved back to character
    /// boundaries.
    pub open spec fn char_range(self) -> (int, int) {
        (
            char_floor(self.text, self.selection.lower() as int) as int,
            char_floor(self.text, self.selection.upper() as int) as int,
        )
    }

    pub open spec fn selected(self) -> Option<Seq<char>> {
        if self.selection.anchor == self.selection.cursor {
            None
        } else {
            Some(self.text.subrange(self.char_range().0, self.char_range().1))
        }
    }

    pub open spec fn selected_or_empty(self) -> Seq<char> {
        match self.selected() {
            Some(s) => s,
            None => Seq::empty(),
        }
    }
}

/// Byte offset of character `k` of `t`.
pub open spec fn at_char(t: Seq<char>, k: int) -> usize {
    byte_offset(t, k) as usize
}

/// The selection replaced by `value`, with the prior state saved for undo
/// and the caret after the insertion.
pub open spec fn replaced(v: ComposerView, value: Seq<char>) -> ComposerView {
    let s = v.char_range().0;
    let e = v.char_range().1;
    let t = v.text.take(s) + value + v.text.skip(e);
    ComposerView {
        text: t,
        selection: caret_at(at_char(t, s + value.len())),
        undo: v.undo.push((v.text, v.selection)),
        redo: Seq::empty(),
        ..v
    }
}

/// An empty selection widened over the cluster after (forward) or before
/// the caret; a non-empty one as it is.
pub open spec fn widened(v: ComposerView, forward: bool) -> Selection {
    let t = v.text;
    let k = v.caret();
    if v.selection.anchor != v.selection.cursor {
        v.selection
    } else if forward {
        Selection { anchor: v.selection.cursor, cursor: at_char(t, cluster_right(t, k)) }
    } else {
        Selection { anchor: at_char(t, cluster_left(t, k)), cursor: v.selection.cursor }
    }
}

pub open spec fn deleted(v: ComposerView, forward: bool) -> ComposerView {
    replaced(ComposerView { selection: widened(v, forward), ..v }, Seq::empty())
}

/// The caret moved to `pos`; a selecting move keeps the anchor.
pub open spec fn moved(v: ComposerView, pos: usize, selecting: bool) -> ComposerView {
    let len = utf8_len(v.text);
    let anchor = if !selecting {
        pos
    } else if v.selection.anchor <= len {
        v.selection.anchor
    } else {
        len as usize
    };
    ComposerView { selection: Selection { anchor: anchor, cursor: pos }, ..v }
}

/// Where a left or right step lands: collapsing a selection to its edge, or
/// the neighbouring cluster boundary.
pub open spec fn horizontal_target(v: ComposerView, left: bool, selecting: bool) -> usize {
    let t = v.text;
    let k = v.caret();
    if !selecting && v.selection.anchor != v.selection.cursor {
        if left {
            v.selection.lower()
        } else {
            v.selection.upper()
        }
    } else if left {
        at_char(t, cluster_left(t, k))
    } else {
        at_char(t, cluster_right(t, k))
    }
}

pub open spec fn line_edge_target(v: ComposerView, end: bool) -> usize {
    let t = v.text;
    let k = v.caret();
    if end {
        at_char(t, line_end(t, k))
    } else {
        at_char(t, line_start(t, k))
    }
}

/// Where an up or down step lands (see `vertical_char`).
pub open spec fn vertical_target(v: ComposerView, up: bool) -> usize {
    at_char(v.text, vertical_char(v.text, v.caret(), up))
}

/// The last whitespace character before character `k`, or -1.
pub open spec fn last_ws_before(t: Seq<char>, k: int) -> int
    decreases k,
{
    if k <= 0 {
        -1
    } else if is_ws(t[k - 1]) {
        k - 1
    } else {
        last_ws_before(t, k - 1)
    }
}

/// Where a completion starts: one byte after the last whitespace before the
/// caret, or the start of the text.
pub open spec fn completion_anchor(t: Seq<char>, k: int) -> usize {
    let j = last_ws_before(t, k);
    if j < 0 {
        0
    } else {
        (byte_offset(t, j) + 1) as usize
    }
}

/// The word before the caret replaced by a chosen completion.
pub open spec fn completed(v: ComposerView, value: Seq<char>) -> ComposerView {
    let sel = Selection {
        anchor: completion_anchor(v.text, v.caret()),
        cursor: v.selection.cursor,
    };
    replaced(ComposerView { selection: sel, ..v }, value)
}

/// One step back (`undo`) or forward through the edit snapshots.
pub open spec fn undone(v: ComposerView, undo: bool) -> ComposerView {
    let stack = if undo {
        v.undo
    } else {
        v.redo
    };
    if stack.len() == 0 {
        v
    } else {
        let snap = stack.last();
        let current = (v.text, v.selection);
        ComposerView {
            text: snap.0,
            selection: snap.1,
            undo: if undo {
                v.undo.drop_last()
            } else {
                v.undo.push(current)
            },
            redo: if undo {
                v.redo.push(current)
            } else {
                v.redo.drop_last()
            },
            ..v
        }
    }
}

/// Recall an older prompt from the history.
pub open spec fn history_back(v: ComposerView) -> ComposerView {
    let index: int = match v.history_index {
        None => v.history.len() - 1,
        Some(i) => if i == 0 {
            0
        } else {
            i - 1
        },
    };
    if index < 0 {
        v
    } else {
        let text = v.history[index];
        ComposerView {
            history_index: Some(index as usize),
            text: text,
            selection: caret_at(utf8_len(text) as usize),
            ..v
        }
    }
}

/// Step towards the newer prompts; past the newest the text is cleared.
pub open spec fn history_forward(v: ComposerView) -> ComposerView {
    match v.history_index {
        None => v,
        Some(i) => if i + 1 < v.history.len() {
            let text = v.history[i + 1];
            ComposerView {
                history_index: Some((i + 1) as usize),
                text: text,
                selection: caret_at(utf8_len(text) as usize),
                ..v
            }
        } else {
            ComposerView {
                history_index: None,
                text: Seq::empty(),
                selection: caret_at(0),
                ..v
            }
        },
    }
}

/// A non-blank prompt joins the history unless it repeats the newest one;
/// the history cursor is reset either way.
pub open spec fn recorded(v: ComposerView, prompt: Seq<char>) -> ComposerView {
    let history = if !blank(prompt) && (v.history.len() == 0 || v.history.last() != prompt) {
        v.history.push(prompt)
    } else {
        v.history
    };
    ComposerView { history: history, history_index: None, ..v }
}

pub open spec fn with_streaming(v: ComposerView, on: bool) -> ComposerView {
    ComposerView {
        state: ComposerState {
            mode: if on {
                ComposerMode::Streaming
            } else {
                ComposerMode::Editing
            },
            disabled: on,
            cancel_enabled: on,
            send_enabled: !on && !blank(v.text),
        },
        ..v
    }
}

/// Sending is possible when the composer is enabled and the text is not
/// blank.
pub open spec fn refreshed(v: ComposerView) -> ComposerView {
    ComposerView {
        state: ComposerState { send_enabled: !v.state.disabled && !blank(v.text), ..v.state },
        ..v
    }
}

pub open spec fn with_clipboard(v: ComposerView, c: Seq<char>) -> ComposerView {
    ComposerView { clipboard: c, ..v }
}

/// What one action does to the composer, before the send state is
/// refreshed.
pub open spec fn step(v: ComposerView, action: ComposerAction) -> ComposerView {
    match action {
        ComposerAction::InsertText(value) => replaced(v, value@),
        ComposerAction::Newline => replaced(v, seq!['\n']),
        ComposerAction::Backspace => deleted(v, false),
        ComposerAction::Delete => deleted(v, true),
        ComposerAction::MoveLeft { selecting } => moved(
            v,
            horizontal_target(v, true, selecting),
            selecting,
        ),
        ComposerAction::MoveRight { selecting } => moved(
            v,
            horizontal_target(v, false, selecting),
            selecting,
        ),
        ComposerAction::MoveUp { selecting } => moved(v, vertical_target(v, true), selecting),
        ComposerAction::MoveDown { selecting } => moved(v, vertical_target(v, false), selecting),
        ComposerAction::MoveHome { selecting } => moved(
            v,
            line_edge_target(v, false),
            selecting,
        ),
        ComposerAction::MoveEnd { selecting } => moved(v, line_edge_target(v, true), selecting),
        ComposerAction::SelectAll => ComposerView {
            selection: Selection { anchor: 0, cursor: utf8_len(v.text) as usize },
            ..v
        },
        ComposerAction::Undo => undone(v, true),
        ComposerAction::Redo => undone(v, false),
        ComposerAction::Cut => replaced(with_clipboard(v, v.selected_or_empty()), Seq::empty()),
        ComposerAction::Copy => with_clipboard(v, v.selected_or_empty()),
        ComposerAction::Paste => replaced(v, v.clipboard),
        ComposerAction::HistoryPrevious => history_back(v),
        ComposerAction::HistoryNext => history_forward(v),
        ComposerAction::InsertFileReference(path) => replaced(v, seq!['@'] + path@),
        ComposerAction::ChooseSlashCommand(value) => completed(v, value@),
        ComposerAction::ChooseCompletion(value) => completed(v, value@),
        ComposerAction::ChooseModel(value) => ComposerView { model: Some(value@), ..v },
        ComposerAction::ChooseAgent(value) => ComposerView { agent: Some(value@), ..v },
        ComposerAction::Send => v,
        ComposerAction::Cancel => with_streaming(v, false),
    }
}

/// The composer after an action, and the prompt it sends, if any.  While
/// disabled (streaming) only `Cancel` has an effect.
pub open spec fn applied(v: ComposerView, action: ComposerAction) -> (ComposerView, Option<
    Seq<char>,
>) {
    if v.state.disabled && !(action is Cancel) {
        (v, None)
    } else if (action is Send) && v.state.send_enabled {
        (with_streaming(recorded(v, v.text), true), Some(v.text))
    } else {
        (refreshed(step(v, action)), None)
    }
}

/// The actions that slice the text at the caret, and so need the caret on a
/// character boundary.  The caret leaves one only when an undone completion
/// restored an anchor inside a multi-byte whitespace character and a
/// collapsing move then put the caret there.
pub open spec fn slices_at_caret(v: ComposerView, action: ComposerAction) -> bool {
    let empty = v.selection.anchor == v.selection.cursor;
    match action {
        ComposerAction::Backspace => empty,
        ComposerAction::Delete => empty,
        ComposerAction::MoveLeft { selecting } => selecting || empty,
        ComposerAction::MoveRight { selecting } => selecting || empty,
        ComposerAction::MoveUp { .. } => true,
        ComposerAction::MoveDown { .. } => true,
        ComposerAction::MoveHome { .. } => true,
        ComposerAction::MoveEnd { .. } => true,
        ComposerAction::ChooseSlashCommand(_) => true,
        ComposerAction::ChooseCompletion(_) => true,
        _ => false,
    }
}

/// The inputs on which `apply` would slice the text off a character
/// boundary, which panics: an enabled composer, an action that slices at
/// the caret, and a caret inside a character.
pub open spec fn apply_panics(v: ComposerView, action: ComposerAction) -> bool {
    !v.state.disabled && slices_at_caret(v, action) && !is_boundary(
        v.text,
        v.selection.cursor as int,
    )
}

pub open spec fn opt_str(o: Option<&str>) -> Option<Seq<char>> {
    match o {
        Some(s) => Some(s@),
        None => None,
    }
}

/// A composer with nothing typed, nothing saved and sending off.
pub open spec fn fresh() -> ComposerView {
    ComposerView {
        session_id: None,
        project_id: None,
        text: Seq::empty(),
        selection: caret_at(0),
        undo: Seq::empty(),
        redo: Seq::empty(),
        history: Seq::empty(),
        history_index: None,
        clipboard: Seq::empty(),
        state: ComposerState {
            mode: ComposerMode::Editing,
            disabled: false,
            send_enabled: false,
            cancel_enabled: false,
        },
        model: None,
        agent: None,
    }
}

/// The buffer after the IME adapter edited it natively: a different text
/// replaces the buffer, puts the caret at its end and drops the undo
/// snapshots.
pub open spec fn synced(v: ComposerView, t: Seq<char>) -> ComposerView {
    if v.text == t {
        v
    } else {
        ComposerView {
            text: t,
            selection: caret_at(utf8_len(t) as usize),
            undo: Seq::empty(),
            redo: Seq::empty(),
            state: ComposerState { send_enabled: !v.state.disabled && !blank(t), ..v.state },
            ..v
        }
    }
}

pub open spec fn ref_punct(c: char) -> bool {
    c == ',' || c == ';' || c == ')' || c == ']'
}

/// Number of `, ; ) ]` that end `w`.
pub open spec fn trailing_punct(w: Seq<char>) -> nat
    decreases w.len(),
{
    if w.len() == 0 || !ref_punct(w.last()) {
        0
    } else {
        1 + trailing_punct(w.drop_last())
    }
}

/// A word that starts with `@` and has more after it names a file; the
/// punctuation that ends it is not part of the name.  (The `@` in front is
/// no punctuation, so nothing is trimmed there.)
pub open spec fn file_ref(w: Seq<char>) -> Option<Seq<char>> {
    if w.len() >= 2 && w[0] == '@' {
        Some(w.take(w.len() - trailing_punct(w)))
    } else {
        None
    }
}

/// The file references among some words, in order.
pub open spec fn refs_of(ws: Seq<Seq<char>>) -> Seq<Seq<char>> {
    ws.filter_map(|w: Seq<char>| file_ref(w))
}

pub open spec fn file_refs(t: Seq<char>) -> Seq<Seq<char>> {
    refs_of(words(t))
}

fn opt_as_str(o: &Option<String>) -> (r: Option<&str>)
    ensures
        opt_str(r) == opt_text(*o),
{
    match o {
        Some(s) => Some(s.as_str()),
        None => None,
    }
}

impl Composer {
    pub fn new() -> (c: Self)
        ensures
            c@ == fresh(),
            c@.wf(),
    {
        let c = Composer {
            session_id: None,
            project_id: None,
            text: String::new(),
            selection: Selection::caret(0),
            undo: Vec::new(),
            redo: Vec::new(),
            history: Vec::new(),
            history_index: None,
            clipboard: String::new(),
            state: ComposerState::editing(),
            model: None,
            agent: None,
        };
        assert(c@.undo =~= Seq::<(Seq<char>, Selection)>::empty());
        assert(c@.redo =~= Seq::<(Seq<char>, Selection)>::empty());
        assert(c@.history =~= Seq::<Seq<char>>::empty());
        c
    }

    /// Attach the IDs supplied by the surrounding session/project
    /// integration.  The composer keeps them opaquely and never invents
    /// protocol requests.
    pub fn with_ids(session_id: String, project_id: String) -> (c: Self)
        ensures
            c@ == (ComposerView {
                session_id: Some(session_id@),
                project_id: Some(project_id@),
                ..fresh()
            }),
            c@.wf(),
    {
        let mut c = Self::new();
        c.session_id = Some(session_id);
        c.project_id = Some(project_id);
        c
    }

    pub fn session_id(&self) -> (r: Option<&str>)
        ensures
            opt_str(r) == self@.session_id,
    {
        opt_as_str(&self.session_id)
    }

    pub fn project_id(&self) -> (r: Option<&str>)
        ensures
            opt_str(r) == self@.project_id,
    {
        opt_as_str(&self.project_id)
    }

    /// The model chosen for the next turn, if any.
    pub fn model(&self) -> (r: Option<&str>)
        ensures
            opt_str(r) == self@.model,
    {
        opt_as_str(&self.model)
    }

    /// The agent chosen for the next turn, if any.
    pub fn agent(&self) -> (r: Option<&str>)
        ensures
            opt_str(r) == self@.agent,
    {
        opt_as_str(&self.agent)
    }

    pub fn set_ids(&mut self, session_id: String, project_id: String)
        ensures
            final(self)@ == (ComposerView {
                session_id: Some(session_id@),
                project_id: Some(project_id@),
                ..old(self)@
            }),
    {
        self.session_id = Some(session_id);
        self.project_id = Some(project_id);
    }

    pub fn text(&self) -> (r: &str)
        ensures
            r@ == self@.text,
    {
        self.text.as_str()
    }

    pub fn selection(&self) -> (s: Selection)
        ensures
            s == self@.selection,
    {
        self.selection
    }

    /// Synchronize with the IME adapter after an edit made by its native
    /// input handler.  Later actions still go through this model; there is
    /// no second editable buffer.
    pub fn sync_ime_text(&mut self, text: String)
        ensures
            final(self)@ == synced(old(self)@, text@),
    {
        if !str_eq(self.text.as_str(), text.as_str()) {
            let n = byte_len(text.as_str());
            self.text = text;
            self.selection = Selection::caret(n);
            self.undo.clear();
            self.redo.clear();
            self.state.send_enabled = !self.state.disabled && !is_blank(self.text.as_str());
            assert(self@.undo =~= Seq::<(Seq<char>, Selection)>::empty());
            assert(self@.redo =~= Seq::<(Seq<char>, Selection)>::empty());
        }
    }

    pub fn selected_text(&self) -> (r: Option<&str>)
        ensures
            opt_str(r) == self@.selected(),
    {
        if self.selection.is_empty() {
            return None;
        }
        let (lo, hi) = self.selection.range();
        let s = char_at_byte(self.text.as_str(), lo);
        let e = char_at_byte(self.text.as_str(), hi);
        proof {
            lemma_char_floor_mono(self.text@, lo as int, hi as int);
        }
        Some(self.text.as_str().substring_char(s, e))
    }

    /// The number of grapheme clusters in the text.
    pub fn character_count(&self) -> (n: usize)
        ensures
            n == cluster_count(self@.text),
    {
        cluster_count_of(self.text.as_str())
    }

    pub fn state(&self) -> (s: &ComposerState)
        ensures
            *s == self@.state,
    {
        &self.state
    }

    pub fn clipboard(&self) -> (r: &str)
        ensures
            r@ == self@.clipboard,
    {
        self.clipboard.as_str()
    }

    pub fn set_clipboard(&mut self, value: String)
        ensures
            final(self)@ == with_clipboard(old(self)@, value@),
    {
        self.clipboard = value;
    }

    pub fn set_streaming(&mut self, streaming: bool)
        ensures
            final(self)@ == with_streaming(old(self)@, streaming),
    {
        self.state.mode = if streaming {
            ComposerMode::Streaming
        } else {
            ComposerMode::Editing
        };
        self.state.disabled = streaming;
        self.state.cancel_enabled = streaming;
        self.state.send_enabled = !streaming && !is_blank(self.text.as_str());
    }

    pub fn set_model(&mut self, model: String)
        ensures
            final(self)@ == (ComposerView { model: Some(model@), ..old(self)@ }),
    {
        self.model = Some(model);
    }

    pub fn set_agent(&mut self, agent: String)
        ensures
            final(self)@ == (ComposerView { agent: Some(agent@), ..old(self)@ }),
    {
        self.agent = Some(agent);
    }

    pub fn record_history(&mut self, prompt: String)
        ensures
            final(self)@ == recorded(old(self)@, prompt@),
    {
        let n = self.history.len();
        if !is_blank(prompt.as_str()) && (n == 0 || !str_eq(
            self.history[n - 1].as_str(),
            prompt.as_str(),
        )) {
            let ghost before = self.history@;
            self.history.push(prompt);
            assert(views(self.history@) =~= views(before).push(self@.history.last()));
        }
        self.history_index = None;
    }

    pub fn history(&self) -> (h: &[String])
        ensures
            views(h@) == self@.history,
    {
        self.history.as_slice()
    }
}

impl Composer {
    fn replace(&mut self, value: &str)
        ensures
            final(self)@ == replaced(old(self)@, value@),
    {
        let (lo, hi) = self.selection.range();
        let s = char_at_byte(self.text.as_str(), lo);
        let e = char_at_byte(self.text.as_str(), hi);
        let n = self.text.as_str().unicode_len();
        let mut t = owned(self.text.as_str().substring_char(0, s));
        t.append(value);
        t.append(self.text.as_str().substring_char(e, n));
        let ghost old_text = self.text@;
        assert(t@ =~= old_text.take(s as int) + value@ + old_text.skip(e as int));
        let total = t.as_str().unicode_len();
        let k = s + value.unicode_len();
        let b = offset_of_char(t.as_str(), k);
        let snap = Snapshot { text: self.text.clone(), selection: self.selection };
        let ghost before = self.undo@;
        self.undo.push(snap);
        self.redo.clear();
        self.text = t;
        self.selection = Selection::caret(b);
        assert(snaps(self.undo@) =~= snaps(before).push((old_text, old(self).selection)));
        assert(snaps(self.redo@) =~= Seq::<(Seq<char>, Selection)>::empty());
    }

    fn delete(&mut self, forward: bool)
        ensures
            final(self)@ == deleted(old(self)@, forward),
    {
        if self.selection.is_empty() {
            let k = char_at_byte(self.text.as_str(), self.selection.cursor);
            if forward {
                let p = cluster_right_of(self.text.as_str(), k);
                let b = offset_of_char(self.text.as_str(), p);
                self.selection = Selection { anchor: self.selection.cursor, cursor: b };
            } else {
                let p = cluster_left_of(self.text.as_str(), k);
                let b = offset_of_char(self.text.as_str(), p);
                self.selection = Selection { anchor: b, cursor: self.selection.cursor };
            }
        }
        let empty = String::new();
        self.replace(empty.as_str());
    }

    fn move_to(&mut self, position: usize, selecting: bool)
        ensures
            final(self)@ == moved(old(self)@, position, selecting),
    {
        if selecting {
            let len = byte_len(self.text.as_str());
            if self.selection.anchor > len {
                self.selection.anchor = len;
            }
        } else {
            self.selection.anchor = position;
        }
        self.selection.cursor = position;
    }

    fn move_horizontal(&mut self, left: bool, selecting: bool)
        ensures
            final(self)@ == moved(
                old(self)@,
                horizontal_target(old(self)@, left, selecting),
                selecting,
            ),
    {
        let position = if !selecting && !self.selection.is_empty() {
            let (lo, hi) = self.selection.range();
            if left {
                lo
            } else {
                hi
            }
        } else {
            let k = char_at_byte(self.text.as_str(), self.selection.cursor);
            let p = if left {
                cluster_left_of(self.text.as_str(), k)
            } else {
                cluster_right_of(self.text.as_str(), k)
            };
            offset_of_char(self.text.as_str(), p)
        };
        self.move_to(position, selecting);
    }

    fn move_line_edge(&mut self, end: bool, selecting: bool)
        ensures
            final(self)@ == moved(old(self)@, line_edge_target(old(self)@, end), selecting),
    {
        let t = self.text.as_str();
        let k = char_at_byte(t, self.selection.cursor);
        let start = line_start_of(t, k);
        let line_end = line_end_of(t, k);
        let position = offset_of_char(
            t,
            if end {
                line_end
            } else {
                start
            },
        );
        self.move_to(position, selecting);
    }

    fn move_vertical(&mut self, up: bool, selecting: bool)
        ensures
            final(self)@ == moved(old(self)@, vertical_target(old(self)@, up), selecting),
    {
        let t = self.text.as_str();
        let k = char_at_byte(t, self.selection.cursor);
        let position = offset_of_char(t, vertical_of(t, k, up));
        self.move_to(position, selecting);
    }

    fn replace_completion(&mut self, value: &str)
        ensures
            final(self)@ == completed(old(self)@, value@),
    {
        let t = self.text.as_str();
        let k = char_at_byte(t, self.selection.cursor);
        let mut j = k;
        while j > 0 && !is_whitespace(t.get_char(j - 1))
            invariant
                j <= k <= t@.len(),
                last_ws_before(t@, j as int) == last_ws_before(t@, k as int),
            decreases j,
        {
            j = j - 1;
        }
        let total = byte_len(t);
        let start = if j == 0 {
            0
        } else {
            proof {
                lemma_byte_offset_mono(t@, j - 1, j as int);
            }
            offset_of_char(t, j - 1) + 1
        };
        self.selection.anchor = start;
        self.replace(value);
    }

    fn undo_redo(&mut self, undo: bool)
        ensures
            final(self)@ == undone(old(self)@, undo),
    {
        let ghost u = self.undo@;
        let ghost r = self.redo@;
        let popped = if undo {
            self.undo.pop()
        } else {
            self.redo.pop()
        };
        match popped {
            None => {
                assert(self@ == old(self)@);
            },
            Some(snapshot) => {
                let current = Snapshot { text: self.text.clone(), selection: self.selection };
                let ghost cur = (self.text@, self.selection);
                if undo {
                    self.redo.push(current);
                    assert(snaps(self.undo@) =~= snaps(u).drop_last());
                    assert(snaps(self.redo@) =~= snaps(r).push(cur));
                } else {
                    self.undo.push(current);
                    assert(snaps(self.redo@) =~= snaps(r).drop_last());
                    assert(snaps(self.undo@) =~= snaps(u).push(cur));
                }
                self.text = snapshot.text;
                self.selection = snapshot.selection;
            },
        }
    }

    fn history_previous(&mut self)
        requires
            old(self)@.wf(),
        ensures
            final(self)@ == history_back(old(self)@),
    {
        let index = match self.history_index {
            None => {
                if self.history.len() == 0 {
                    return ;
                }
                self.history.len() - 1
            },
            Some(i) => if i == 0 {
                0
            } else {
                i - 1
            },
        };
        self.history_index = Some(index);
        self.text = self.history[index].clone();
        let n = byte_len(self.text.as_str());
        self.selection = Selection::caret(n);
    }

    fn history_next(&mut self)
        requires
            old(self)@.wf(),
        ensures
            final(self)@ == history_forward(old(self)@),
    {
        let index = match self.history_index {
            None => {
                return ;
            },
            Some(i) => i,
        };
        let n = self.history.len();
        assert(self@.history.len() == n);
        if index + 1 < n {
            self.history_index = Some(index + 1);
            self.text = self.history[index + 1].clone();
        } else {
            self.history_index = None;
            self.text = String::new();
        }
        let n = byte_len(self.text.as_str());
        self.selection = Selection::caret(n);
    }
}

impl Composer {
    /// Perform one action.  `Send` hands back the prompt when sending is
    /// enabled, records it in the history and starts streaming; while
    /// streaming every action but `Cancel` is ignored.
    pub fn apply(&mut self, action: ComposerAction) -> (r: Option<String>)
        requires
            old(self)@.wf(),
            !apply_panics(old(self)@, action),
        ensures
            (final(self)@, opt_text(r)) == applied(old(self)@, action),
            final(self)@.wf(),
    {
        if self.state.disabled && !matches!(action, ComposerAction::Cancel) {
            return None;
        }
        match action {
            ComposerAction::InsertText(value) => self.replace(value.as_str()),
            ComposerAction::Newline => {
                let newline = "\n";
                proof {
                    reveal_strlit("\n");
                }
                assert(newline@ =~= seq!['\n']);
                self.replace(newline);
            },
            ComposerAction::Backspace => self.delete(false),
            ComposerAction::Delete => self.delete(true),
            ComposerAction::MoveLeft { selecting } => self.move_horizontal(true, selecting),
            ComposerAction::MoveRight { selecting } => self.move_horizontal(false, selecting),
            ComposerAction::MoveUp { selecting } => self.move_vertical(true, selecting),
            ComposerAction::MoveDown { selecting } => self.move_vertical(false, selecting),
            ComposerAction::MoveHome { selecting } => self.move_line_edge(false, selecting),
            ComposerAction::MoveEnd { selecting } => self.move_line_edge(true, selecting),
            ComposerAction::SelectAll => {
                let len = byte_len(self.text.as_str());
                self.selection = Selection { anchor: 0, cursor: len };
            },
            ComposerAction::Undo => self.undo_redo(true),
            ComposerAction::Redo => self.undo_redo(false),
            ComposerAction::Cut => {
                let copied = match self.selected_text() {
                    Some(s) => owned(s),
                    None => String::new(),
                };
                self.clipboard = copied;
                let empty = String::new();
                self.replace(empty.as_str());
            },
            ComposerAction::Copy => {
                let copied = match self.selected_text() {
                    Some(s) => owned(s),
                    None => String::new(),
                };
                self.clipboard = copied;
            },
            ComposerAction::Paste => {
                let value = self.clipboard.clone();
                self.replace(value.as_str());
            },
            ComposerAction::HistoryPrevious => self.history_previous(),
            ComposerAction::HistoryNext => self.history_next(),
            ComposerAction::InsertFileReference(path) => {
                let mut reference = String::new();
                push_char(&mut reference, '@');
                reference.append(path.as_str());
                assert(reference@ =~= seq!['@'] + path@);
                self.replace(reference.as_str());
            },
            ComposerAction::ChooseSlashCommand(value) => self.replace_completion(value.as_str()),
            ComposerAction::ChooseCompletion(value) => self.replace_completion(value.as_str()),
            ComposerAction::ChooseModel(value) => self.set_model(value),
            ComposerAction::ChooseAgent(value) => self.set_agent(value),
            ComposerAction::Send => {
                if self.state.send_enabled {
                    let value = self.text.clone();
                    self.record_history(value.clone());
                    self.set_streaming(true);
                    return Some(value);
                }
            },
            ComposerAction::Cancel => self.set_streaming(false),
        }
        self.state.send_enabled = !self.state.disabled && !is_blank(self.text.as_str());
        None
    }
}

fn is_ref_punct(c: char) -> (b: bool)
    ensures
        b == ref_punct(c),
{
    c == ',' || c == ';' || c == ')' || c == ']'
}

/// `w` with its trailing `, ; ) ]` removed.
fn strip_ref_punct(w: &str) -> (r: String)
    ensures
        r@ == w@.take(w@.len() - trailing_punct(w@)),
{
    let n = w.unicode_len();
    let mut e = n;
    assert(w@.take(n as int) =~= w@);
    while e > 0 && is_ref_punct(w.get_char(e - 1))
        invariant
            e <= n == w@.len(),
            trailing_punct(w@) == (n - e) + trailing_punct(w@.take(e as int)),
        decreases e,
    {
        assert(w@.take(e as int).drop_last() =~= w@.take(e - 1));
        e = e - 1;
    }
    owned(w.substring_char(0, e))
}

impl Composer {
    /// The files the prompt refers to: its words that start with `@`, with
    /// trailing punctuation removed.
    pub fn file_references(&self) -> (r: Vec<String>)
        ensures
            views(r@) == file_refs(self@.text),
    {
        let ws = split_whitespace(self.text.as_str());
        let ghost w = words(self.text@);
        let mut out: Vec<String> = Vec::new();
        let mut i: usize = 0;
        assert(w.take(0) =~= Seq::<Seq<char>>::empty());
        assert(views(out@) =~= Seq::<Seq<char>>::empty());
        while i < ws.len()
            invariant
                views(ws@) == w,
                i <= ws@.len(),
                views(out@) == refs_of(w.take(i as int)),
            decreases ws@.len() - i,
        {
            let word = ws[i].as_str();
            let n = word.unicode_len();
            let ghost before = views(out@);
            assert(w.take(i + 1).drop_last() =~= w.take(i as int));
            assert(w.take(i + 1).last() == word@);
            if n >= 2 && word.get_char(0) == '@' {
                let r = strip_ref_punct(word);
                out.push(r);
                assert(views(out@) =~= before + seq![r@]);
            }
            i = i + 1;
        }
        assert(w.take(ws@.len() as int) =~= w);
        out
    }
}

/// The word being typed: the last word of `input`, or all of it when it has
/// none.
pub open spec fn suggestion_prefix(input: Seq<char>) -> Seq<char> {
    let ws = words(input);
    if ws.len() > 0 {
        ws.last()
    } else {
        input
    }
}

pub open spec fn prefixed(p: Seq<char>, c: Seq<char>) -> Option<Seq<char>> {
    if has_prefix(c, p) {
        Some(c)
    } else {
        None
    }
}

/// The commands that start with the word being typed, in their order.
pub fn command_suggestions(input: &str, commands: &[String]) -> (r: Vec<String>)
    ensures
        views(r@) == views(commands@).filter_map(
            |c: Seq<char>| prefixed(suggestion_prefix(input@), c),
        ),
{
    let ws = split_whitespace(input);
    let prefix: &str = if ws.len() > 0 {
        ws[ws.len() - 1].as_str()
    } else {
        input
    };
    assert(prefix@ == suggestion_prefix(input@));
    let ghost cs = views(commands@);
    let mut out: Vec<String> = Vec::new();
    let mut i: usize = 0;
    assert(cs.take(0) =~= Seq::<Seq<char>>::empty());
    assert(views(out@) =~= Seq::<Seq<char>>::empty());
    while i < commands.len()
        invariant
            cs == views(commands@),
            prefix@ == suggestion_prefix(input@),
            i <= commands@.len(),
            views(out@) == cs.take(i as int).filter_map(
                |c: Seq<char>| prefixed(suggestion_prefix(input@), c),
            ),
        decreases commands@.len() - i,
    {
        let ghost before = views(out@);
        assert(cs.take(i + 1).drop_last() =~= cs.take(i as int));
        assert(cs.take(i + 1).last() == commands@[i as int]@);
        if starts_with(commands[i].as_str(), prefix) {
            out.push(commands[i].clone());
            assert(views(out@) =~= before + seq![commands@[i as int]@]);
        }
        i = i + 1;
    }
    assert(cs.take(commands@.len() as int) =~= cs);
    out
}

pub trait Clipboard {
    fn read(&self) -> Option<String>;

    fn write(&mut self, text: &str);
}

/// Receives the composer actions of a view.
pub trait ComposerListener {
    fn on_action(&mut self, composer: &mut Composer, action: ComposerAction)
        requires
            old(composer)@.wf(),
            !apply_panics(old(composer)@, action),
        ensures
            final(composer)@.wf(),
    ;
}

/// What an input method reads from the text field it edits.
pub trait ImeTarget {
    fn ime_text(&self) -> &str;

    fn ime_selection(&self) -> Selection;
}

impl ImeTarget for Composer {
    fn ime_text(&self) -> (r: &str)
        ensures
            r@ == self@.text,
    {
        self.text()
    }

    fn ime_selection(&self) -> (s: Selection)
        ensures
            s == self@.selection,
    {
        self.selection()
    }
}

/// The listener that hands each action straight to the composer.
pub struct ImeListener;

impl ComposerListener for ImeListener {
    fn on_action(&mut self, composer: &mut Composer, action: ComposerAction)
        ensures
            final(composer)@ == applied(old(composer)@, action).0,
    {
        composer.apply(action);
    }
}

/// The listener an input method hands its actions to.
pub fn listener_for_ime() -> (l: ImeListener)
    ensures
        l == ImeListener,
{
    ImeListener
}

impl Default for Composer {
    fn default() -> (c: Self)
        ensures
            c@ == fresh(),
            c@.wf(),
    {
        Self::new()
    }
}

/// Undo after an edit gives back the text and selection from before it, and
/// the edit becomes the one step that redo can bring back.
pub proof fn law_undo_restores_edit(v: ComposerView, value: Seq<char>)
    ensures
        undone(replaced(v, value), true) == (ComposerView {
            redo: seq![(replaced(v, value).text, replaced(v, value).selection)],
            ..v
        }),
{
    let e = replaced(v, value);
    assert(e.undo.drop_last() =~= v.undo);
    assert(Seq::<(Seq<char>, Selection)>::empty().push((e.text, e.selection)) =~= seq![
        (e.text, e.selection),
    ]);
}

/// Redo right after undo brings the edit back exactly.
pub proof fn law_redo_after_undo(v: ComposerView, value: Seq<char>)
    ensures
        undone(undone(replaced(v, value), true), false) == replaced(v, value),
{
    let e = replaced(v, value);
    law_undo_restores_edit(v, value);
    let u = undone(e, true);
    assert(u.redo.drop_last() =~= Seq::<(Seq<char>, Selection)>::empty());
    assert(u.undo.push((u.text, u.selection)) =~= e.undo);
}

/// While a prompt streams, every action but `Cancel` leaves the composer as
/// it is and sends nothing.
pub proof fn law_streaming_blocks_edits(v: ComposerView, action: ComposerAction)
    requires
        v.state.disabled,
        !(action is Cancel),
    ensures
        applied(v, action) == (v, None::<Seq<char>>),
{
}

/// `Cancel` always ends streaming: the composer is enabled and editing.
pub proof fn law_cancel_reenables(v: ComposerView)
    ensures
        !applied(v, ComposerAction::Cancel).0.state.disabled,
        !applied(v, ComposerAction::Cancel).0.state.cancel_enabled,
        applied(v, ComposerAction::Cancel).0.state.mode == ComposerMode::Editing,
        applied(v, ComposerAction::Cancel).1 is None,
{
}

/// A sent prompt is the text as it stood; it becomes the newest history
/// entry unless blank or a repeat, and the composer streams until cancelled.
pub proof fn law_send_streams(v: ComposerView)
    requires
        !v.state.disabled,
        v.state.send_enabled,
    ensures
        applied(v, ComposerAction::Send).1 == Some(v.text),
        applied(v, ComposerAction::Send).0.state.disabled,
        applied(v, ComposerAction::Send).0.state.cancel_enabled,
        !applied(v, ComposerAction::Send).0.state.send_enabled,
        applied(v, ComposerAction::Send).0.text == v.text,
        !blank(v.text) ==> applied(v, ComposerAction::Send).0.history.last() == v.text,
{
}

/// Outside a successful send, sending is enabled exactly when the composer
/// is enabled and its text is not blank.
pub proof fn law_send_enabled_tracks_text(v: ComposerView, action: ComposerAction)
    requires
        !v.state.disabled || action is Cancel,
        !((action is Send) && v.state.send_enabled),
    ensures
        applied(v, action).0.state.send_enabled == (!applied(v, action).0.state.disabled
            && !blank(applied(v, action).0.text)),
{
}

/// Setting the clipboard changes nothing else; pasting then puts its value
/// in place of the selection with the caret right after it, and keeps the
/// history and the clipboard.
pub proof fn law_paste_after_set_clipboard(v: ComposerView, value: Seq<char>)
    requires
        !v.state.disabled,
    ensures
        ({
            let w = with_clipboard(v, value);
            let p = applied(w, ComposerAction::Paste).0;
            let s = v.char_range().0;
            let e = v.char_range().1;
            &&& w == ComposerView { clipboard: value, ..v }
            &&& p.text == v.text.take(s) + value + v.text.skip(e)
            &&& p.selection == caret_at(at_char(p.text, s + value.len()))
            &&& p.history == v.history
            &&& p.clipboard == value
        }),
{
}

/// When both ends of the selection are character boundaries, the selected
/// text is exactly the text's UTF-8 bytes between them (`&text[lo..hi]`).
pub proof fn law_selection_is_byte_slice(v: ComposerView)
    requires
        is_boundary(v.text, v.selection.lower() as int),
        is_boundary(v.text, v.selection.upper() as int),
        v.selection.anchor != v.selection.cursor,
    ensures
        v.selected() is Some,
        vstd::utf8::encode_utf8(v.selected()->0) == vstd::utf8::encode_utf8(v.text).subrange(
            v.selection.lower() as int,
            v.selection.upper() as int,
        ),
{
    let t = v.text;
    let lo = v.selection.lower() as int;
    let hi = v.selection.upper() as int;
    let s = char_floor(t, lo) as int;
    let e = char_floor(t, hi) as int;
    crate::segments::lemma_char_floor_props(t, lo);
    crate::segments::lemma_char_floor_props(t, hi);
    lemma_char_floor_mono(t, lo, hi);
    let sub = t.subrange(s, e);
    assert(t.take(e) =~= t.take(s) + sub);
    assert(t =~= t.take(e) + t.skip(e));
    crate::segments::lemma_encode_concat(t.take(s), sub);
    crate::segments::lemma_encode_concat(t.take(e), t.skip(e));
    assert(vstd::utf8::encode_utf8(sub) =~= vstd::utf8::encode_utf8(t).subrange(lo, hi));
}

/// No two neighbours of the history are equal.
pub open spec fn no_repeats(h: Seq<Seq<char>>) -> bool {
    forall|i: int| 0 < i < h.len() ==> h[i - 1] != #[trigger] h[i]
}

/// Recording keeps the history free of blank prompts and of repeats in a
/// row.
pub proof fn law_history_stays_clean(v: ComposerView, prompt: Seq<char>)
    requires
        no_repeats(v.history),
        forall|i: int| 0 <= i < v.history.len() ==> !blank(#[trigger] v.history[i]),
    ensures
        no_repeats(recorded(v, prompt).history),
        forall|i: int|
            0 <= i < recorded(v, prompt).history.len() ==> !blank(
                #[trigger] recorded(v, prompt).history[i],
            ),
{
    let h = recorded(v, prompt).history;
    assert forall|i: int| 0 < i < h.len() implies h[i - 1] != #[trigger] h[i] by {
        if i == v.history.len() {
            assert(h[i - 1] == v.history.last());
        } else {
            assert(h[i] == v.history[i]);
        }
    }
}

/// Every file reference of a prompt begins with `@`.
pub proof fn law_file_refs_start_with_at(t: Seq<char>)
    ensures
        forall|i: int|
            0 <= i < file_refs(t).len() ==> (#[trigger] file_refs(t)[i]).len() > 0
                && file_refs(t)[i][0] == '@',
{
    lemma_file_refs_at(words(t));
}

proof fn lemma_file_refs_at(ws: Seq<Seq<char>>)
    ensures
        forall|i: int|
            0 <= i < refs_of(ws).len() ==> (#[trigger] refs_of(ws)[i]).len() > 0 && refs_of(
                ws,
            )[i][0] == '@',
    decreases ws.len(),
{
    if ws.len() > 0 {
        lemma_file_refs_at(ws.drop_last());
        let w = ws.last();
        let prev = refs_of(ws.drop_last());
        assert(refs_of(ws) == match file_ref(w) {
            Some(r) => prev + seq![r],
            None => prev,
        });
        if w.len() >= 2 && w[0] == '@' {
            lemma_trailing_punct_keeps_at(w);
            let r = w.take(w.len() - trailing_punct(w));
            assert(r[0] == '@');
            assert forall|i: int| 0 <= i < refs_of(ws).len() implies (#[trigger] refs_of(ws)[i]).len()
                > 0 && refs_of(ws)[i][0] == '@' by {
                if i < prev.len() {
                    assert(refs_of(ws)[i] == prev[i]);
                }
            }
        }
    }
}

proof fn lemma_trailing_punct_keeps_at(w: Seq<char>)
    requires
        w.len() >= 1,
        w[0] == '@',
    ensures
        trailing_punct(w) < w.len(),
    decreases w.len(),
{
    if w.len() > 1 && ref_punct(w.last()) {
        lemma_trailing_punct_keeps_at(w.drop_last());
    }
}

} // verus!
