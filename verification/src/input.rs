//! The prompt input: its editing core (text, caret and selection), the
//! submission history, and the ranges input methods ask about, kept apart
//! from any window so that Unicode, multi-line movement and selection can be
//! driven headless.  Positions are byte offsets; the caret steps over whole
//! grapheme clusters; input methods count in UTF-16.
use crate::segments::{
    byte_len, byte_of_utf16, byte_offset, char_at_byte, char_at_utf16, char_floor,
    cluster_left, cluster_left_of, lemma_char_at_utf16_bound, lemma_char_at_utf16_mono,
    utf16_len, utf16_prefix_len,
    cluster_right, cluster_right_of, is_boundary, lemma_char_floor_mono,
    lemma_char_floor_of_offset, lemma_char_floor_props, lemma_utf8_len_concat, line_end,
    line_end_of, line_start, line_start_of, offset_of_char, utf8_len, vertical_char,
    vertical_of, char_width, lemma_byte_offset_step, lemma_byte_offset_mono, width,
};
use crate::text::{blank, is_blank, owned, str_eq};
use std::ops::Range;
use vstd::prelude::*;
use vstd::string::*;

verus! {

pub struct EditorBuffer {
    text: String,
    cursor: usize,
    anchor: Option<usize>,
}

/// What an editor buffer holds, as values.
pub struct EditorView {
    pub text: Seq<char>,
    pub cursor: usize,
    pub anchor: Option<usize>,
}

impl View for EditorBuffer {
    type V = EditorView;

    closed spec fn view(&self) -> EditorView {
        EditorView { text: self.text@, cursor: self.cursor, anchor: self.anchor }
    }
}

impl EditorView {
    /// The caret and the anchor sit on character boundaries.
    pub open spec fn wf(self) -> bool {
        &&& is_boundary(self.text, self.cursor as int)
        &&& match self.anchor {
            Some(a) => is_boundary(self.text, a as int),
            None => true,
        }
    }

    /// The caret in characters.
    pub open spec fn caret(self) -> int {
        char_floor(self.text, self.cursor as int) as int
    }

    /// The selected byte range, present whenever an anchor is set.
    pub open spec fn range(self) -> Option<(usize, usize)> {
        match self.anchor {
            Some(a) => Some(
                if a <= self.cursor {
                    (a, self.cursor)
                } else {
                    (self.cursor, a)
                },
            ),
            None => None,
        }
    }

    /// The text without the selection, the caret at its start; and whether
    /// there was a selection to remove.
    pub open spec fn cut(self) -> (EditorView, bool) {
        match self.range() {
            Some((lo, hi)) => (
                EditorView {
                    text: self.text.take(char_floor(self.text, lo as int) as int) + self.text.skip(
                        char_floor(self.text, hi as int) as int,
                    ),
                    cursor: lo,
                    anchor: None,
                },
                true,
            ),
            None => (self, false),
        }
    }

    pub open spec fn inserted(self, value: Seq<char>) -> EditorView {
        let w = self.cut().0;
        let k = w.caret();
        EditorView {
            text: w.text.take(k) + value + w.text.skip(k),
            cursor: (w.cursor + utf8_len(value)) as usize,
            ..w
        }
    }

    pub open spec fn backspaced(self) -> EditorView {
        let k = self.caret();
        if self.cut().1 {
            self.cut().0
        } else if k == 0 {
            self
        } else {
            let s = cluster_left(self.text, k);
            EditorView {
                text: self.text.take(s) + self.text.skip(k),
                cursor: byte_offset(self.text, s) as usize,
                ..self
            }
        }
    }

    pub open spec fn deleted(self) -> EditorView {
        let k = self.caret();
        if self.cut().1 {
            self.cut().0
        } else if k < self.text.len() {
            EditorView {
                text: self.text.take(k) + self.text.skip(cluster_right(self.text, k)),
                ..self
            }
        } else {
            self
        }
    }

    /// Bytes `lo..hi` replaced by `value`, the caret after it.
    pub open spec fn replaced(self, lo: usize, hi: usize, value: Seq<char>) -> EditorView {
        EditorView {
            text: self.text.take(char_floor(self.text, lo as int) as int) + value + self.text.skip(
                char_floor(self.text, hi as int) as int,
            ),
            cursor: (lo + utf8_len(value)) as usize,
            anchor: None,
        }
    }

    /// The caret moved to byte `pos`; a selecting move sets the anchor where
    /// the caret was unless one is set.
    pub open spec fn moved(self, pos: usize, selecting: bool) -> EditorView {
        EditorView {
            anchor: if !selecting {
                None
            } else {
                match self.anchor {
                    Some(a) => Some(a),
                    None => Some(self.cursor),
                }
            },
            cursor: pos,
            ..self
        }
    }

    /// The caret moved to character `k`.
    pub open spec fn moved_to_char(self, k: int, selecting: bool) -> EditorView {
        self.moved(byte_offset(self.text, k) as usize, selecting)
    }
}

pub open spec fn fresh_buffer(text: Seq<char>) -> EditorView {
    EditorView { text: text, cursor: utf8_len(text) as usize, anchor: None }
}

impl EditorBuffer {
    #[verifier::type_invariant]
    spec fn inv(self) -> bool {
        self@.wf()
    }

    /// A buffer holding `text`, the caret at its end.
    pub fn new(text: String) -> (b: Self)
        ensures
            b@ == fresh_buffer(text@),
    {
        let cursor = byte_len(text.as_str());
        proof {
            assert(text@.take(text@.len() as int) =~= text@);
            lemma_char_floor_of_offset(text@, text@.len() as int);
        }
        EditorBuffer { text, cursor, anchor: None }
    }

    pub fn text(&self) -> (r: &str)
        ensures
            r@ == self@.text,
    {
        self.text.as_str()
    }

    pub fn cursor(&self) -> (c: usize)
        ensures
            c == self@.cursor,
    {
        self.cursor
    }

    pub fn selection(&self) -> (r: Option<Range<usize>>)
        ensures
            match (r, self@.range()) {
                (Some(x), Some((lo, hi))) => x.start == lo && x.end == hi,
                (None, None) => true,
                _ => false,
            },
    {
        match self.anchor {
            Some(a) => Some(
                if a <= self.cursor {
                    a..self.cursor
                } else {
                    self.cursor..a
                },
            ),
            None => None,
        }
    }

    pub fn selected_text(&self) -> (r: Option<&str>)
        ensures
            match (r, self@.range()) {
                (Some(s), Some((lo, hi))) => s@ == self@.text.subrange(
                    char_floor(self@.text, lo as int) as int,
                    char_floor(self@.text, hi as int) as int,
                ),
                (None, None) => true,
                _ => false,
            },
    {
        proof {
            use_type_invariant(self);
        }
        match self.anchor {
            Some(a) => {
                let (lo, hi) = if a <= self.cursor {
                    (a, self.cursor)
                } else {
                    (self.cursor, a)
                };
                let s = char_at_byte(self.text.as_str(), lo);
                let e = char_at_byte(self.text.as_str(), hi);
                proof {
                    lemma_char_floor_mono(self.text@, lo as int, hi as int);
                }
                Some(self.text.as_str().substring_char(s, e))
            },
            None => None,
        }
    }

    /// Remove the selection, if there is one.
    fn delete_selection(&mut self) -> (removed: bool)
        ensures
            (final(self)@, removed) == old(self)@.cut(),
    {
        proof {
            use_type_invariant(&*self);
        }
        match self.anchor {
            Some(a) => {
                let (lo, hi) = if a <= self.cursor {
                    (a, self.cursor)
                } else {
                    (self.cursor, a)
                };
                let t = self.text.as_str();
                let s = char_at_byte(t, lo);
                let e = char_at_byte(t, hi);
                let n = t.unicode_len();
                let mut rest = owned(t.substring_char(0, s));
                rest.append(t.substring_char(e, n));
                proof {
                    let old_t = self.text@;
                    assert(rest@ =~= old_t.take(s as int) + old_t.skip(e as int));
                    lemma_char_floor_mono(old_t, lo as int, hi as int);
                    assert(rest@.take(s as int) =~= old_t.take(s as int));
                    lemma_char_floor_of_offset(rest@, s as int);
                }
                *self = EditorBuffer { text: rest, cursor: lo, anchor: None };
                true
            },
            None => false,
        }
    }

    /// Type `value` over the selection, or at the caret.
    pub fn insert(&mut self, value: &str)
        ensures
            final(self)@ == old(self)@.inserted(value@),
    {
        self.delete_selection();
        proof {
            use_type_invariant(&*self);
        }
        let t = self.text.as_str();
        let k = char_at_byte(t, self.cursor);
        let n = t.unicode_len();
        let mut text = owned(t.substring_char(0, k));
        text.append(value);
        text.append(t.substring_char(k, n));
        let total = byte_len(text.as_str());
        proof {
            let old_t = self.text@;
            assert(text@ =~= old_t.take(k as int) + value@ + old_t.skip(k as int));
            let head = old_t.take(k as int) + value@;
            assert(text@.take(head.len() as int) =~= head);
            assert(text@ =~= head + old_t.skip(k as int));
            lemma_utf8_len_concat(head, old_t.skip(k as int));
            lemma_utf8_len_concat(old_t.take(k as int), value@);
            lemma_char_floor_of_offset(text@, head.len() as int);
        }
        let cursor = self.cursor + byte_len(value);
        let anchor = self.anchor;
        *self = EditorBuffer { text, cursor, anchor };
    }

    pub fn backspace(&mut self)
        ensures
            final(self)@ == old(self)@.backspaced(),
    {
        if self.delete_selection() {
            return ;
        }
        proof {
            use_type_invariant(&*self);
        }
        let t = self.text.as_str();
        let k = char_at_byte(t, self.cursor);
        if k == 0 {
            return ;
        }
        let start = cluster_left_of(t, k);
        let n = t.unicode_len();
        let mut text = owned(t.substring_char(0, start));
        text.append(t.substring_char(k, n));
        let cursor = offset_of_char(t, start);
        proof {
            let old_t = self.text@;
            assert(text@ =~= old_t.take(start as int) + old_t.skip(k as int));
            assert(text@.take(start as int) =~= old_t.take(start as int));
            lemma_char_floor_of_offset(text@, start as int);
        }
        let anchor = self.anchor;
        *self = EditorBuffer { text, cursor, anchor };
    }

    pub fn delete(&mut self)
        ensures
            final(self)@ == old(self)@.deleted(),
    {
        if self.delete_selection() {
            return ;
        }
        proof {
            use_type_invariant(&*self);
        }
        let t = self.text.as_str();
        let k = char_at_byte(t, self.cursor);
        let n = t.unicode_len();
        if k < n {
            let end = cluster_right_of(t, k);
            let mut text = owned(t.substring_char(0, k));
            text.append(t.substring_char(end, n));
            proof {
                let old_t = self.text@;
                assert(text@ =~= old_t.take(k as int) + old_t.skip(end as int));
                assert(text@.take(k as int) =~= old_t.take(k as int));
                lemma_char_floor_of_offset(old_t, k as int);
                lemma_char_floor_of_offset(text@, k as int);
            }
            let cursor = self.cursor;
            let anchor = self.anchor;
            *self = EditorBuffer { text, cursor, anchor };
        }
    }

    /// Move the caret to character `k`.
    fn move_to_char(&mut self, k: usize, selecting: bool)
        requires
            k <= old(self)@.text.len(),
        ensures
            final(self)@ == old(self)@.moved_to_char(k as int, selecting),
    {
        proof {
            use_type_invariant(&*self);
        }
        let position = offset_of_char(self.text.as_str(), k);
        proof {
            lemma_char_floor_of_offset(self.text@, k as int);
        }
        let anchor = if selecting {
            match self.anchor {
                Some(a) => Some(a),
                None => Some(self.cursor),
            }
        } else {
            None
        };
        self.anchor = anchor;
        self.cursor = position;
    }

    /// Replace the bytes `lo..hi` by `value`; the caret follows the new
    /// text and the selection ends.  Both ends must be character boundaries.
    pub fn replace_range(&mut self, lo: usize, hi: usize, value: &str)
        requires
            lo <= hi,
            is_boundary(old(self)@.text, lo as int),
            is_boundary(old(self)@.text, hi as int),
        ensures
            final(self)@ == old(self)@.replaced(lo, hi, value@),
    {
        proof {
            use_type_invariant(&*self);
            lemma_char_floor_mono(self.text@, lo as int, hi as int);
            lemma_char_floor_props(self.text@, lo as int);
            lemma_char_floor_props(self.text@, hi as int);
        }
        let t = self.text.as_str();
        let s = char_at_byte(t, lo);
        let e = char_at_byte(t, hi);
        let n = t.unicode_len();
        let mut text = owned(t.substring_char(0, s));
        text.append(value);
        text.append(t.substring_char(e, n));
        let total = byte_len(text.as_str());
        proof {
            let old_t = self.text@;
            assert(text@ =~= old_t.take(s as int) + value@ + old_t.skip(e as int));
            let head = old_t.take(s as int) + value@;
            assert(text@.take(head.len() as int) =~= head);
            assert(text@ =~= head + old_t.skip(e as int));
            lemma_utf8_len_concat(head, old_t.skip(e as int));
            lemma_utf8_len_concat(old_t.take(s as int), value@);
            lemma_char_floor_of_offset(text@, head.len() as int);
        }
        let cursor = lo + byte_len(value);
        *self = EditorBuffer { text, cursor, anchor: None };
    }

    /// Put the caret at byte `cursor`, a character boundary; the selection
    /// ends.
    pub fn set_cursor(&mut self, cursor: usize)
        requires
            is_boundary(old(self)@.text, cursor as int),
        ensures
            final(self)@ == (EditorView { cursor: cursor, anchor: None, ..old(self)@ }),
    {
        proof {
            use_type_invariant(&*self);
        }
        self.anchor = None;
        self.cursor = cursor;
    }

    pub fn move_left(&mut self, selecting: bool)
        ensures
            final(self)@ == old(self)@.moved_to_char(
                cluster_left(old(self)@.text, old(self)@.caret()),
                selecting,
            ),
    {
        let k = char_at_byte(self.text.as_str(), self.cursor);
        let p = cluster_left_of(self.text.as_str(), k);
        self.move_to_char(p, selecting);
    }

    pub fn move_right(&mut self, selecting: bool)
        ensures
            final(self)@ == old(self)@.moved_to_char(
                cluster_right(old(self)@.text, old(self)@.caret()),
                selecting,
            ),
    {
        let k = char_at_byte(self.text.as_str(), self.cursor);
        let p = cluster_right_of(self.text.as_str(), k);
        self.move_to_char(p, selecting);
    }

    pub fn move_home(&mut self, selecting: bool)
        ensures
            final(self)@ == old(self)@.moved_to_char(
                line_start(old(self)@.text, old(self)@.caret()),
                selecting,
            ),
    {
        let k = char_at_byte(self.text.as_str(), self.cursor);
        let p = line_start_of(self.text.as_str(), k);
        self.move_to_char(p, selecting);
    }

    pub fn move_end(&mut self, selecting: bool)
        ensures
            final(self)@ == old(self)@.moved_to_char(
                line_end(old(self)@.text, old(self)@.caret()),
                selecting,
            ),
    {
        let k = char_at_byte(self.text.as_str(), self.cursor);
        let p = line_end_of(self.text.as_str(), k);
        self.move_to_char(p, selecting);
    }

    pub fn move_up(&mut self, selecting: bool)
        ensures
            final(self)@ == old(self)@.moved_to_char(
                vertical_char(old(self)@.text, old(self)@.caret(), true),
                selecting,
            ),
    {
        let k = char_at_byte(self.text.as_str(), self.cursor);
        let p = vertical_of(self.text.as_str(), k, true);
        self.move_to_char(p, selecting);
    }

    pub fn move_down(&mut self, selecting: bool)
        ensures
            final(self)@ == old(self)@.moved_to_char(
                vertical_char(old(self)@.text, old(self)@.caret(), false),
                selecting,
            ),
    {
        let k = char_at_byte(self.text.as_str(), self.cursor);
        let p = vertical_of(self.text.as_str(), k, false);
        self.move_to_char(p, selecting);
    }
}

impl Default for EditorBuffer {
    fn default() -> (b: Self)
        ensures
            b@ == fresh_buffer(Seq::empty()),
    {
        Self::new(String::new())
    }
}

/// A caret motion of the prompt input.
#[derive(Debug, Clone, Copy, PartialEq, Eq, Structural)]
pub enum Motion {
    Left,
    Right,
    Up,
    Down,
    Home,
    End,
}

/// The prompt input: the editing buffer, the submitted prompts it can
/// recall, whether editing is disabled while a turn runs, and the byte
/// range an input method has marked.
pub struct TextInput {
    buffer: EditorBuffer,
    history: Vec<String>,
    history_index: Option<usize>,
    disabled: bool,
    marked_range: Option<Range<usize>>,
}

/// What a prompt input holds, as values.
pub struct InputView {
    pub buffer: EditorView,
    pub history: Seq<Seq<char>>,
    pub history_index: Option<usize>,
    pub disabled: bool,
    pub marked: Option<(usize, usize)>,
}

pub open spec fn texts(v: Seq<String>) -> Seq<Seq<char>> {
    v.map_values(|s: String| s@)
}

impl View for TextInput {
    type V = InputView;

    closed spec fn view(&self) -> InputView {
        InputView {
            buffer: self.buffer@,
            history: texts(self.history@),
            history_index: self.history_index,
            disabled: self.disabled,
            marked: match self.marked_range {
                Some(r) => Some((r.start, r.end)),
                None => None,
            },
        }
    }
}

/// `text[..b].encode_utf16().count()`.
pub open spec fn utf16_at(text: Seq<char>, b: int) -> nat {
    utf16_len(text.take(char_floor(text, b) as int))
}

/// The byte offset of a UTF-16 offset.
pub open spec fn byte_at_utf16(text: Seq<char>, u: int) -> nat {
    byte_offset(text, char_at_utf16(text, u) as int)
}

impl InputView {
    /// The submission history after recording `text`: blank text is not
    /// recorded, and an immediate repeat is not recorded twice.
    pub open spec fn recorded(self, text: Seq<char>) -> InputView {
        if blank(text) {
            self
        } else {
            InputView {
                history: if self.history.len() > 0 && self.history.last() == text {
                    self.history
                } else {
                    self.history.push(text)
                },
                history_index: None,
                ..self
            }
        }
    }

    /// One step back in the history: the newest entry first, then older
    /// ones down to the oldest.
    pub open spec fn recalled_previous(self) -> InputView {
        if self.history.len() == 0 {
            self
        } else {
            let next: int = match self.history_index {
                None => self.history.len() - 1,
                Some(i) => if i == 0 {
                    0
                } else {
                    i - 1
                },
            };
            InputView {
                history_index: Some(next as usize),
                buffer: fresh_buffer(self.history[next]),
                ..self
            }
        }
    }

    /// One step forward: the next newer entry, or an empty input after the
    /// newest.
    pub open spec fn recalled_next(self) -> InputView {
        match self.history_index {
            None => self,
            Some(i) => if i + 1 < self.history.len() {
                InputView {
                    history_index: Some((i + 1) as usize),
                    buffer: fresh_buffer(self.history[i + 1]),
                    ..self
                }
            } else {
                InputView { history_index: None, buffer: fresh_buffer(Seq::empty()), ..self }
            },
        }
    }

    /// The marked range lies on character boundaries, in order.
    pub open spec fn marked_valid(self) -> bool {
        match self.marked {
            Some((a, b)) => a <= b && is_boundary(self.buffer.text, a as int) && is_boundary(
                self.buffer.text,
                b as int,
            ),
            None => true,
        }
    }

    /// The bytes an input-method edit replaces: the given UTF-16 range, else
    /// the marked text, else the selection, else the caret.
    pub open spec fn ime_target(self, range: Option<(usize, usize)>) -> (int, int) {
        match range {
            Some((a, b)) => (
                byte_at_utf16(self.buffer.text, a as int) as int,
                byte_at_utf16(self.buffer.text, b as int) as int,
            ),
            None => match self.marked {
                Some((a, b)) => (a as int, b as int),
                None => match self.buffer.range() {
                    Some((lo, hi)) => (lo as int, hi as int),
                    None => (self.buffer.cursor as int, self.buffer.cursor as int),
                },
            },
        }
    }
}

pub open spec fn opt_range(r: Option<Range<usize>>) -> Option<(usize, usize)> {
    match r {
        Some(x) => Some((x.start, x.end)),
        None => None,
    }
}

impl TextInput {
    /// The buffer, an empty one left in its place.
    fn take_buffer(&mut self) -> (b: EditorBuffer)
        ensures
            b@ == old(self)@.buffer,
            final(self)@ == (InputView { buffer: fresh_buffer(Seq::empty()), ..old(self)@ }),
    {
        proof {
            use_type_invariant(&*self);
        }
        let mut b = EditorBuffer::new(String::new());
        std::mem::swap(&mut b, &mut self.buffer);
        b
    }

    #[verifier::type_invariant]
    spec fn inv(self) -> bool {
        match self.history_index {
            Some(i) => i < self.history@.len(),
            None => true,
        }
    }

    pub fn new() -> (t: Self)
        ensures
            t@.buffer == fresh_buffer(Seq::empty()),
            t@.history.len() == 0,
            t@.history_index is None,
            !t@.disabled,
            t@.marked is None,
    {
        let t = TextInput {
            buffer: EditorBuffer::new(String::new()),
            history: Vec::new(),
            history_index: None,
            disabled: false,
            marked_range: None,
        };
        assert(texts(t.history@) =~= Seq::<Seq<char>>::empty());
        t
    }

    /// The text typed so far.
    pub fn content(&self) -> (r: String)
        ensures
            r@ == self@.buffer.text,
    {
        owned(self.buffer.text())
    }

    pub fn buffer(&self) -> (b: &EditorBuffer)
        ensures
            b@ == self@.buffer,
    {
        &self.buffer
    }

    pub fn is_disabled(&self) -> (b: bool)
        ensures
            b == self@.disabled,
    {
        self.disabled
    }

    /// Clear the input, leave history browsing and drop the marked text.
    pub fn reset(&mut self)
        ensures
            final(self)@ == (InputView {
                buffer: fresh_buffer(Seq::empty()),
                history_index: None,
                marked: None,
                ..old(self)@
            }),
    {
        proof {
            use_type_invariant(&*self);
        }
        self.buffer = EditorBuffer::new(String::new());
        self.history_index = None;
        self.marked_range = None;
    }

    pub fn set_disabled(&mut self, disabled: bool)
        ensures
            final(self)@ == (InputView { disabled: disabled, ..old(self)@ }),
    {
        proof {
            use_type_invariant(&*self);
        }
        self.disabled = disabled;
    }

    /// Remember a submitted prompt for recall.
    pub fn record_submission(&mut self, text: String)
        ensures
            final(self)@ == old(self)@.recorded(text@),
    {
        proof {
            use_type_invariant(&*self);
        }
        if is_blank(text.as_str()) {
            return;
        }
        let n = self.history.len();
        let repeat = n > 0 && str_eq(self.history[n - 1].as_str(), text.as_str());
        let ghost before = texts(self.history@);
        self.history_index = None;
        if !repeat {
            let mut history: Vec<String> = Vec::new();
            std::mem::swap(&mut history, &mut self.history);
            let ghost m = text@;
            history.push(text);
            proof {
                assert(texts(history@) =~= before.push(m));
            }
            self.history = history;
        }
    }

    pub fn history(&self) -> (r: &[String])
        ensures
            texts(r@) == self@.history,
    {
        self.history.as_slice()
    }

    /// Recall an older prompt.
    pub fn history_previous(&mut self)
        ensures
            final(self)@ == old(self)@.recalled_previous(),
    {
        proof {
            use_type_invariant(&*self);
        }
        proof {
            use_type_invariant(&*self);
        }
        let n = self.history.len();
        if n == 0 {
            return;
        }
        let next = match self.history_index {
            None => n - 1,
            Some(i) => if i == 0 {
                0
            } else {
                i - 1
            },
        };
        self.buffer = EditorBuffer::new(owned(self.history[next].as_str()));
        self.history_index = Some(next);
    }

    /// Recall a newer prompt, or clear the input after the newest.
    pub fn history_next(&mut self)
        ensures
            final(self)@ == old(self)@.recalled_next(),
    {
        proof {
            use_type_invariant(&*self);
        }
        proof {
            use_type_invariant(&*self);
        }
        let i = match self.history_index {
            Some(i) => i,
            None => return,
        };
        if i < self.history.len() - 1 {
            self.buffer = EditorBuffer::new(owned(self.history[i + 1].as_str()));
            self.history_index = Some(i + 1);
        } else {
            self.history_index = None;
            self.buffer = EditorBuffer::new(String::new());
        }
    }

    pub fn backspace(&mut self)
        ensures
            final(self)@ == (if old(self)@.disabled {
                old(self)@
            } else {
                InputView { buffer: old(self)@.buffer.backspaced(), ..old(self)@ }
            }),
    {
        proof {
            use_type_invariant(&*self);
        }
        if !self.disabled {
            let mut b = self.take_buffer();
            proof {
                use_type_invariant(&*self);
            }
            b.backspace();
            self.buffer = b;
        }
    }

    pub fn delete(&mut self)
        ensures
            final(self)@ == (if old(self)@.disabled {
                old(self)@
            } else {
                InputView { buffer: old(self)@.buffer.deleted(), ..old(self)@ }
            }),
    {
        proof {
            use_type_invariant(&*self);
        }
        if !self.disabled {
            let mut b = self.take_buffer();
            proof {
                use_type_invariant(&*self);
            }
            b.delete();
            self.buffer = b;
        }
    }

    pub fn newline(&mut self)
        ensures
            final(self)@ == (if old(self)@.disabled {
                old(self)@
            } else {
                InputView { buffer: old(self)@.buffer.inserted(seq!['\n']), ..old(self)@ }
            }),
    {
        proof {
            use_type_invariant(&*self);
        }
        if !self.disabled {
            proof {
                reveal_strlit("\n");
                assert("\n"@ =~= seq!['\n']);
            }
            let mut b = self.take_buffer();
            proof {
                use_type_invariant(&*self);
            }
            b.insert("\n");
            self.buffer = b;
        }
    }

    pub fn paste(&mut self, text: &str)
        ensures
            final(self)@ == (if old(self)@.disabled {
                old(self)@
            } else {
                InputView { buffer: old(self)@.buffer.inserted(text@), ..old(self)@ }
            }),
    {
        proof {
            use_type_invariant(&*self);
        }
        if !self.disabled {
            let mut b = self.take_buffer();
            proof {
                use_type_invariant(&*self);
            }
            b.insert(text);
            self.buffer = b;
        }
    }

    /// The selected text, for the clipboard.
    pub fn copy(&self) -> (r: Option<String>)
        ensures
            match (r, self@.buffer.range()) {
                (Some(s), Some((lo, hi))) => s@ == self@.buffer.text.subrange(
                    char_floor(self@.buffer.text, lo as int) as int,
                    char_floor(self@.buffer.text, hi as int) as int,
                ),
                (None, None) => true,
                _ => false,
            },
    {
        match self.buffer.selected_text() {
            Some(t) => Some(owned(t)),
            None => None,
        }
    }

    /// Take the selection out, for the clipboard; nothing while disabled.
    pub fn cut(&mut self) -> (r: Option<String>)
        ensures
            old(self)@.disabled || old(self)@.buffer.range() is None ==> r is None && final(self)@
                == old(self)@,
            !old(self)@.disabled && old(self)@.buffer.range() is Some ==> {
                let (lo, hi) = old(self)@.buffer.range()->0;
                &&& r matches Some(s) && s@ == old(self)@.buffer.text.subrange(
                    char_floor(old(self)@.buffer.text, lo as int) as int,
                    char_floor(old(self)@.buffer.text, hi as int) as int,
                )
                &&& final(self)@ == (InputView { buffer: old(self)@.buffer.deleted(), ..old(self)@ })
            },
    {
        proof {
            use_type_invariant(&*self);
        }
        if self.disabled {
            return None;
        }
        let taken = match self.buffer.selected_text() {
            Some(t) => owned(t),
            None => return None,
        };
        let mut b = self.take_buffer();
        proof {
            use_type_invariant(&*self);
        }
        b.delete();
        self.buffer = b;
        Some(taken)
    }

    /// Move the caret, extending the selection when `selecting`.
    pub fn move_caret(&mut self, motion: Motion, selecting: bool)
        ensures
            final(self)@ == (InputView {
                buffer: {
                    let b = old(self)@.buffer;
                    let k = match motion {
                        Motion::Left => cluster_left(b.text, b.caret()),
                        Motion::Right => cluster_right(b.text, b.caret()),
                        Motion::Up => vertical_char(b.text, b.caret(), true),
                        Motion::Down => vertical_char(b.text, b.caret(), false),
                        Motion::Home => line_start(b.text, b.caret()),
                        Motion::End => line_end(b.text, b.caret()),
                    };
                    b.moved_to_char(k, selecting)
                },
                ..old(self)@
            }),
    {
        proof {
            use_type_invariant(&*self);
        }
        let mut b = self.take_buffer();
        proof {
            use_type_invariant(&*self);
        }
        match motion {
            Motion::Left => b.move_left(selecting),
            Motion::Right => b.move_right(selecting),
            Motion::Up => b.move_up(selecting),
            Motion::Down => b.move_down(selecting),
            Motion::Home => b.move_home(selecting),
            Motion::End => b.move_end(selecting),
        }
        self.buffer = b;
    }

    /// The text of a UTF-16 range, and that range as it falls on characters.
    pub fn text_for_range(&self, range: Range<usize>) -> (r: (String, Range<usize>))
        requires
            range.start <= range.end,
        ensures
            ({
                let t = self@.buffer.text;
                let k1 = char_at_utf16(t, range.start as int) as int;
                let k2 = char_at_utf16(t, range.end as int) as int;
                &&& r.0@ == t.subrange(k1, k2)
                &&& r.1.start == utf16_len(t.take(k1))
                &&& r.1.end == utf16_len(t.take(k2))
            }),
    {
        let t = self.buffer.text();
        proof {
            lemma_char_at_utf16_mono(t@, range.start as int, range.end as int);
            lemma_char_at_utf16_bound(t@, range.end as int);
        }
        let b1 = byte_of_utf16(t, range.start);
        let b2 = byte_of_utf16(t, range.end);
        let k1 = char_at_byte(t, b1);
        let k2 = char_at_byte(t, b2);
        proof {
            lemma_char_floor_of_offset(t@, char_at_utf16(t@, range.start as int) as int);
            lemma_char_floor_of_offset(t@, char_at_utf16(t@, range.end as int) as int);
        }
        let text = owned(t.substring_char(k1, k2));
        let s16 = utf16_prefix_len(t, k1);
        let e16 = utf16_prefix_len(t, k2);
        (text, s16..e16)
    }

    /// The selection (or the caret) in UTF-16 offsets, and whether the caret
    /// is at its start.
    pub fn selected_text_range(&self) -> (r: (Range<usize>, bool))
        ensures
            ({
                let b = self@.buffer;
                &&& match b.range() {
                    Some((lo, hi)) => r.0.start == utf16_at(b.text, lo as int) && r.0.end
                        == utf16_at(b.text, hi as int),
                    None => r.0.start == utf16_at(b.text, b.cursor as int) && r.0.end == utf16_at(
                        b.text,
                        b.cursor as int,
                    ),
                }
                &&& r.1 == (b.range() matches Some((lo, _)) && b.cursor == lo)
            }),
    {
        let t = self.buffer.text();
        let cursor = self.buffer.cursor();
        let at = |b: usize| -> (n: usize)
            ensures
                n == utf16_at(t@, b as int),
            {
                let k = char_at_byte(t, b);
                utf16_prefix_len(t, k)
            };
        match self.buffer.selection() {
            Some(range) => {
                let reversed = cursor == range.start;
                (at(range.start)..at(range.end), reversed)
            },
            None => {
                let c = at(cursor);
                (c..c, false)
            },
        }
    }

    /// The marked text in UTF-16 offsets.
    pub fn marked_text_range(&self) -> (r: Option<Range<usize>>)
        requires
            self@.marked_valid(),
        ensures
            match self@.marked {
                Some((a, b)) => r matches Some(x) && x.start == utf16_at(self@.buffer.text, a as int)
                    && x.end == utf16_at(self@.buffer.text, b as int),
                None => r is None,
            },
    {
        let t = self.buffer.text();
        match &self.marked_range {
            Some(range) => {
                let k1 = char_at_byte(t, range.start);
                let k2 = char_at_byte(t, range.end);
                Some(utf16_prefix_len(t, k1)..utf16_prefix_len(t, k2))
            },
            None => None,
        }
    }

    pub fn unmark_text(&mut self)
        ensures
            final(self)@ == (InputView { marked: None, ..old(self)@ }),
    {
        proof {
            use_type_invariant(&*self);
        }
        self.marked_range = None;
    }

    /// The bytes an input-method edit replaces.
    fn ime_target(&self, range: Option<Range<usize>>) -> (r: Range<usize>)
        requires
            range matches Some(x) ==> x.start <= x.end,
            range is None ==> self@.marked_valid(),
        ensures
            (r.start as int, r.end as int) == self@.ime_target(opt_range(range)),
            r.start <= r.end,
            is_boundary(self@.buffer.text, r.start as int),
            is_boundary(self@.buffer.text, r.end as int),
    {
        proof {
            use_type_invariant(&self.buffer);
        }
        let t = self.buffer.text();
        match range {
            Some(x) => {
                proof {
                    lemma_char_at_utf16_mono(t@, x.start as int, x.end as int);
                    lemma_char_at_utf16_bound(t@, x.end as int);
                    lemma_char_floor_of_offset(t@, char_at_utf16(t@, x.start as int) as int);
                    lemma_char_floor_of_offset(t@, char_at_utf16(t@, x.end as int) as int);
                    crate::segments::lemma_byte_offset_mono(
                        t@,
                        char_at_utf16(t@, x.start as int) as int,
                        char_at_utf16(t@, x.end as int) as int,
                    );
                }
                byte_of_utf16(t, x.start)..byte_of_utf16(t, x.end)
            },
            None => match &self.marked_range {
                Some(m) => m.start..m.end,
                None => match self.buffer.selection() {
                    Some(sel) => sel,
                    None => self.buffer.cursor()..self.buffer.cursor(),
                },
            },
        }
    }

    /// An input method commits text over a UTF-16 range (else over the
    /// marked text, the selection or the caret); the marked text ends.
    /// Nothing happens while disabled.
    pub fn replace_text_in_range(&mut self, range: Option<Range<usize>>, text: &str)
        requires
            range matches Some(x) ==> x.start <= x.end,
            range is None ==> old(self)@.marked_valid(),
        ensures
            final(self)@ == (if old(self)@.disabled {
                old(self)@
            } else {
                let (lo, hi) = old(self)@.ime_target(opt_range(range));
                InputView {
                    buffer: old(self)@.buffer.replaced(lo as usize, hi as usize, text@),
                    marked: None,
                    ..old(self)@
                }
            }),
    {
        proof {
            use_type_invariant(&*self);
        }
        if self.disabled {
            return;
        }
        let target = self.ime_target(range);
        let mut b = self.take_buffer();
        proof {
            use_type_invariant(&*self);
        }
        b.replace_range(target.start, target.end, text);
        self.buffer = b;
        self.marked_range = None;
    }

    /// An input method puts composing text over a UTF-16 range (else over the
    /// marked text, the selection or the caret) and marks it; the caret goes
    /// to the end of the composing text's selected part when one is given.
    /// Nothing happens while disabled.
    pub fn replace_and_mark_text_in_range(
        &mut self,
        range: Option<Range<usize>>,
        text: &str,
        new_selected_range: Option<Range<usize>>,
    )
        requires
            range matches Some(x) ==> x.start <= x.end,
            range is None ==> old(self)@.marked_valid(),
        ensures
            old(self)@.disabled ==> final(self)@ == old(self)@,
            !old(self)@.disabled ==> {
                let (lo, hi) = old(self)@.ime_target(opt_range(range));
                let replaced = old(self)@.buffer.replaced(lo as usize, hi as usize, text@);
                &&& final(self)@.buffer == match new_selected_range {
                    Some(sel) => EditorView {
                        cursor: (lo + byte_at_utf16(text@, sel.end as int)) as usize,
                        anchor: None,
                        ..replaced
                    },
                    None => replaced,
                }
                &&& final(self)@.marked == (if text@.len() == 0 {
                    None
                } else {
                    Some((lo as usize, (lo + utf8_len(text@)) as usize))
                })
                &&& final(self)@.marked_valid()
                &&& final(self)@.history == old(self)@.history
                &&& final(self)@.history_index == old(self)@.history_index
                &&& final(self)@.disabled == old(self)@.disabled
            },
    {
        if self.disabled {
            return;
        }
        let target = self.ime_target(range);
        let ghost k0 = char_floor(self.buffer@.text, target.start as int);
        let ghost old_text = self.buffer@.text;
        proof {
            lemma_char_floor_props(old_text, target.start as int);
        }
        let mut b = self.take_buffer();
        proof {
            use_type_invariant(&*self);
        }
        b.replace_range(target.start, target.end, text);
        let ghost new_text = b@.text;
        proof {
            assert(new_text.take(k0 as int) =~= old_text.take(k0 as int));
            assert(new_text.take(k0 + text@.len() as int) =~= old_text.take(k0 as int) + text@);
            lemma_utf8_len_concat(old_text.take(k0 as int), text@);
            lemma_char_floor_of_offset(new_text, k0 as int);
            lemma_char_floor_of_offset(new_text, k0 + text@.len() as int);
        }
        let len = byte_len(text);
        let total = byte_len(b.text());
        proof {
            crate::segments::lemma_byte_offset_mono(
                new_text,
                k0 + text@.len() as int,
                new_text.len() as int,
            );
        }
        self.marked_range = if len == 0 {
            None
        } else {
            Some(target.start..target.start + len)
        };
        proof {
            if text@.len() == 0 {
                assert(text@ =~= Seq::<char>::empty());
            }
        }
        match new_selected_range {
            Some(sel) => {
                let within = byte_of_utf16(text, sel.end);
                proof {
                    let j = char_at_utf16(text@, sel.end as int) as int;
                    lemma_char_at_utf16_bound(text@, sel.end as int);
                    assert(new_text.take(k0 + j) =~= old_text.take(k0 as int) + text@.take(j));
                    lemma_utf8_len_concat(old_text.take(k0 as int), text@.take(j));
                    lemma_char_floor_of_offset(new_text, k0 + j);
                }
                b.set_cursor(target.start + within);
            },
            None => {},
        }
        self.buffer = b;
    }
}

/// No entry of the history repeats the one before it.
pub open spec fn no_adjacent_repeats(h: Seq<Seq<char>>) -> bool {
    forall|i: int| 0 <= i < h.len() - 1 ==> #[trigger] h[i] != h[i + 1]
}

/// Recording submissions never makes the history repeat an entry twice in a
/// row, and never records blank text.
pub proof fn law_history_has_no_adjacent_repeats(v: InputView, text: Seq<char>)
    requires
        no_adjacent_repeats(v.history),
    ensures
        no_adjacent_repeats(v.recorded(text).history),
        blank(text) ==> v.recorded(text).history == v.history,
{
    let h = v.recorded(text).history;
    if !blank(text) && !(v.history.len() > 0 && v.history.last() == text) {
        assert forall|i: int| 0 <= i < h.len() - 1 implies #[trigger] h[i] != h[i + 1] by {
            if i + 1 < v.history.len() {
                assert(h[i] == v.history[i] && h[i + 1] == v.history[i + 1]);
            }
        }
    }
}


/// The lines of a text split at `'\n'`, each as its byte start and byte
/// length (the separator belongs to neither neighbour).  A text always has
/// at least one line.
pub open spec fn line_spans(s: Seq<char>) -> Seq<(nat, nat)>
    decreases s.len(),
{
    if s.len() == 0 {
        seq![(0nat, 0nat)]
    } else {
        let p = line_spans(s.drop_last());
        if s.last() == '\n' {
            p.push((utf8_len(s), 0nat))
        } else {
            p.update(p.len() - 1, (p.last().0, p.last().1 + width(s.last())))
        }
    }
}

pub open spec fn max_nat(a: nat, b: nat) -> nat {
    if a < b { b } else { a }
}

pub open spec fn min_nat(a: nat, b: nat) -> nat {
    if a < b { a } else { b }
}

/// The styled runs of one line, as (byte length, underlined): where the
/// marked range overlaps the line, the plain part before it, the
/// underlined overlap and the plain part after; otherwise the whole line.
pub open spec fn runs_of(span: (nat, nat), marked: Option<(usize, usize)>) -> Seq<(nat, bool)> {
    let whole = seq![(span.1, false)];
    match marked {
        Some(m) => {
            let a = max_nat(m.0 as nat, span.0);
            let b = min_nat(m.1 as nat, span.0 + span.1);
            if a < b {
                seq![
                    ((a - span.0) as nat, false),
                    ((b - a) as nat, true),
                    ((span.0 + span.1 - b) as nat, false),
                ]
            } else {
                whole
            }
        },
        None => whole,
    }
}

/// The line the caret is drawn on: the first from `i` on whose end is at or
/// after it, or the last line.
pub open spec fn caret_line(spans: Seq<(nat, nat)>, cursor: nat, i: int) -> int
    decreases spans.len() - i,
{
    if i + 1 >= spans.len() || cursor <= spans[i].0 + spans[i].1 {
        i
    } else {
        caret_line(spans, cursor, i + 1)
    }
}

/// The highlighted piece of each line a selection overlaps, as (line,
/// start, end) byte offsets within the line, top to bottom.
pub open spec fn selection_pieces(spans: Seq<(nat, nat)>, lo: nat, hi: nat) -> Seq<(nat, nat, nat)>
    decreases spans.len(),
{
    if spans.len() == 0 {
        Seq::empty()
    } else {
        let before = selection_pieces(spans.drop_last(), lo, hi);
        let span = spans.last();
        let a = max_nat(lo, span.0);
        let b = min_nat(hi, span.0 + span.1);
        if a < b {
            before.push(((spans.len() - 1) as nat, (a - span.0) as nat, (b - span.0) as nat))
        } else {
            before
        }
    }
}

/// One laid-out line: where it starts, its byte length, and its runs.
#[derive(Debug, Clone, PartialEq, Eq)]
pub struct LineRuns {
    pub start: usize,
    pub len: usize,
    pub runs: Vec<(usize, bool)>,
}

/// The integer layout of the input's text before shaping: its lines with
/// their runs, the caret's line and byte offset in it, and the selection's
/// piece on each line it covers.
#[derive(Debug, Clone, PartialEq, Eq)]
pub struct LineLayout {
    pub lines: Vec<LineRuns>,
    pub cursor_line: usize,
    pub cursor_offset: usize,
    pub selection: Vec<(usize, usize, usize)>,
}

pub open spec fn run_views(v: Seq<(usize, bool)>) -> Seq<(nat, bool)> {
    v.map_values(|r: (usize, bool)| (r.0 as nat, r.1))
}

pub open spec fn piece_views(v: Seq<(usize, usize, usize)>) -> Seq<(nat, nat, nat)> {
    v.map_values(|p: (usize, usize, usize)| (p.0 as nat, p.1 as nat, p.2 as nat))
}

pub open spec fn span_views(v: Seq<(usize, usize)>) -> Seq<(nat, nat)> {
    v.map_values(|p: (usize, usize)| (p.0 as nat, p.1 as nat))
}

/// Every line ends within the text, the last one at its end.
proof fn lemma_line_spans_bounds(s: Seq<char>)
    ensures
        line_spans(s).len() >= 1,
        line_spans(s).last().0 + line_spans(s).last().1 == utf8_len(s),
        forall|i: int| 0 <= i < line_spans(s).len() ==> #[trigger] line_spans(s)[i].0 + line_spans(s)[i].1 <= utf8_len(s),
    decreases s.len(),
{
    if s.len() > 0 {
        lemma_line_spans_bounds(s.drop_last());
        assert(s.drop_last().push(s.last()) =~= s);
        crate::segments::lemma_utf8_len_push(s.drop_last(), s.last());
    } else {
        assert(utf8_len(s) == 0);
    }
}

fn spans_of(text: &str) -> (r: Vec<(usize, usize)>)
    ensures
        span_views(r@) == line_spans(text@),
{
    let total = byte_len(text);
    let n = text.unicode_len();
    let mut spans: Vec<(usize, usize)> = Vec::new();
    spans.push((0, 0));
    let mut k: usize = 0;
    let mut pos: usize = 0;
    proof {
        assert(text@.take(0) =~= Seq::<char>::empty());
        assert(span_views(spans@) =~= line_spans(text@.take(0)));
    }
    while k < n
        invariant
            n == text@.len(),
            k <= n,
            total == utf8_len(text@),
            pos == byte_offset(text@, k as int),
            span_views(spans@) == line_spans(text@.take(k as int)),
        decreases n - k,
    {
        let c = text.get_char(k);
        let w = char_width(c);
        proof {
            lemma_byte_offset_step(text@, k as int);
            lemma_byte_offset_mono(text@, (k + 1) as int, (k + 1) as int);
            lemma_line_spans_bounds(text@.take(k as int));
            assert(text@.take(k + 1).drop_last() =~= text@.take(k as int));
            assert(text@.take(k + 1).last() == c);
        }
        if c == '\n' {
            spans.push((pos + 1, 0));
            proof {
                assert(span_views(spans@) =~= line_spans(text@.take(k + 1)));
            }
        } else {
            let last = spans.len() - 1;
            let (st, ln) = spans[last];
            spans.set(last, (st, ln + w));
            proof {
                assert(span_views(spans@) =~= line_spans(text@.take(k + 1)));
            }
        }
        pos = pos + w;
        k = k + 1;
    }
    assert(text@.take(n as int) =~= text@);
    spans
}

fn runs_for(start: usize, len: usize, marked: Option<(usize, usize)>) -> (r: Vec<(usize, bool)>)
    requires
        start + len <= usize::MAX,
    ensures
        run_views(r@) == runs_of((start as nat, len as nat), marked),
{
    let end = start + len;
    let whole = vec![(len, false)];
    let r = match marked {
        Some((ms, me)) => {
            let a = if ms < start { start } else { ms };
            let b = if me < end { me } else { end };
            if a < b {
                let before = a - start;
                let inside = b - a;
                let after = end - b;
                vec![(before, false), (inside, true), (after, false)]
            } else {
                whole
            }
        },
        None => whole,
    };
    assert(run_views(r@) =~= runs_of((start as nat, len as nat), marked));
    r
}

/// The spans of a text fit in `usize`: each line ends within the text.
pub open spec fn spans_fit(sp: Seq<(nat, nat)>) -> bool {
    forall|j: int| 0 <= j < sp.len() ==> #[trigger] sp[j].0 + sp[j].1 <= usize::MAX
}

fn lines_for(spans: &Vec<(usize, usize)>, marked: Option<(usize, usize)>) -> (lines: Vec<LineRuns>)
    requires
        spans_fit(span_views(spans@)),
    ensures
        lines@.len() == spans@.len(),
        forall|j: int|
            0 <= j < spans@.len() ==> {
                let span = #[trigger] span_views(spans@)[j];
                &&& lines@[j].start == span.0
                &&& lines@[j].len == span.1
                &&& run_views(lines@[j].runs@) == runs_of(span, marked)
            },
{
    let ghost sp = span_views(spans@);
    let mut lines: Vec<LineRuns> = Vec::new();
    let mut i: usize = 0;
    while i < spans.len()
        invariant
            sp == span_views(spans@),
            spans_fit(sp),
            i <= spans@.len(),
            lines@.len() == i,
            forall|j: int|
                0 <= j < i ==> {
                    let span = #[trigger] sp[j];
                    &&& lines@[j].start == span.0
                    &&& lines@[j].len == span.1
                    &&& run_views(lines@[j].runs@) == runs_of(span, marked)
                },
        decreases spans@.len() - i,
    {
        let (start, len) = spans[i];
        assert(sp[i as int] == (start as nat, len as nat));
        let runs = runs_for(start, len, marked);
        lines.push(LineRuns { start, len, runs });
        i = i + 1;
    }
    lines
}

fn caret_for(spans: &Vec<(usize, usize)>, cursor: usize) -> (r: (usize, usize))
    requires
        spans@.len() >= 1,
        spans_fit(span_views(spans@)),
    ensures
        r.0 == caret_line(span_views(spans@), cursor as nat, 0),
        r.0 < spans@.len(),
        r.1 == (if cursor >= spans@[r.0 as int].0 {
            (cursor - spans@[r.0 as int].0) as nat
        } else {
            0
        }),
{
    let ghost sp = span_views(spans@);
    let mut k: usize = 0;
    while k < spans.len() - 1 && cursor > spans[k].0 + spans[k].1
        invariant
            spans@.len() >= 1,
            sp == span_views(spans@),
            spans_fit(sp),
            k < spans@.len(),
            caret_line(sp, cursor as nat, k as int) == caret_line(sp, cursor as nat, 0),
        decreases spans@.len() - k,
    {
        assert(sp[k as int].0 + sp[k as int].1 <= usize::MAX);
        k = k + 1;
    }
    assert(sp[k as int].0 + sp[k as int].1 <= usize::MAX);
    let start = spans[k].0;
    let offset = if cursor >= start { cursor - start } else { 0 };
    (k, offset)
}

fn pieces_for(spans: &Vec<(usize, usize)>, lo: usize, hi: usize) -> (r: Vec<(usize, usize, usize)>)
    requires
        spans_fit(span_views(spans@)),
    ensures
        piece_views(r@) == selection_pieces(span_views(spans@), lo as nat, hi as nat),
{
    let ghost sp = span_views(spans@);
    let mut pieces: Vec<(usize, usize, usize)> = Vec::new();
    let mut j: usize = 0;
    while j < spans.len()
        invariant
            sp == span_views(spans@),
            spans_fit(sp),
            j <= spans@.len(),
            piece_views(pieces@) == selection_pieces(sp.take(j as int), lo as nat, hi as nat),
        decreases spans@.len() - j,
    {
        let (start, len) = spans[j];
        assert(sp[j as int] == (start as nat, len as nat));
        assert(sp[j as int].0 + sp[j as int].1 <= usize::MAX);
        assert(sp.take(j + 1).drop_last() =~= sp.take(j as int));
        let end = start + len;
        let a = if lo < start { start } else { lo };
        let b = if hi < end { hi } else { end };
        if a < b {
            pieces.push((j, a - start, b - start));
        }
        j = j + 1;
        assert(piece_views(pieces@) =~= selection_pieces(sp.take(j as int), lo as nat, hi as nat));
    }
    assert(sp.take(spans@.len() as int) =~= sp);
    pieces
}

/// Lay out the input's text in lines for drawing: each line's byte start
/// and length with the marked range underlined where it falls on the line,
/// the caret's line and its byte offset there, and the selection's piece on
/// each line it overlaps.
pub fn line_layout(
    text: &str,
    marked: Option<(usize, usize)>,
    cursor: usize,
    selection: Option<(usize, usize)>,
) -> (r: LineLayout)
    ensures
        r.lines@.len() == line_spans(text@).len(),
        forall|i: int|
            0 <= i < r.lines@.len() ==> {
                let span = #[trigger] line_spans(text@)[i];
                &&& r.lines@[i].start == span.0
                &&& r.lines@[i].len == span.1
                &&& run_views(r.lines@[i].runs@) == runs_of(span, marked)
            },
        r.cursor_line == caret_line(line_spans(text@), cursor as nat, 0),
        r.cursor_offset == (if cursor >= line_spans(text@)[r.cursor_line as int].0 {
            (cursor - line_spans(text@)[r.cursor_line as int].0) as nat
        } else {
            0
        }),
        piece_views(r.selection@) == match selection {
            Some(sel) => selection_pieces(line_spans(text@), sel.0 as nat, sel.1 as nat),
            None => Seq::<(nat, nat, nat)>::empty(),
        },
{
    let total = byte_len(text);
    let spans = spans_of(text);
    proof {
        lemma_line_spans_bounds(text@);
        let sp = line_spans(text@);
        assert forall|j: int| 0 <= j < sp.len() implies #[trigger] sp[j].0 + sp[j].1 <= usize::MAX by {
            assert(sp[j].0 + sp[j].1 <= utf8_len(text@));
        }
        assert(spans@.len() == sp.len());
    }
    let lines = lines_for(&spans, marked);
    let (cursor_line, cursor_offset) = caret_for(&spans, cursor);
    let pieces = match selection {
        Some((lo, hi)) => pieces_for(&spans, lo, hi),
        None => {
            let v: Vec<(usize, usize, usize)> = Vec::new();
            assert(piece_views(v@) =~= Seq::<(nat, nat, nat)>::empty());
            v
        },
    };
    proof {
        assert(spans@[cursor_line as int].0 == line_spans(text@)[cursor_line as int].0);
    }
    LineLayout { lines, cursor_line, cursor_offset, selection: pieces }
}

} // verus!
