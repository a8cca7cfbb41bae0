use tau_gui::input::{Motion, TextInput};
use tau_gui::input::EditorBuffer;
use tau_gui::input::{line_layout, LineRuns};

#[test]
fn unicode_and_multiline_selection() {
    let mut e = EditorBuffer::new("a😀".into());
    e.move_home(false);
    assert_eq!(e.cursor(), 0);
    e.move_right(true);
    e.move_right(true);
    assert_eq!(e.selected_text(), Some("a😀"));
    e.insert("ok");
    assert_eq!(e.text(), "ok");
}

#[test]
fn grapheme_navigation_keeps_emoji_sequences_and_combining_marks_together() {
    let mut e = EditorBuffer::new("e\u{301}👩‍💻x".into());
    e.move_home(false);
    e.move_right(false);
    assert_eq!(e.selected_text(), None);
    assert_eq!(e.cursor(), "e\u{301}".len());
    e.move_right(false);
    assert_eq!(e.cursor(), "e\u{301}👩‍💻".len());
    e.backspace();
    assert_eq!(e.text(), "e\u{301}x");
}

#[test]
fn vertical_motion_uses_grapheme_columns() {
    let mut e = EditorBuffer::new("a👩‍💻c\nxy\nz".into());
    e.move_home(false);
    e.move_up(false);
    e.move_up(false);
    e.move_right(false);
    e.move_right(false);
    e.move_down(false);
    assert_eq!(&e.text()[e.cursor()..], "\nz");
}

#[test]
fn selection_replaces_a_whole_grapheme_in_reverse() {
    let mut e = EditorBuffer::new("a👩‍💻b".into());
    e.move_home(false);
    e.move_right(false);
    e.move_right(true);
    assert_eq!(e.selected_text(), Some("👩‍💻"));
    e.insert("界");
    assert_eq!(e.text(), "a界b");
}

#[test]
fn delete_and_backspace_respect_grapheme_boundaries() {
    let mut e = EditorBuffer::new("e\u{301}👩‍💻x".into());
    e.move_end(false);
    e.backspace();
    assert_eq!(e.text(), "e\u{301}👩‍💻");
    e.move_home(false);
    e.delete();
    assert_eq!(e.text(), "👩‍💻");
}

#[test]
fn editor_selection_handles_unicode_and_multiline_ranges() {
    let mut editor = EditorBuffer::new("one\nnaïve 😀\nthree".into());
    editor.move_home(false);
    assert_eq!(editor.cursor(), 16);

    editor.move_end(true);
    assert_eq!(editor.selected_text(), Some("three"));
    let mut unicode = EditorBuffer::new("naïve 😀".into());
    unicode.move_home(false);
    unicode.move_end(true);
    assert_eq!(unicode.selected_text(), Some("naïve 😀"));
    unicode.insert("replacement");
    assert_eq!(unicode.text(), "replacement");
}

#[test]
fn an_empty_selection_still_absorbs_one_delete() {
    let mut e = EditorBuffer::new("ab".into());
    e.move_right(true);
    assert_eq!(e.selection(), Some(2..2));
    e.backspace();
    assert_eq!(e.text(), "ab");
    assert_eq!(e.selection(), None);
    e.backspace();
    assert_eq!(e.text(), "a");
    e.move_home(false);
    e.backspace();
    assert_eq!(e.text(), "a");
    e.move_end(false);
    e.delete();
    assert_eq!(e.text(), "a");
}

#[test]
fn default_buffer_is_empty() {
    let e = EditorBuffer::default();
    assert_eq!(e.text(), "");
    assert_eq!(e.cursor(), 0);
    assert_eq!(e.selection(), None);
}

#[test]
fn submissions_are_recalled_newest_first_without_blank_or_repeated_entries() {
    let mut input = TextInput::new();
    input.record_submission("first".into());
    input.record_submission("   ".into());
    input.record_submission("second".into());
    input.record_submission("second".into());
    assert_eq!(input.history(), ["first".to_string(), "second".to_string()]);
    input.history_previous();
    assert_eq!(input.content(), "second");
    input.history_previous();
    assert_eq!(input.content(), "first");
    input.history_previous();
    assert_eq!(input.content(), "first");
    input.history_next();
    assert_eq!(input.content(), "second");
    input.history_next();
    assert_eq!(input.content(), "");
    input.history_next();
    assert_eq!(input.content(), "");
}

#[test]
fn a_disabled_input_refuses_edits_but_moves_and_copies() {
    let mut input = TextInput::new();
    input.paste("ab");
    input.set_disabled(true);
    input.paste("c");
    input.backspace();
    input.newline();
    assert_eq!(input.content(), "ab");
    input.move_caret(Motion::Left, true);
    assert_eq!(input.copy().as_deref(), Some("b"));
    assert_eq!(input.cut(), None);
    input.set_disabled(false);
    assert_eq!(input.cut().as_deref(), Some("b"));
    assert_eq!(input.content(), "a");
    input.newline();
    assert_eq!(input.content(), "a\n");
    input.reset();
    assert_eq!(input.content(), "");
    assert!(!input.is_disabled());
}

#[test]
fn input_method_ranges_are_counted_in_utf16() {
    let mut input = TextInput::new();
    input.paste("a😀b");
    let (text, adjusted) = input.text_for_range(1..3);
    assert_eq!(text, "😀");
    assert_eq!(adjusted, 1..3);
    let (text, adjusted) = input.text_for_range(2..4);
    assert_eq!(text, "b");
    assert_eq!(adjusted, 3..4);
    assert_eq!(input.selected_text_range(), (4..4, false));
    input.move_caret(Motion::Left, true);
    assert_eq!(input.selected_text_range(), (3..4, true));
}

#[test]
fn composing_text_is_marked_then_committed() {
    let mut input = TextInput::new();
    input.paste("ab");
    input.replace_and_mark_text_in_range(None, "ｎ", Some(1..1));
    assert_eq!(input.content(), "abｎ");
    assert_eq!(input.marked_text_range(), Some(2..3));
    assert_eq!(input.buffer().cursor(), 5);
    input.replace_text_in_range(None, "な");
    assert_eq!(input.content(), "abな");
    assert_eq!(input.marked_text_range(), None);
    input.replace_text_in_range(Some(0..1), "X");
    assert_eq!(input.content(), "Xbな");
    input.replace_and_mark_text_in_range(Some(1..2), "", None);
    assert_eq!(input.content(), "Xな");
    assert_eq!(input.marked_text_range(), None);
    input.unmark_text();
    input.set_disabled(true);
    input.replace_text_in_range(Some(0..1), "Y");
    assert_eq!(input.content(), "Xな");
}

#[test]
fn line_layout_splits_lines_marks_runs_and_places_caret_and_selection() {
    let text = "ab\ncd\u{e9}\nx";
    let layout = line_layout(text, Some((1, 5)), 7, Some((1, 8)));
    assert_eq!(
        layout.lines,
        vec![
            LineRuns { start: 0, len: 2, runs: vec![(1, false), (1, true), (0, false)] },
            LineRuns { start: 3, len: 4, runs: vec![(0, false), (2, true), (2, false)] },
            LineRuns { start: 8, len: 1, runs: vec![(1, false)] },
        ]
    );
    assert_eq!((layout.cursor_line, layout.cursor_offset), (1, 4));
    assert_eq!(layout.selection, vec![(0, 1, 2), (1, 0, 4)]);

    let past = line_layout(text, None, 100, None);
    assert_eq!((past.cursor_line, past.cursor_offset), (2, 92));
    assert!(past.selection.is_empty());
    assert_eq!(past.lines[1].runs, vec![(4, false)]);

    let empty = line_layout("", None, 0, Some((0, 0)));
    assert_eq!(empty.lines, vec![LineRuns { start: 0, len: 0, runs: vec![(0, false)] }]);
    assert_eq!((empty.cursor_line, empty.cursor_offset), (0, 0));
    assert!(empty.selection.is_empty());
}
