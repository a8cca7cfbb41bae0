use tau_gui::composer::{
    command_suggestions, listener_for_ime, Composer, ComposerAction, ComposerListener,
    ComposerMode, ImeTarget, Selection,
};

#[test]
fn grapheme_selection_and_vertical_motion_are_safe() {
    let mut composer = Composer::new();
    composer.apply(ComposerAction::InsertText("a👩‍💻\nxy".into()));
    composer.apply(ComposerAction::MoveHome { selecting: false });
    composer.apply(ComposerAction::MoveUp { selecting: false });
    composer.apply(ComposerAction::MoveRight { selecting: true });
    assert_eq!(composer.selected_text(), Some("a"));
    assert_eq!(composer.character_count(), 5);
}

#[test]
fn clipboard_history_file_refs_and_streaming_states_work() {
    let mut composer = Composer::with_ids("session-1".into(), "project-1".into());
    assert_eq!(composer.session_id(), Some("session-1"));
    assert_eq!(composer.project_id(), Some("project-1"));
    composer.apply(ComposerAction::InsertText("@src/lib.rs".into()));
    assert_eq!(composer.file_references(), vec!["@src/lib.rs"]);
    composer.apply(ComposerAction::SelectAll);
    composer.apply(ComposerAction::Copy);
    assert_eq!(composer.clipboard(), "@src/lib.rs");
    composer.record_history("previous".into());
    composer.apply(ComposerAction::HistoryPrevious);
    assert_eq!(composer.text(), "previous");
    let sent = composer.apply(ComposerAction::Send);
    assert_eq!(sent.as_deref(), Some("previous"));
    assert!(composer.state().disabled);
    composer.apply(ComposerAction::Cancel);
    assert!(!composer.state().disabled);
}

#[test]
fn ime_listener_is_reachable_and_commands_are_typed() {
    let mut composer = Composer::new();
    let mut listener = listener_for_ime();
    listener.on_action(&mut composer, ComposerAction::InsertText("/mo".into()));
    assert_eq!(composer.ime_text(), "/mo");
    assert_eq!(
        command_suggestions("/mo", &["/model".into()]),
        vec!["/model"]
    );
}

#[test]
fn composer_keeps_input_adapter_and_typed_send_paths_reachable() {
    let mut composer = Composer::with_ids("session-1".into(), "project-1".into());
    assert_eq!(composer.session_id(), Some("session-1"));
    assert_eq!(composer.project_id(), Some("project-1"));
    composer.sync_ime_text("please inspect @src/lib.rs".into());
    assert_eq!(composer.file_references(), vec!["@src/lib.rs"]);
    assert!(composer.state().send_enabled);

    composer.apply(ComposerAction::ChooseModel("gpt-test".into()));
    composer.apply(ComposerAction::ChooseAgent("critic".into()));
    composer.apply(ComposerAction::InsertFileReference("README.md".into()));
    assert_eq!(composer.model(), Some("gpt-test"));
    assert_eq!(composer.agent(), Some("critic"));

    let prompt = composer.apply(ComposerAction::Send);
    assert_eq!(
        prompt.as_deref(),
        Some("please inspect @src/lib.rs@README.md")
    );
    assert_eq!(composer.state().mode, ComposerMode::Streaming);
    assert!(composer.state().cancel_enabled);
    assert_eq!(composer.apply(ComposerAction::Cancel), None);
    assert_eq!(composer.state().mode, ComposerMode::Editing);
    assert!(!composer.state().disabled);
    assert!(!composer.state().cancel_enabled);
}

#[test]
fn ime_sync_and_completion_actions_share_canonical_buffer() {
    let mut composer = Composer::new();
    composer.sync_ime_text("/mo".into());
    composer.apply(ComposerAction::ChooseCompletion("/model".into()));
    assert_eq!(composer.text(), "/model");
    composer.apply(ComposerAction::ChooseSlashCommand("/models".into()));
    assert_eq!(composer.text(), "/models");
}

#[test]
fn gui_composer_file_refs_and_model_agent_are_adapter_state_not_requests() {
    let mut composer = Composer::with_ids("s".into(), "p".into());
    composer.sync_ime_text("review @src/main.rs, and @README.md)".into());
    assert_eq!(
        composer.file_references(),
        vec!["@src/main.rs", "@README.md"]
    );
    composer.apply(ComposerAction::ChooseModel("model-a".into()));
    composer.apply(ComposerAction::ChooseAgent("agent-a".into()));
    assert_eq!(composer.model(), Some("model-a"));
    assert_eq!(composer.agent(), Some("agent-a"));
    assert_eq!(composer.session_id(), Some("s"));
    assert_eq!(composer.project_id(), Some("p"));
}

#[test]
fn gui_streaming_blocks_edits_but_cancel_remains_reachable() {
    let mut composer = Composer::new();
    composer.sync_ime_text("prompt".into());
    assert_eq!(
        composer.apply(ComposerAction::Send).as_deref(),
        Some("prompt")
    );
    assert_eq!(
        composer.apply(ComposerAction::InsertText(" changed".into())),
        None
    );
    assert_eq!(composer.text(), "prompt");
    assert_eq!(composer.apply(ComposerAction::Cancel), None);
    assert_eq!(composer.state().mode, ComposerMode::Editing);
    assert!(composer.state().send_enabled);
}

#[test]
fn composer_action_pipeline_updates_state() {
    let mut composer = Composer::with_ids("sess-123".into(), "proj-456".into());
    composer.apply(ComposerAction::ChooseModel(
        "openai-codex/gpt-5.6-sol".into(),
    ));
    composer.apply(ComposerAction::ChooseAgent("architect".into()));
    composer.apply(ComposerAction::InsertText("implement feature".into()));

    assert_eq!(composer.model(), Some("openai-codex/gpt-5.6-sol"));
    assert_eq!(composer.agent(), Some("architect"));
    assert_eq!(composer.text(), "implement feature");
}

#[test]
fn undo_restores_text_and_redo_brings_the_edit_back() {
    let mut composer = Composer::new();
    composer.apply(ComposerAction::InsertText("one".into()));
    composer.apply(ComposerAction::InsertText(" two".into()));
    composer.apply(ComposerAction::Undo);
    assert_eq!(composer.text(), "one");
    assert_eq!(composer.selection(), Selection::caret(3));
    composer.apply(ComposerAction::Redo);
    assert_eq!(composer.text(), "one two");
    assert_eq!(composer.selection(), Selection::caret(7));
    composer.apply(ComposerAction::Undo);
    composer.apply(ComposerAction::Undo);
    assert_eq!(composer.text(), "");
    composer.apply(ComposerAction::Undo);
    assert_eq!(composer.text(), "");
}

#[test]
fn selections_are_byte_offsets_and_backspace_removes_a_whole_cluster() {
    let mut composer = Composer::new();
    composer.apply(ComposerAction::InsertText("né👩‍💻".into()));
    assert_eq!(composer.selection(), Selection::caret("né👩‍💻".len()));
    composer.apply(ComposerAction::Backspace);
    assert_eq!(composer.text(), "né");
    composer.apply(ComposerAction::MoveLeft { selecting: true });
    assert_eq!(composer.selection().range(), (1, 3));
    assert_eq!(composer.selected_text(), Some("é"));
    composer.apply(ComposerAction::Cut);
    assert_eq!(composer.clipboard(), "é");
    assert_eq!(composer.text(), "n");
    composer.apply(ComposerAction::Paste);
    composer.apply(ComposerAction::Paste);
    assert_eq!(composer.text(), "néé");
    composer.apply(ComposerAction::MoveHome { selecting: false });
    composer.apply(ComposerAction::Delete);
    assert_eq!(composer.text(), "éé");
    composer.apply(ComposerAction::MoveEnd { selecting: true });
    assert_eq!(composer.selected_text(), Some("éé"));
    composer.apply(ComposerAction::Newline);
    assert_eq!(composer.text(), "\n");
}

#[test]
fn history_walks_back_and_forward_and_clears_past_the_newest() {
    let mut composer = Composer::new();
    composer.record_history("first".into());
    composer.record_history("first".into());
    composer.record_history("   ".into());
    composer.record_history("second".into());
    assert_eq!(composer.history().len(), 2);
    composer.apply(ComposerAction::HistoryPrevious);
    assert_eq!(composer.text(), "second");
    composer.apply(ComposerAction::HistoryPrevious);
    assert_eq!(composer.text(), "first");
    composer.apply(ComposerAction::HistoryPrevious);
    assert_eq!(composer.text(), "first");
    composer.apply(ComposerAction::HistoryNext);
    assert_eq!(composer.text(), "second");
    composer.apply(ComposerAction::HistoryNext);
    assert_eq!(composer.text(), "");
    assert_eq!(composer.selection(), Selection::caret(0));
}

#[test]
fn completion_replaces_the_word_before_the_caret() {
    let mut composer = Composer::new();
    composer.sync_ime_text("use /mo".into());
    composer.apply(ComposerAction::ChooseCompletion("/model".into()));
    assert_eq!(composer.text(), "use /model");
    let mut wide = Composer::new();
    wide.sync_ime_text("a\u{3000}/mo".into());
    wide.apply(ComposerAction::ChooseCompletion("/model".into()));
    assert_eq!(wide.text(), "a/model");
}

#[test]
fn blank_text_cannot_be_sent() {
    let mut composer = Composer::new();
    composer.apply(ComposerAction::InsertText("  \n".into()));
    assert!(!composer.state().send_enabled);
    assert_eq!(composer.apply(ComposerAction::Send), None);
    assert!(!composer.state().disabled);
}

#[test]
fn suggestions_use_the_last_word_or_the_whole_input() {
    let commands: Vec<String> = vec!["/model".into(), "/agent".into(), "/models".into()];
    assert_eq!(command_suggestions("x /mod", &commands), vec!["/model", "/models"]);
    assert_eq!(command_suggestions("", &commands), commands);
    assert_eq!(command_suggestions("   ", &commands), Vec::<String>::new());
}

#[test]
fn pasting_the_set_clipboard_replaces_the_selection() {
    let mut c = Composer::new();
    c.apply(ComposerAction::InsertText("héllo".into()));
    c.apply(ComposerAction::MoveLeft { selecting: true });
    c.apply(ComposerAction::MoveLeft { selecting: true });
    c.set_clipboard("Ω!".into());
    assert_eq!(c.text(), "héllo");
    assert_eq!(c.clipboard(), "Ω!");
    c.apply(ComposerAction::Paste);
    assert_eq!(c.text(), "hélΩ!");
    assert_eq!(c.selection(), Selection::caret("hélΩ!".len()));
    assert_eq!(c.clipboard(), "Ω!");
}
