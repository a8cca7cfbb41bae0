use tau_gui::chat::{Card, ChatAction, ChatState, ChatStatus, CompletionEvent, PermissionChoice, Role};
use tau_gui::proto::completion::{CompletionDelta, CompletionStreamResult, UsageSummary};
use tau_gui::proto::envelope::Id;
use tau_gui::proto::turn::{SequencedEvent, TurnEvent};

fn sequenced(sequence: u64, event: TurnEvent) -> SequencedEvent {
    SequencedEvent {
        event_id: format!("event-{sequence}"),
        session_id: "session".into(),
        sequence,
        occurred_at: 0,
        request_id: None,
        event,
    }
}

#[test]
fn reducer_streams_and_finishes() {
    let mut state = ChatState::default();
    assert!(state.reduce(ChatAction::Submit("hello".into())));
    let delta = CompletionDelta {
        request_id: Id::num(1),
        session_id: "s".into(),
        text: "hi".into(),
        usage: None,
    };
    assert!(state.reduce(ChatAction::Completion(CompletionEvent::Delta(delta))));
    let result = CompletionStreamResult {
        session_id: "s".into(),
        message_id: 1,
        text: "hi!".into(),
        usage: UsageSummary {
            input_tokens: 1,
            output_tokens: 2,
            total_tokens: 3,
        },
    };
    state.reduce(ChatAction::Completion(CompletionEvent::Complete(result)));
    assert_eq!(*state.status(), ChatStatus::Ready);
    assert_eq!(state.usage(), Some(3));
}

#[test]
fn safety_cards_are_actionable_and_raw_tool_details_survive() {
    let mut state = ChatState::default();
    state.cards.push(Card::Tool {
        name: "shell".into(),
        input: "{\"cmd\":\"pwd\"}".into(),
        output: "ok".into(),
        expanded: false,
    });
    assert!(state.reduce(ChatAction::ToggleTool(0)));
    assert!(
        matches!(&state.cards()[0], Card::Tool { expanded: true, input, .. } if input.contains("pwd"))
    );
    state.cards.push(Card::Permission {
        session_id: "session".into(),
        turn_id: "turn".into(),
        request_id: "r1".into(),
        tool: "write".into(),
        description: "modify file".into(),
    });
    assert!(state.reduce(ChatAction::Permission(1, PermissionChoice::AllowOnce)));
    assert!(
        !state
            .cards()
            .iter()
            .any(|card| matches!(card, Card::Permission { .. }))
    );
}

#[test]
fn typed_prompt_events_keep_correlation_ids_and_diff_rejection_is_terminal() {
    let mut state = ChatState::default();
    assert!(state.reduce(ChatAction::SessionEvent(sequenced(
        1,
        TurnEvent::PermissionRequested {
            turn_id: "turn".into(),
            request_id: "permission".into(),
            tool: "write".into(),
            description: "change file".into(),
        },
    ))));
    assert!(matches!(
        &state.cards()[0],
        Card::Permission { request_id, .. } if request_id == "permission"
    ));

    assert!(state.reduce(ChatAction::SessionEvent(sequenced(
        2,
        TurnEvent::QuestionAsked {
            turn_id: "turn".into(),
            question_id: "question".into(),
            question: "Continue?".into(),
        },
    ))));
    assert!(matches!(
        &state.cards()[1],
        Card::Question { question_id, .. } if question_id == "question"
    ));

    state.cards.push(Card::Diff {
        session_id: "session".into(),
        turn_id: "turn".into(),
        path: "file.rs".into(),
        patch: "@@".into(),
        approved: false,
    });
    assert!(state.reduce(ChatAction::ApproveDiff(2, false)));
    assert!(
        !state
            .cards()
            .iter()
            .any(|card| matches!(card, Card::Diff { .. }))
    );
}

#[test]
fn typed_response_actions_update_each_pending_card() {
    let mut state = ChatState::default();
    state.cards = vec![
        Card::Permission {
            session_id: "session".into(),
            turn_id: "turn".into(),
            request_id: "permission-1".into(),
            tool: "write".into(),
            description: "edit file".into(),
        },
        Card::Question {
            session_id: "session".into(),
            turn_id: "turn".into(),
            question_id: "question-1".into(),
            question: "Continue?".into(),
            answer: None,
        },
        Card::Diff {
            session_id: "session".into(),
            turn_id: "turn".into(),
            path: "src/lib.rs".into(),
            patch: "@@ -1 +1 @@".into(),
            approved: false,
        },
    ];
    assert!(state.reduce(ChatAction::Permission(0, PermissionChoice::AllowAlways)));
    assert!(state.reduce(ChatAction::AnswerQuestion(0, "yes".into())));
    assert!(state.reduce(ChatAction::ApproveDiff(1, true)));
    assert!(matches!(state.cards()[0], Card::Question { answer: Some(ref a), .. } if a == "yes"));
    assert!(matches!(state.cards()[1], Card::Diff { approved: true, .. }));
}

#[test]
fn typed_event_actions_are_reachable_without_view_specific_reducers() {
    let mut state = ChatState::default();
    assert!(state.reduce(ChatAction::SessionEvent(sequenced(
        1,
        TurnEvent::DiffRequested {
            turn_id: "turn".into(),
            request_id: "diff-1".into(),
            path: "README.md".into(),
            diff: "+ docs".into(),
        },
    ))));
    assert!(matches!(&state.cards()[0], Card::Diff { path, .. } if path == "README.md"));
}

#[test]
fn submit_starts_one_turn_and_rejects_empty_or_overlapping_submissions() {
    let mut state = ChatState::default();

    assert!(!state.reduce(ChatAction::Submit("   \n".into())));
    assert!(state.reduce(ChatAction::Submit("first prompt".into())));
    assert_eq!(*state.status(), ChatStatus::Streaming);
    assert_eq!(state.active_assistant(), Some(1));
    assert!(matches!(
        &state.cards()[0],
        Card::Message {
            role: Role::User,
            text
        } if text == "first prompt"
    ));
    assert!(!state.reduce(ChatAction::Submit("second prompt".into())));
    assert_eq!(state.cards().len(), 2);
}

#[test]
fn completed_turn_returns_to_ready_for_the_next_submit() {
    let mut state = ChatState::default();
    assert!(state.reduce(ChatAction::Submit("first".into())));
    assert!(state.reduce(ChatAction::Error("failed".into())));
    assert_eq!(*state.status(), ChatStatus::Failed("failed".into()));
    assert_eq!(state.active_assistant(), None);

    assert!(state.reduce(ChatAction::Submit("second".into())));
    assert_eq!(*state.status(), ChatStatus::Streaming);
    assert_eq!(state.cards().len(), 4);
}

#[test]
fn session_events_stream_text_and_replays_are_refused() {
    let mut state = ChatState::default();
    assert!(state.reduce(ChatAction::Submit("hello".into())));
    let delta = sequenced(
        1,
        TurnEvent::TextDelta {
            turn_id: "t".into(),
            text: "hi".into(),
        },
    );
    assert!(state.reduce(ChatAction::SessionEvent(delta.clone())));
    assert!(!state.reduce(ChatAction::SessionEvent(delta)));
    assert!(matches!(&state.cards()[1], Card::Message { text, .. } if text == "hi"));
    let other_turn = sequenced(
        2,
        TurnEvent::TextDelta {
            turn_id: "u".into(),
            text: "x".into(),
        },
    );
    assert!(!state.reduce(ChatAction::SessionEvent(other_turn)));
    assert_eq!(state.last_sequence(), 1);
    let mut wrong_session = sequenced(
        3,
        TurnEvent::TextDelta {
            turn_id: "t".into(),
            text: "x".into(),
        },
    );
    wrong_session.session_id = "other".into();
    assert!(!state.reduce(ChatAction::SessionEvent(wrong_session)));
    assert!(state.reduce(ChatAction::SessionEvent(sequenced(
        4,
        TurnEvent::TurnFailed {
            turn_id: "t".into(),
            message: "boom".into(),
        },
    ))));
    assert_eq!(*state.status(), ChatStatus::Failed("boom".into()));
    assert_eq!(state.active_assistant(), None);
    assert_eq!(state.last_sequence(), 4);
}

#[test]
fn tool_marker_deltas_become_tool_cards_and_errors_replace_the_reply() {
    let mut state = ChatState::default();
    assert!(state.reduce(ChatAction::Submit("go".into())));
    let delta = CompletionDelta {
        request_id: Id::num(1),
        session_id: "s".into(),
        text: "\n[tool read] ".into(),
        usage: None,
    };
    assert!(state.reduce(ChatAction::Completion(CompletionEvent::Delta(delta))));
    assert!(matches!(&state.cards()[1], Card::Tool { name, .. } if name == "[tool read]"));
    assert_eq!(state.active_assistant(), Some(2));
    assert!(state.reduce(ChatAction::Error("lost".into())));
    assert!(matches!(&state.cards()[2], Card::Message { text, .. } if text == "Error: lost"));
    assert!(!state.reduce(ChatAction::Error("again".into())));
    assert!(!state.reduce(ChatAction::ToggleTool(9)));
    assert!(!state.reduce(ChatAction::AnswerQuestion(0, "x".into())));
    let wrong = CompletionDelta {
        request_id: Id::num(2),
        session_id: "other".into(),
        text: "x".into(),
        usage: None,
    };
    assert!(!state.reduce(ChatAction::Completion(CompletionEvent::Delta(wrong))));
}

#[test]
fn inspecting_a_permission_keeps_its_card() {
    let mut state = ChatState::default();
    state.cards.push(Card::Permission {
        session_id: "s".into(),
        turn_id: "t".into(),
        request_id: "r".into(),
        tool: "write".into(),
        description: "d".into(),
    });
    assert!(state.reduce(ChatAction::Permission(0, PermissionChoice::Inspect)));
    assert_eq!(state.cards().len(), 1);
    assert!(state.reduce(ChatAction::Permission(0, PermissionChoice::Reject)));
    assert!(state.cards().is_empty());
    assert!(!state.reduce(ChatAction::Permission(0, PermissionChoice::Cancel)));
}

#[test]
fn permission_decision_model_contains_all_five_choices() {
    let choices = [
        PermissionChoice::AllowOnce,
        PermissionChoice::AllowAlways,
        PermissionChoice::Reject,
        PermissionChoice::Inspect,
        PermissionChoice::Cancel,
    ];
    assert_eq!(choices.len(), 5);
    assert!(choices.contains(&PermissionChoice::AllowOnce));
    assert!(choices.contains(&PermissionChoice::AllowAlways));
    assert!(choices.contains(&PermissionChoice::Reject));
    assert!(choices.contains(&PermissionChoice::Inspect));
    assert!(choices.contains(&PermissionChoice::Cancel));
}

fn acceptance_event(request_id: Id, sequence: u64, value: TurnEvent) -> SequencedEvent {
    SequencedEvent {
        event_id: format!("event-{sequence}"),
        session_id: "session-1".into(),
        sequence,
        occurred_at: 0,
        request_id: Some(request_id),
        event: value,
    }
}

#[test]
fn typed_view_actions_apply_prompt_and_diff_replies_to_streamed_cards() {
    let mut chat = ChatState::default();
    assert!(chat.reduce(ChatAction::Submit("hello".into())));
    for (sequence, value) in [
        (1, TurnEvent::TurnStarted { turn_id: "turn-1".into() }),
        (
            2,
            TurnEvent::PermissionRequested {
                turn_id: "turn-1".into(),
                request_id: "permission-1".into(),
                tool: "shell".into(),
                description: "run".into(),
            },
        ),
        (
            3,
            TurnEvent::QuestionAsked {
                turn_id: "turn-1".into(),
                question_id: "question-1".into(),
                question: "continue?".into(),
            },
        ),
        (
            4,
            TurnEvent::DiffRequested {
                turn_id: "turn-1".into(),
                request_id: "diff-1".into(),
                path: "src/lib.rs".into(),
                diff: "@@".into(),
            },
        ),
    ] {
        assert!(chat.reduce(ChatAction::SessionEvent(acceptance_event(Id::num(99), sequence, value))));
    }
    assert!(chat.reduce(ChatAction::Permission(2, PermissionChoice::AllowOnce)));
    assert!(chat.reduce(ChatAction::AnswerQuestion(2, "yes".into())));
    assert!(chat.reduce(ChatAction::ApproveDiff(3, true)));
    assert!(chat.cards().iter().any(|card| matches!(
        card,
        Card::Question { answer: Some(answer), .. } if answer == "yes"
    )));
    assert!(chat.cards().iter().any(|card| matches!(card, Card::Diff { approved: true, .. })));
}
