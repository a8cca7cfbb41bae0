use tau_gui::chat::{EventKind, Role, TypedEvent};
use tau_gui::feed::{
    classify, project, ActionReachability, FeedAction, FeedCategory, FeedProjection,
    DEFAULT_COLLAPSE_AT,
};
use tau_gui::proto::turn::{ToolStatusValue, TurnEvent};

fn event(sequence: u64, event: TurnEvent) -> TypedEvent {
    TypedEvent {
        event_id: format!("event-{sequence}"),
        session_id: "session".into(),
        sequence,
        occurred_at: 42,
        request_id: None,
        turn_id: "turn".into(),
        kind: match &event {
            TurnEvent::TurnStarted { .. } => EventKind::Started,
            TurnEvent::TextDelta { text, .. } => EventKind::TextDelta { text: text.clone() },
            TurnEvent::TurnFailed { message, .. } => EventKind::Failed {
                message: message.clone(),
            },
            TurnEvent::TurnCancelled { .. } => EventKind::Cancelled,
            TurnEvent::PermissionRequested {
                request_id,
                tool,
                description,
                ..
            } => EventKind::PermissionRequested {
                permission_id: request_id.clone(),
                tool: tool.clone(),
                description: description.clone(),
            },
            _ => EventKind::Other,
        },
        raw: event,
    }
}

#[test]
fn projection_keeps_wire_identity_and_payload() {
    let raw = TurnEvent::PermissionRequested {
        turn_id: "turn".into(),
        request_id: "permission".into(),
        tool: "shell".into(),
        description: "run".into(),
    };
    let item = project(&event(7, raw.clone()), 32);
    assert_eq!(item.event_id, "event-7");
    assert_eq!(item.sequence, 7);
    assert_eq!(item.raw, raw);
    assert!(item.actions.permission);
    assert_eq!(item.actions.permission_id.as_deref(), Some("permission"));
}

#[test]
fn projection_preserves_all_correlations_without_display_parsing() {
    let mut source = event(
        9,
        TurnEvent::TextDelta {
            turn_id: "wire-turn".into(),
            text: "event-id-looking text: wrong-event".into(),
        },
    );
    source.event_id = "wire-event".into();
    source.session_id = "wire-session".into();
    source.turn_id = "wire-turn".into();
    source.request_id = Some("wire-request".into());
    let item = project(&source, DEFAULT_COLLAPSE_AT);
    assert_eq!(item.event_id, "wire-event");
    assert_eq!(item.session_id, "wire-session");
    assert_eq!(item.turn_id, "wire-turn");
    assert_eq!(item.request_id.as_deref(), Some("wire-request"));
    assert_eq!(item.raw, source.raw);
}

#[test]
fn action_metadata_contains_dispatch_ids() {
    let cases = [
        (
            EventKind::ToolStarted {
                call_id: "tool-1".into(),
                tool: "shell".into(),
                input: None,
            },
            FeedAction::ToggleTool,
        ),
        (
            EventKind::QuestionAsked {
                question_id: "question-1".into(),
                question: "why?".into(),
            },
            FeedAction::AnswerQuestion,
        ),
        (
            EventKind::DiffRequested {
                request_id: "diff-1".into(),
                path: "a".into(),
                diff: "b".into(),
            },
            FeedAction::ReviewDiff,
        ),
    ];
    for (kind, action) in cases {
        let item = project(
            &TypedEvent {
                kind,
                raw: TurnEvent::TurnStarted {
                    turn_id: "turn".into(),
                },
                ..event(
                    1,
                    TurnEvent::TurnStarted {
                        turn_id: "turn".into(),
                    },
                )
            },
            100,
        );
        assert!(item.action_list().iter().any(|candidate| *candidate == action));
    }
    let item = project(
        &TypedEvent {
            kind: EventKind::PermissionRequested {
                permission_id: "permission-1".into(),
                tool: "shell".into(),
                description: "run".into(),
            },
            raw: TurnEvent::TurnStarted {
                turn_id: "turn".into(),
            },
            ..event(
                1,
                TurnEvent::TurnStarted {
                    turn_id: "turn".into(),
                },
            )
        },
        100,
    );
    assert_eq!(item.actions.permission_id.as_deref(), Some("permission-1"));
}

#[test]
fn every_feed_category_has_a_typed_event_variant() {
    let kinds = [
        EventKind::Started,
        EventKind::TextDelta { text: "x".into() },
        EventKind::ReasoningDelta { text: "x".into() },
        EventKind::ToolStarted {
            call_id: "c".into(),
            tool: "t".into(),
            input: None,
        },
        EventKind::PermissionRequested {
            permission_id: "p".into(),
            tool: "t".into(),
            description: "d".into(),
        },
        EventKind::QuestionAsked {
            question_id: "q".into(),
            question: "q".into(),
        },
        EventKind::DiffRequested {
            request_id: "d".into(),
            path: "p".into(),
            diff: "d".into(),
        },
        EventKind::PlanUpdated { plan: "p".into() },
        EventKind::SystemMessage {
            message: "s".into(),
        },
        EventKind::IntegrationEvent {
            integration: "i".into(),
            event: "e".into(),
            data: None,
        },
        EventKind::CompactionStarted,
        EventKind::Failed {
            message: "f".into(),
        },
        EventKind::Cancelled,
        EventKind::Completed { message_id: None },
        EventKind::ArtifactCreated {
            artifact_id: "a".into(),
            media_type: "m".into(),
            size_bytes: 0,
            content_hash: "h".into(),
            storage_ref: "r".into(),
        },
    ];
    let categories: Vec<_> = kinds.iter().map(|kind| classify(kind).0).collect();
    for category in [
        FeedCategory::Human,
        FeedCategory::Assistant,
        FeedCategory::Reasoning,
        FeedCategory::Tool,
        FeedCategory::Permission,
        FeedCategory::Question,
        FeedCategory::Diff,
        FeedCategory::Plan,
        FeedCategory::System,
        FeedCategory::Integration,
        FeedCategory::Compaction,
        FeedCategory::Error,
        FeedCategory::Cancel,
        FeedCategory::Lifecycle,
        FeedCategory::Other,
    ] {
        if category == FeedCategory::Human {
            continue;
        } // Human is reserved for user input, not TurnEvent.
        assert!(
            categories.contains(&category),
            "missing category: {category:?}"
        );
    }
}

#[test]
fn long_details_have_a_lossless_collapsed_preview() {
    let text = "x".repeat(20);
    let item = project(
        &event(
            1,
            TurnEvent::TextDelta {
                turn_id: "turn".into(),
                text,
            },
        ),
        8,
    );
    assert!(item.collapsed);
    assert_eq!(item.preview, "xxxxxxxx");
    assert_eq!(item.detail.len(), 20);
    assert_eq!(item.visible_detail(), "xxxxxxxx");
}

#[test]
fn stream_state_follows_terminal_lifecycle() {
    let events = vec![
        event(
            1,
            TurnEvent::TurnStarted {
                turn_id: "turn".into(),
            },
        ),
        event(
            2,
            TurnEvent::TurnFailed {
                turn_id: "turn".into(),
                message: "nope".into(),
            },
        ),
    ];
    assert!(!FeedProjection::from_events(&events).state.streaming);
}

#[test]
fn ids_are_not_reconstructed_from_display_text() {
    let event = event(
        4,
        TurnEvent::TurnStarted {
            turn_id: "turn".into(),
        },
    );
    let item = project(&event, DEFAULT_COLLAPSE_AT);
    assert_eq!(item.event_id, event.event_id);
    assert_eq!(item.turn_id, event.turn_id);
    assert_eq!(item.sequence, 4);
    assert_eq!(item.timestamp, 42);
}

#[test]
fn details_are_formatted_per_kind() {
    let detail = |kind: EventKind| classify(&kind).2;
    assert_eq!(
        detail(EventKind::ToolStarted {
            call_id: "c".into(),
            tool: "shell".into(),
            input: Some("{\"cmd\":1}".into()),
        }),
        "shell\n{\"cmd\":1}"
    );
    assert_eq!(
        detail(EventKind::ToolStatus {
            call_id: "c".into(),
            status: ToolStatusValue::Running,
            metadata: None,
        }),
        "Running"
    );
    assert_eq!(
        detail(EventKind::Completed {
            message_id: Some(-12)
        }),
        "Turn completed (message -12)"
    );
    assert_eq!(
        detail(EventKind::ArtifactCreated {
            artifact_id: "a1".into(),
            media_type: "text/plain".into(),
            size_bytes: 2048,
            content_hash: "h".into(),
            storage_ref: "ref".into(),
        }),
        "a1 · text/plain · 2048 bytes · ref"
    );
    assert_eq!(
        detail(EventKind::Telemetry {
            usage: Some("{}".into()),
            context: None,
        }),
        "usage={} context=unavailable"
    );
    assert_eq!(
        detail(EventKind::StatusChanged {
            status: "idle".into(),
            message: Some("waiting".into()),
        }),
        "idle: waiting"
    );
    assert_eq!(
        detail(EventKind::CompactionCompleted { summary: None }),
        "Compaction completed"
    );
    assert_eq!(
        detail(EventKind::IntegrationEvent {
            integration: "slack".into(),
            event: "message".into(),
            data: Some("raw".into()),
        }),
        "slack: message\nraw"
    );
    let (category, role, _, actions) = classify(&EventKind::ToolOutput {
        inline: "out".into(),
        truncated: false,
        artifacts: Vec::new(),
    });
    assert_eq!(category, FeedCategory::Tool);
    assert_eq!(role, Role::Tool);
    assert_eq!(actions, ActionReachability::default());
}

#[test]
fn items_carry_marks_and_width_by_category() {
    let item = project(&event(1, TurnEvent::TurnStarted { turn_id: "turn".into() }), 10);
    assert_eq!(item.category, FeedCategory::Lifecycle);
    assert!(item.compact_metadata);
    assert!(!item.readable_width);
    assert_eq!(item.avatar, 'ⓘ');
    assert_eq!(item.role_mark, "system");
    let text = project(
        &event(
            2,
            TurnEvent::TextDelta {
                turn_id: "turn".into(),
                text: "hi".into(),
            },
        ),
        10,
    );
    assert!(!text.compact_metadata);
    assert!(text.readable_width);
    assert_eq!(text.avatar, '✦');
    assert!(!text.collapsed);
    assert_eq!(text.visible_detail(), "hi");
    let mut projection = FeedProjection::from_events(&[event(
        3,
        TurnEvent::TextDelta {
            turn_id: "turn".into(),
            text: "x".into(),
        },
    )]);
    assert!(projection.state.streaming);
    assert!(projection.state.following);
    projection.set_following(false);
    assert!(!projection.state.following);
}

#[test]
fn reachability_lists_enabled_actions_in_order() {
    let reachability = ActionReachability {
        tool_toggle: true,
        permission: true,
        question: true,
        diff: true,
        ..Default::default()
    };
    assert_eq!(
        reachability.actions(),
        vec![
            FeedAction::ToggleTool,
            FeedAction::RespondPermission,
            FeedAction::AnswerQuestion,
            FeedAction::ReviewDiff
        ]
    );
    assert!(ActionReachability::default().actions().is_empty());
}
