use tau_gui::chat::{Card, EventKind, Role, TypedEvent};
use tau_gui::feed::{project, DEFAULT_COLLAPSE_AT};
use tau_gui::proto::turn::TurnEvent;
use tau_gui::chat::ChatStatus;
use tau_gui::proto::turn::ToolStatusValue;
use tau_gui::backend::DaemonStatus;
use tau_gui::picker::PickerAction;
use tau_gui::proto::auth::AuthState;
use tau_gui::picker::AgentOption;
use tau_gui::preferences::GuiPreferences;
use tau_gui::chat::PermissionChoice;
use tau_gui::proto::turn::TurnPermissionChoice;
use tau_gui::view::{
    command_completion, turn_permission_choice, agents_for, models_for, new_chat_target, runtime_after_event, send_blocked, send_decision, RuntimeState,
    SendDecision,
    card_description, describe_transcript, event_description, feed_policy_request_id,
    next_follow_state, next_sidebar_visibility, status_text, describe_chat, describe_sidebar,
    SidebarFacts,
};
use tau_gui::chat::{ChatAction, ChatState};
use tau_gui::composer::ComposerAction;

#[test]
fn action_helpers_toggle_sidebar_and_follow_state() {
    assert!(!next_sidebar_visibility(true));
    assert!(next_sidebar_visibility(false));
    assert!(!next_follow_state(true));
    assert!(next_follow_state(false));
}

#[test]
fn cards_are_captioned() {
    let caption = |card: Card| card_description(&card);
    assert_eq!(
        caption(Card::Message { role: Role::Assistant, text: "hi".into() }),
        ("tau".to_string(), "hi".to_string())
    );
    assert_eq!(
        caption(Card::Tool {
            name: "read".into(),
            input: "file.txt".into(),
            output: "contents".into(),
            expanded: false
        }),
        ("tool".to_string(), "read (click to inspect)".to_string())
    );
    assert_eq!(
        caption(Card::Tool {
            name: "read".into(),
            input: "file.txt".into(),
            output: "contents".into(),
            expanded: true
        }),
        ("tool".to_string(), "read\ninput: file.txt\noutput: contents".to_string())
    );
    assert_eq!(
        caption(Card::Diff {
            session_id: "s".into(),
            turn_id: "t".into(),
            path: "a.rs".into(),
            patch: "+x".into(),
            approved: false
        }),
        ("diff".to_string(), "a.rs (pending)\n+x".to_string())
    );
    assert_eq!(
        caption(Card::Question {
            session_id: "s".into(),
            turn_id: "t".into(),
            question_id: "q".into(),
            question: "Continue?".into(),
            answer: None
        }),
        ("question".to_string(), "Continue?\nawaiting answer".to_string())
    );
    assert_eq!(
        caption(Card::Permission {
            session_id: "s".into(),
            turn_id: "t".into(),
            request_id: "r".into(),
            tool: "shell".into(),
            description: "run".into()
        }),
        ("permission".to_string(), "shell: run".to_string())
    );
}

#[test]
fn policy_items_name_their_request() {
    let event = TypedEvent {
        event_id: "e".into(),
        session_id: "s".into(),
        sequence: 1,
        occurred_at: 0,
        request_id: None,
        turn_id: "t".into(),
        kind: EventKind::QuestionAsked {
            question_id: "q-1".into(),
            question: "why?".into(),
        },
        raw: TurnEvent::TurnStarted { turn_id: "t".into() },
    };
    let item = project(&event, 100);
    assert_eq!(feed_policy_request_id(&item), Some("q-1"));
    let plain = project(
        &TypedEvent {
            kind: EventKind::Started,
            ..event
        },
        100,
    );
    assert_eq!(feed_policy_request_id(&plain), None);
}

fn caption(label: &str, text: &str) -> Option<(String, String)> {
    Some((label.to_string(), text.to_string()))
}

#[test]
fn typed_events_are_captioned_for_the_transcript() {
    assert_eq!(event_description(&EventKind::Started), caption("lifecycle", "Turn started"));
    assert_eq!(event_description(&EventKind::TextDelta { text: "x".into() }), None);
    assert_eq!(
        event_description(&EventKind::ToolOutput {
            inline: "out".into(),
            truncated: true,
            artifacts: Vec::new()
        }),
        caption("tool output", "out (truncated)")
    );
    assert_eq!(
        event_description(&EventKind::ArtifactCreated {
            artifact_id: "a1".into(),
            media_type: "text/plain".into(),
            size_bytes: 1024,
            content_hash: "h".into(),
            storage_ref: "store/a1".into(),
        }),
        caption("artifact", "a1 (text/plain, 1024 bytes)\nstore/a1")
    );
    assert_eq!(
        event_description(&EventKind::Completed { message_id: Some(-7) }),
        caption("lifecycle", "Turn completed (message -7)")
    );
    assert_eq!(
        event_description(&EventKind::Completed { message_id: None }),
        caption("lifecycle", "Turn completed")
    );
    assert_eq!(
        event_description(&EventKind::ToolStarted {
            call_id: "c1".into(),
            tool: "read".into(),
            input: Some("{}".into())
        }),
        caption("tool started", "read [c1]\ninput: {}")
    );
    assert_eq!(
        event_description(&EventKind::ToolStatus {
            call_id: "c1".into(),
            status: ToolStatusValue::Running,
            metadata: None
        }),
        caption("tool status", "c1: Running")
    );
    assert_eq!(
        event_description(&EventKind::CompactionCompleted { summary: None }),
        caption("compaction", "Compaction completed")
    );
    assert_eq!(
        event_description(&EventKind::StatusChanged {
            status: "busy".into(),
            message: Some("indexing".into())
        }),
        caption("status", "busy: indexing")
    );
    assert_eq!(
        event_description(&EventKind::Telemetry { usage: Some("12".into()), context: None }),
        caption("telemetry", "usage=12 context=unavailable")
    );
    assert_eq!(event_description(&EventKind::Other), caption("event", "Unknown typed event"));
}

#[test]
fn status_line_names_ready_thinking_and_errors() {
    assert_eq!(status_text(&ChatStatus::Ready), "Ready");
    assert_eq!(status_text(&ChatStatus::Streaming), "Thinking...");
    assert_eq!(status_text(&ChatStatus::Failed("boom".into())), "Error: boom");
}

#[test]
fn transcript_lists_cards_then_captioned_events() {
    let started = TypedEvent {
        event_id: "e1".into(),
        session_id: "s".into(),
        sequence: 1,
        occurred_at: 0,
        request_id: None,
        turn_id: "t".into(),
        kind: EventKind::Started,
        raw: TurnEvent::TurnStarted { turn_id: "t".into() },
    };
    let delta = TypedEvent {
        kind: EventKind::TextDelta { text: "hi".into() },
        ..started.clone()
    };
    let cards = vec![Card::Message { role: Role::User, text: "hello".into() }];
    let transcript = describe_transcript(&cards, &[started, delta]);
    assert_eq!(
        transcript,
        vec![
            ("You".to_string(), "hello".to_string()),
            ("lifecycle".to_string(), "Turn started".to_string()),
        ]
    );
}

#[test]
fn feed_controls_use_policy_ids_not_envelope_request_ids() {
    let raw = TurnEvent::PermissionRequested {
        turn_id: "turn".into(),
        request_id: "policy-42".into(),
        tool: "shell".into(),
        description: "run".into(),
    };
    let event = TypedEvent {
        event_id: "event".into(),
        session_id: "session".into(),
        sequence: 1,
        occurred_at: 0,
        request_id: Some("envelope-99".into()),
        turn_id: "turn".into(),
        kind: EventKind::PermissionRequested {
            permission_id: "policy-42".into(),
            tool: "shell".into(),
            description: "run".into(),
        },
        raw,
    };
    let item = project(&event, DEFAULT_COLLAPSE_AT);
    assert_eq!(feed_policy_request_id(&item), Some("policy-42"));
    assert_ne!(feed_policy_request_id(&item), item.request_id.as_deref());
}

#[test]
fn description_keeps_lifecycle_and_error_events() {
    let event = TypedEvent {
        event_id: "e".into(),
        session_id: "s".into(),
        sequence: 1,
        occurred_at: 0,
        request_id: None,
        turn_id: "t".into(),
        kind: EventKind::Failed { message: "boom".into() },
        raw: TurnEvent::TurnFailed { turn_id: "t".into(), message: "boom".into() },
    };
    let state = ChatState::default();
    let view = describe_chat(&state, &[event], &SidebarFacts::default(), false, "Plan", "model", "/tmp");
    assert!(view.transcript.iter().any(|(label, text)| label == "error" && text == "boom"));
}

#[test]
fn description_exposes_empty_and_operational_states() {
    let state = ChatState::default();
    let view = describe_chat(&state, &[], &SidebarFacts::default(), false, "Code", "model", "/tmp");
    assert!(!view.loading);
    assert!(view.transcript.is_empty());
    assert!(view.sidebar.iter().any(|(key, value)| key == "LSP" && value == "Unavailable"));
}

#[test]
fn description_renders_typed_operational_fields_without_fabrication() {
    let state = ChatState::default();
    let mut sidebar = SidebarFacts::default();
    sidebar.plan = Some("release".into());
    sidebar.current_step = Some("render".into());
    sidebar.airtight = Some(false);
    sidebar.input_tokens = Some(10);
    sidebar.output_tokens = Some(4);
    sidebar.context_tokens = Some(20);
    sidebar.context_percent = Some(25);
    sidebar.lsp = Some("2 diagnostics".into());
    let view = describe_chat(&state, &[], &sidebar, false, "Code", "model", "");
    assert!(view.sidebar.iter().any(|(key, value)| key == "PLAN" && value.contains("not airtight")));
    assert!(view.sidebar.iter().any(|(key, value)| key == "TOKENS" && value.contains("25%")));
    assert!(view.sidebar.iter().any(|(key, value)| key == "LSP" && value == "2 diagnostics"));
    assert!(view.sidebar.iter().any(|(key, value)| key == "DIRECTORY" && value == "Unavailable"));
}

#[test]
fn sidebar_rows_spell_out_every_fact() {
    let state = ChatState::default();
    let mut sidebar = SidebarFacts::default();
    sidebar.plan = Some("release".into());
    sidebar.current_step = Some("render".into());
    sidebar.airtight = Some(true);
    sidebar.input_tokens = Some(10);
    sidebar.output_tokens = Some(4);
    sidebar.context_tokens = Some(20);
    sidebar.cached_tokens = Some(7);
    sidebar.context_percent = Some(25);
    sidebar.task_tier = Some(2);
    sidebar.autonomous = Some(false);
    sidebar.roots = vec!["/a".into(), "/b".into()];
    let view = describe_chat(&state, &[], &sidebar, true, "Code", "model", "/tmp");
    assert!(view.loading);
    assert_eq!(view.status, "Ready");
    let rows: Vec<(&str, &str)> = view.sidebar.iter().map(|(k, v)| (k.as_str(), v.as_str())).collect();
    assert_eq!(
        rows,
        vec![
            ("AGENT", "Code"),
            ("MODEL", "model"),
            ("PLAN", "release · render (airtight)"),
            ("LSP", "Unavailable"),
            ("TOKENS", "in 10 · out 4 · cached 7 · ctx 20 (25%)"),
            ("MCP", "Unavailable"),
            ("TASK", "Tier 2"),
            ("AUTONOMY", "Disabled"),
            ("SESSION", "Unavailable"),
            ("DIRECTORY", "/tmp"),
            ("ROOTS", "/a\n/b"),
        ]
    );
}

#[test]
fn sidebar_tokens_fall_back_to_totals() {
    let mut sidebar = SidebarFacts::default();
    let rows = describe_sidebar(&sidebar, Some(3), Some("s-1"), "a", "m", "");
    assert_eq!(rows[4], ("TOKENS".to_string(), "3 total".to_string()));
    assert_eq!(rows[8], ("SESSION".to_string(), "s-1".to_string()));
    sidebar.total_tokens = Some(9);
    sidebar.plan = Some("p".into());
    let rows = describe_sidebar(&sidebar, Some(3), None, "a", "m", "");
    assert_eq!(rows[4].1, "9 total");
    assert_eq!(rows[2].1, "p");
    assert_eq!(rows[8].1, "Unavailable");
}

#[test]
fn composer_status_and_send_cancel_surfaces_are_public() {
    let mut chat = ChatState::default();
    assert!(matches!(chat.status(), ChatStatus::Ready));
    assert!(chat.reduce(ChatAction::Submit("hello".into())));
    let description = describe_chat(&chat, &[], &SidebarFacts::default(), false, "default", "model", "/tmp");
    assert_eq!(description.status, "Thinking...");
    assert!(description.loading);
    let actions = [ComposerAction::Send, ComposerAction::Cancel];
    assert!(matches!(actions[0], ComposerAction::Send));
    assert!(matches!(actions[1], ComposerAction::Cancel));
}

#[test]
fn gui_surface_has_no_embedded_terminal_or_command_runner_labels() {
    let mut sidebar = SidebarFacts::default();
    sidebar.plan = Some("p".into());
    let chat = ChatState::default();
    let events: Vec<TypedEvent> = [
        EventKind::Started,
        EventKind::Cancelled,
        EventKind::Failed { message: "m".into() },
        EventKind::Other,
    ]
    .into_iter()
    .map(|kind| TypedEvent {
        event_id: "e".into(),
        session_id: "s".into(),
        sequence: 1,
        occurred_at: 0,
        request_id: None,
        turn_id: "t".into(),
        kind,
        raw: TurnEvent::TurnStarted { turn_id: "t".into() },
    })
    .collect();
    let view = describe_chat(&chat, &events, &sidebar, false, "Code", "model", "/tmp");
    let mut labels = vec![view.status.clone()];
    for (key, value) in view.transcript.iter().chain(view.sidebar.iter()) {
        labels.push(key.clone());
        labels.push(value.clone());
    }
    let view_surface = labels.join("\n").to_ascii_lowercase();
    for forbidden in ["Terminal", "PTY", "CommandRunner", "terminal tab"] {
        assert!(!view_surface.contains(forbidden), "unexpected label/API: {forbidden}");
    }
}

fn signed_in() -> AuthState {
    AuthState::SignedIn { email: None, account_id: None }
}

#[test]
fn send_is_ignored_while_streaming_or_for_blank_text() {
    let ready = DaemonStatus::Ready;
    assert_eq!(send_decision(true, "hi", true, ready, "m", &signed_in()), SendDecision::Ignore);
    assert_eq!(send_decision(false, "  \n", true, ready, "m", &signed_in()), SendDecision::Ignore);
}

#[test]
fn send_needs_a_project_a_working_daemon_and_an_account_for_codex() {
    assert_eq!(
        send_decision(false, "hi", false, DaemonStatus::Ready, "m", &signed_in()),
        SendDecision::Refuse { message: "select a project before sending".into(), open_account: false }
    );
    match send_decision(false, "hi", true, DaemonStatus::Incompatible, "m", &signed_in()) {
        SendDecision::Refuse { message, open_account } => {
            assert!(message.starts_with("Tau cannot send until the daemon connection is repaired."));
            assert!(!open_account);
        }
        other => panic!("unexpected {other:?}"),
    }
    assert_eq!(
        send_decision(false, "hi", true, DaemonStatus::Ready, "openai-codex/gpt", &AuthState::SignedOut),
        SendDecision::Refuse {
            message: "Connect a ChatGPT Plus or Pro account before using the Codex model.".into(),
            open_account: true
        }
    );
    assert_eq!(
        send_decision(false, "hi", true, DaemonStatus::Ready, "openai-codex/gpt", &signed_in()),
        SendDecision::Submit
    );
    assert_eq!(
        send_decision(false, "hi", true, DaemonStatus::Ready, "openai/gpt", &AuthState::SignedOut),
        SendDecision::Submit
    );
}

#[test]
fn command_lines_drive_the_pickers_instead_of_sending() {
    let ready = DaemonStatus::Ready;
    assert_eq!(
        send_decision(false, "/model", true, ready, "m", &signed_in()),
        SendDecision::Command(PickerAction::OpenModels)
    );
    assert_eq!(
        send_decision(false, "/agent build", true, ready, "m", &signed_in()),
        SendDecision::Command(PickerAction::SelectAgent("build".into()))
    );
    assert_eq!(
        send_decision(false, "/model fast", true, ready, "m", &signed_in()),
        SendDecision::Command(PickerAction::SelectModel("fast".into()))
    );
    assert_eq!(
        send_decision(false, "/agents", true, ready, "m", &signed_in()),
        SendDecision::Command(PickerAction::OpenAgents)
    );
}

#[test]
fn send_control_is_blocked_like_the_send_rules() {
    assert!(send_blocked(true, DaemonStatus::Ready, "m", &signed_in()));
    assert!(send_blocked(false, DaemonStatus::Failed, "m", &signed_in()));
    assert!(send_blocked(false, DaemonStatus::Ready, "openai-codex/x", &AuthState::SignedOut));
    assert!(!send_blocked(false, DaemonStatus::Degraded, "m", &AuthState::SignedOut));
}

#[test]
fn streamed_events_set_the_connection_state_and_new_chats_need_a_project() {
    assert_eq!(runtime_after_event(&ChatStatus::Ready), RuntimeState::Ready);
    assert_eq!(runtime_after_event(&ChatStatus::Failed("x".into())), RuntimeState::Failed("x".into()));
    assert_eq!(
        new_chat_target(&None, &Some("/r".into())),
        Err("select a project before creating a chat".to_string())
    );
    assert_eq!(
        new_chat_target(&Some("p".into()), &None),
        Err("select a project root before creating a chat".to_string())
    );
    assert_eq!(
        new_chat_target(&Some("p".into()), &Some("/r".into())),
        Ok(("p".to_string(), "/r".to_string()))
    );
}

#[test]
fn model_catalog_keeps_backend_codex_and_remembered_models_once() {
    let mut preferences = GuiPreferences::default();
    let (models, index) = models_for("base/model", &preferences);
    assert_eq!(
        models,
        vec![
            "base/model".to_string(),
            "openai-codex/gpt-5.6-sol".to_string(),
            "openai-codex/gpt-5.6".to_string()
        ]
    );
    assert_eq!(index, 0);

    preferences.favorites = vec!["fav/one".into(), "base/model".into()];
    preferences.recent_models = vec!["openai-codex/gpt-5.4".into(), "fav/one".into()];
    preferences.selected_model = Some("openai/gpt-5.4-mini-gpt-5.4".into());
    let (models, index) = models_for("base/model", &preferences);
    assert_eq!(
        models,
        vec![
            "base/model".to_string(),
            "openai-codex/gpt-5.6-sol".to_string(),
            "openai-codex/gpt-5.6".to_string(),
            "fav/one".to_string(),
            "openai/gpt-5.6-sol-mini-gpt-5.6-sol".to_string(),
        ]
    );
    assert_eq!(index, 4);

    preferences.selected_model = Some("openai-codex/gpt-5.4".into());
    let (_, index) = models_for("base/model", &preferences);
    assert_eq!(index, 1);
}

#[test]
fn remembered_agent_joins_the_configured_ones_in_the_tab_cycle() {
    let configured = vec![AgentOption { name: "build".into(), in_tab_cycle: false }];
    let (agent, agents) = agents_for(configured.clone(), &None);
    assert_eq!(agent, "");
    assert_eq!(agents, configured);
    let (agent, agents) = agents_for(configured.clone(), &Some("build".into()));
    assert_eq!(agent, "build");
    assert_eq!(agents, configured);
    let (agent, agents) = agents_for(configured.clone(), &Some("plan".into()));
    assert_eq!(agent, "plan");
    assert_eq!(agents.len(), 2);
    assert_eq!(agents[1], AgentOption { name: "plan".into(), in_tab_cycle: true });
}

#[test]
fn accepted_suggestions_complete_commands_or_replace_the_current_word() {
    assert_eq!(command_completion("/model", "/mo"), "/model ");
    assert_eq!(command_completion("fast", "/model fa"), "/model fast");
    assert_eq!(command_completion("fast", "fa"), "fast");
    assert_eq!(command_completion("fast", "/model "), "/model fast");
    assert_eq!(command_completion("fast", ""), "fast");
}

#[test]
fn permission_choices_map_to_the_daemon_choices() {
    assert_eq!(turn_permission_choice(PermissionChoice::AllowOnce), TurnPermissionChoice::AllowOnce);
    assert_eq!(turn_permission_choice(PermissionChoice::AllowAlways), TurnPermissionChoice::AllowAlways);
    assert_eq!(turn_permission_choice(PermissionChoice::Reject), TurnPermissionChoice::Reject);
    assert_eq!(turn_permission_choice(PermissionChoice::Inspect), TurnPermissionChoice::Inspect);
    assert_eq!(turn_permission_choice(PermissionChoice::Cancel), TurnPermissionChoice::Cancel);
}
