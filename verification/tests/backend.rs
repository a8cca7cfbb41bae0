use tau_gui::backend::{
    apply_daemon_preference, apply_picker_choice, check_turn_project, daemon_effect,
    initial_status, negotiation_params, on_lifecycle_event, operational_snapshot,
    shows_daemon_warning, BackendSnapshot, Compatibility, DaemonAction, DaemonStatus,
    LifecycleEvent, PickerChoiceError, SessionState, StartupSnapshot, TurnRequest,
    TurnRequestError,
};
use tau_gui::preferences::GuiPreferences;
use tau_gui::backend::{
    check_session_project, cancel_params_at, replay_negotiation_params, replay_params, response_outcome, response_params,
};
use tau_gui::proto::turn::{
    Capability, ClientResponse, TurnPermissionChoice, TurnResponseResult,
};
use tau_gui::picker::PickerAction;
use tau_gui::proto::turn::RequestAction;

#[test]
fn snapshot_defaults_are_explicitly_unavailable() {
    let snapshot = BackendSnapshot::default();
    assert_eq!(snapshot.session.state, SessionState::Unavailable);
    assert_eq!(snapshot.lsp.available, None);
    assert_eq!(snapshot.usage.total_tokens, None);
    assert!(matches!(snapshot.startup, StartupSnapshot::Loading));
}

#[test]
fn snapshot_preserves_unavailable_server_facts() {
    let snapshot = BackendSnapshot {
        model: None,
        cwd: None,
        startup: StartupSnapshot::Unavailable,
        ..Default::default()
    };
    assert_eq!(snapshot.model, None);
    assert_eq!(snapshot.session.id, None);
    assert_eq!(snapshot.plan.airtight, None);
}

#[test]
fn picker_actions_build_typed_turn_values() {
    let mut request = TurnRequest::new("hello".into(), Some("session-1".into()));
    request.project_id = "project-1".into();
    request.apply(PickerAction::SelectModel("provider/model".into()));
    request.apply(PickerAction::SelectAgent("build".into()));

    let params = request
        .into_params("/tmp/project".into(), "fallback/model".into())
        .unwrap();
    assert_eq!(params.model, "provider/model");
    assert_eq!(params.agent.as_deref(), Some("build"));
    assert_eq!(params.prompt, "hello");
    assert_eq!(params.session_id.as_deref(), Some("session-1"));
    assert_eq!(params.cwd.as_deref(), Some("/tmp/project"));
    assert_eq!(params.action, Some(RequestAction::Submit));
}

#[test]
fn turn_request_uses_default_model_without_label_parsing() {
    let mut request = TurnRequest::new("hello".into(), None);
    request.project_id = "project-1".into();
    let params = request
        .into_params("/tmp".into(), "default/model".into())
        .unwrap();
    assert_eq!(params.model, "default/model");
    assert_eq!(params.agent, None);
    assert_eq!(params.project_id, "project-1");
}

#[test]
fn turn_request_rejects_missing_project_selection() {
    let error = TurnRequest::new("hello".into(), None)
        .into_params("/tmp".into(), "default/model".into())
        .unwrap_err();
    assert!(error.to_string().contains("select an active project"));
}

#[test]
fn idempotency_key_is_gui_and_the_start_time() {
    let mut request = TurnRequest::new("hello".into(), None);
    request.project_id = "p".into();
    let params = request
        .clone()
        .into_params_at("/tmp".into(), "m".into(), 1234567890123)
        .unwrap();
    assert_eq!(params.idempotency_key.0, "gui-1234567890123");
    assert_eq!(params.task_tier, None);
    assert_eq!(params.autonomous, None);
    let live = request.into_params("/tmp".into(), "m".into()).unwrap();
    assert!(live.idempotency_key.0.starts_with("gui-"));
    assert!(live.idempotency_key.0[4..].chars().all(|c| c.is_ascii_digit()));
}

#[test]
fn blank_project_is_refused_and_other_picker_actions_do_nothing() {
    let mut request = TurnRequest::new("hello".into(), None);
    request.project_id = "  ".into();
    request.apply(PickerAction::OpenModels);
    request.apply(PickerAction::ToggleFavorite("m".into()));
    let mut expected = TurnRequest::new("hello".into(), None);
    expected.project_id = "  ".into();
    assert_eq!(request, expected);
    assert_eq!(
        request.into_params_at("/tmp".into(), "m".into(), 0),
        Err(TurnRequestError::MissingProject)
    );
}

#[test]
fn fresh_backend_reports_absent_until_connection_is_negotiated() {
    assert_eq!(initial_status(false), DaemonStatus::Absent);
    assert_eq!(initial_status(true), DaemonStatus::Spawning);
}

#[test]
fn negotiation_moves_through_connecting_negotiating_and_ready() {
    let (status, kept) = on_lifecycle_event(DaemonStatus::Absent, LifecycleEvent::Connecting);
    assert_eq!((status, kept), (DaemonStatus::Connecting, true));
    let (status, kept) = on_lifecycle_event(status, LifecycleEvent::Connected);
    assert_eq!((status, kept), (DaemonStatus::Negotiating, true));
    let (status, kept) =
        on_lifecycle_event(status, LifecycleEvent::Negotiated(Compatibility::Compatible));
    assert_eq!((status, kept), (DaemonStatus::Ready, true));
    assert_eq!(
        on_lifecycle_event(DaemonStatus::Negotiating, LifecycleEvent::Negotiated(Compatibility::Degraded)),
        (DaemonStatus::Degraded, true)
    );
}

#[test]
fn incompatible_daemon_drops_the_session_and_stays_incompatible_after_failure() {
    let (status, kept) = on_lifecycle_event(
        DaemonStatus::Negotiating,
        LifecycleEvent::Negotiated(Compatibility::Incompatible),
    );
    assert_eq!((status, kept), (DaemonStatus::Incompatible, false));
    assert_eq!(
        on_lifecycle_event(status, LifecycleEvent::Failed),
        (DaemonStatus::Incompatible, false)
    );
    assert_eq!(
        on_lifecycle_event(DaemonStatus::Negotiating, LifecycleEvent::NegotiationRefused),
        (DaemonStatus::Incompatible, false)
    );
    assert_eq!(
        on_lifecycle_event(DaemonStatus::Ready, LifecycleEvent::Failed),
        (DaemonStatus::Failed, false)
    );
}

#[test]
fn negotiation_asks_for_protocol_one_with_streaming_capabilities() {
    let params = negotiation_params();
    assert_eq!((params.version.major, params.version.minor), (1, 0));
    assert_eq!(
        params.capabilities,
        vec![
            Capability::TurnStreaming,
            Capability::TurnCancellation,
            Capability::Idempotency,
            Capability::EventReplay,
        ]
    );
}

#[test]
fn turn_without_a_selected_project_is_refused_before_sending() {
    assert_eq!(check_turn_project(&None), Err(TurnRequestError::MissingProject));
    assert_eq!(
        check_turn_project(&Some("  ".to_string())),
        Err(TurnRequestError::MissingProject)
    );
    assert_eq!(check_turn_project(&Some("project-1".to_string())), Ok(()));
}

#[test]
fn daemon_decisions_release_stop_or_reset_as_named() {
    let disown = daemon_effect(DaemonAction::Disown);
    assert!(disown.release_child && !disown.stop_child && !disown.reset_session);
    assert_eq!(disown.status, None);
    assert!(daemon_effect(DaemonAction::AlwaysDisown).release_child);
    let retry = daemon_effect(DaemonAction::Retry);
    assert!(!retry.release_child && !retry.stop_child && retry.reset_session);
    assert_eq!(retry.status, Some(DaemonStatus::Connecting));
    let restart = daemon_effect(DaemonAction::Restart);
    assert!(restart.stop_child && restart.reset_session);
    assert_eq!(restart.status, Some(DaemonStatus::Absent));
    let okay = daemon_effect(DaemonAction::Okay);
    assert!(!okay.release_child && !okay.stop_child && !okay.reset_session);
}

#[test]
fn daemon_decisions_store_only_the_persistent_choices() {
    let mut preferences = GuiPreferences::default();
    apply_daemon_preference(&mut preferences, DaemonAction::Disown);
    assert!(preferences.daemon_warning && preferences.daemon_owned);
    apply_daemon_preference(&mut preferences, DaemonAction::NeverShowAgain);
    assert!(!preferences.daemon_warning && preferences.daemon_owned);
    apply_daemon_preference(&mut preferences, DaemonAction::AlwaysDisown);
    assert!(!preferences.daemon_owned);
}

#[test]
fn ownership_warning_needs_an_auto_started_daemon_and_an_enabled_preference() {
    assert!(shows_daemon_warning(true, None));
    assert!(shows_daemon_warning(true, Some(true)));
    assert!(!shows_daemon_warning(true, Some(false)));
    assert!(!shows_daemon_warning(false, Some(true)));
}

#[test]
fn picker_choices_update_model_and_preferences() {
    let mut model = "old/model".to_string();
    let mut preferences = GuiPreferences::default();
    assert_eq!(
        apply_picker_choice(&mut model, &mut preferences, PickerAction::SelectModel("new/model".into())),
        Ok(())
    );
    assert_eq!(model, "new/model");
    assert_eq!(preferences.selected_model.as_deref(), Some("new/model"));
    assert_eq!(preferences.recent_models, vec!["new/model".to_string()]);
    apply_picker_choice(&mut model, &mut preferences, PickerAction::SelectAgent("build".into())).unwrap();
    assert_eq!(preferences.selected_agent.as_deref(), Some("build"));
    apply_picker_choice(&mut model, &mut preferences, PickerAction::ToggleFavorite("a/b".into())).unwrap();
    assert_eq!(preferences.favorites, vec!["a/b".to_string()]);
    assert_eq!(
        apply_picker_choice(&mut model, &mut preferences, PickerAction::Dismiss),
        Err(PickerChoiceError::NotPersistent)
    );
    assert_eq!(model, "new/model");
}

#[test]
fn operational_snapshot_reports_only_known_facts() {
    let idle = operational_snapshot("m".into(), "/tmp".into(), None, false);
    assert_eq!(idle.session.state, SessionState::Unavailable);
    assert!(matches!(idle.startup, StartupSnapshot::Unavailable));
    assert_eq!(idle.model.as_deref(), Some("m"));
    assert_eq!(idle.cwd.as_deref(), Some("/tmp"));
    let connected = operational_snapshot("m".into(), "/tmp".into(), None, true);
    assert_eq!(connected.session.state, SessionState::Connected);
    assert!(matches!(connected.startup, StartupSnapshot::Ready));
    let active = operational_snapshot("m".into(), "/tmp".into(), Some("s-1".into()), true);
    assert_eq!(active.session.state, SessionState::Active);
    assert_eq!(active.session.id.as_deref(), Some("s-1"));
    assert_eq!(active.usage.total_tokens, None);
}

#[test]
fn backend_exposes_model_and_working_directory() {
    let snapshot = operational_snapshot(
        "acceptance/model".into(),
        "/tmp/gui-functional-acceptance".into(),
        None,
        false,
    );
    assert_eq!(snapshot.model.as_deref(), Some("acceptance/model"));
    assert_eq!(snapshot.cwd.as_deref(), Some("/tmp/gui-functional-acceptance"));
    assert!(!shows_daemon_warning(false, None), "a pre-existing daemon must not warn");
}

#[test]
fn ownership_warning_actions_are_public_and_idempotent() {
    for action in [DaemonAction::Okay, DaemonAction::Quit, DaemonAction::Disown] {
        let mut once = GuiPreferences::default();
        apply_daemon_preference(&mut once, action);
        let mut twice = GuiPreferences::default();
        apply_daemon_preference(&mut twice, action);
        apply_daemon_preference(&mut twice, action);
        assert_eq!(once, twice);
        assert_eq!(once, GuiPreferences::default());
        assert_eq!(daemon_effect(action), daemon_effect(action));
    }
}

#[test]
fn interactive_answers_go_to_the_running_turn_with_a_key_per_request() {
    let answer = ClientResponse::Permission {
        request_id: "p-1".into(),
        choice: TurnPermissionChoice::AllowOnce,
    };
    assert_eq!(
        response_params(answer.clone(), None),
        Err("no active turn for interactive response".to_string())
    );
    let params = response_params(answer.clone(), Some(("s".into(), "t".into()))).unwrap();
    assert_eq!(params.session_id, "s");
    assert_eq!(params.turn_id, "t");
    assert_eq!(params.idempotency_key.0, "gui-response-permission-p-1");
    assert_eq!(params.response, answer);
    let diff = ClientResponse::DiffHunk {
        request_id: "d-2".into(),
        path: "a.rs".into(),
        index: 0,
        approved: true,
    };
    assert_eq!(
        response_params(diff, Some(("s".into(), "t".into()))).unwrap().idempotency_key.0,
        "gui-response-diff-d-2"
    );
    let ack = |accepted| TurnResponseResult { session_id: "s".into(), turn_id: "t".into(), accepted };
    assert_eq!(response_outcome(Ok(ack(true))), Ok(()));
    assert_eq!(
        response_outcome(Ok(ack(false))),
        Err("daemon rejected interactive response".to_string())
    );
    assert_eq!(response_outcome(Err("closed".into())), Err("closed".to_string()));
}

#[test]
fn cancel_and_replay_requests_are_keyed_and_bounded() {
    let cancel = cancel_params_at("s".into(), "t".into(), 42);
    assert_eq!(cancel.idempotency_key.0, "gui-cancel-42");
    let replay = replay_params("s".into(), 7);
    assert_eq!((replay.after_sequence, replay.limit), (7, Some(500)));
    assert_eq!(replay_negotiation_params().capabilities, vec![Capability::EventReplay]);
}

#[test]
fn session_requests_need_a_selected_project() {
    assert_eq!(
        check_session_project(" "),
        Err("cannot access session: select an active project first".to_string())
    );
    assert_eq!(check_session_project("p"), Ok(()));
}
