use tau_gui::composer::{Composer, ComposerAction};
use tau_gui::feed::{ActionReachability, FeedAction};
use tau_gui::operations::{describe, OperationsAction, OperationsModel};
use tau_gui::sessions::{Navigator, ProjectId, SessionIntent, SessionSummary};
use tau_gui::picker::{command_action, parse_command, PickerAction};
use tau_gui::projects::{Project, ProjectAction};
use tau_gui::proto::projects::Project as DaemonProject;
use tau_gui::shell::{
    sync_plan, cwd_unregistered, preferred_after, selection_after_reload, view_selection, layout_parts, lifecycle_message, ListControl, RowControl,
    project_items, InactiveProjectChoice, LifecycleStatus, ProjectItem, ProjectServiceAction,
    ProjectServiceAdapter, ProjectShell, ProjectState, ShellAction, ShellLayout,
};

#[test]
fn states_are_described() {
    let shell = ProjectShell::new(ProjectState::Empty);
    assert_eq!(shell.describe_in(ShellLayout::Full).state, "empty");
    let ready = ProjectShell::new(ProjectState::Ready(vec![ProjectItem {
        id: "a".into(),
        name: "A".into(),
        path: "/a".into(),
    }]));
    let description = ready.describe_in(ShellLayout::Rail);
    assert_eq!(description.state, "ready");
    assert_eq!(description.project_count, 1);
    assert_eq!(description.layout, ShellLayout::Rail);
    assert_eq!(description.selected, None);
}

#[test]
fn loading_and_error_states_expose_a_reload_action() {
    let mut shell = ProjectShell::new(ProjectState::Loading);
    shell.retry_projects();
    assert_eq!(shell.last_action, Some(ShellAction::RetryProjects));
    assert_eq!(shell.lifecycle, LifecycleStatus::Loading);
}

#[test]
fn project_action_is_reachable_from_shell_boundary() {
    let mut shell = ProjectShell::new(ProjectState::Ready(Vec::new()));
    shell.apply_project_action(ProjectAction::Select("demo".into()));
    assert_eq!(shell.selected.as_deref(), Some("demo"));
    assert_eq!(
        shell.last_action,
        Some(ShellAction::SelectProject("demo".into()))
    );
}

#[test]
fn service_controls_reach_typed_actions() {
    let mut shell = ProjectShell::new(ProjectState::Ready(Vec::new()));
    shell.create_project("demo".into(), "/tmp/demo".into());
    assert_eq!(
        shell.last_service_action,
        Some(ProjectServiceAction::Create {
            name: "demo".into(),
            root: "/tmp/demo".into()
        })
    );
    shell.update_project("demo".into(), "renamed".into(), "/tmp/new".into());
    assert!(matches!(
        shell.last_service_action,
        Some(ProjectServiceAction::Update { .. })
    ));
    shell.unregister_project("demo".into());
    assert_eq!(
        shell.last_service_action,
        Some(ProjectServiceAction::Unregister("demo".into()))
    );
    shell.register_inactive(
        "old".into(),
        "old".into(),
        "/tmp/old".into(),
        InactiveProjectChoice::Reactivate,
    );
    assert_eq!(
        shell.last_service_action,
        Some(ProjectServiceAction::Reactivate("old".into()))
    );
    shell.register_inactive(
        "old".into(),
        "new".into(),
        "/tmp/new".into(),
        InactiveProjectChoice::CreateNew,
    );
    assert!(matches!(
        shell.last_service_action,
        Some(ProjectServiceAction::CreateNewId(_))
    ));
}

#[test]
fn create_prompt_prefills_and_has_submit_cancel_seams() {
    let mut shell = ProjectShell::new(ProjectState::Empty);
    shell.open_create_prompt("/work/demo".into());
    assert_eq!(shell.create_prompt.as_ref().unwrap().name, "demo");
    shell.set_create_fields("Demo".into(), "/work/demo".into());
    assert!(matches!(
        shell.submit_create_prompt(),
        Some(ProjectServiceAction::Create { .. })
    ));
    assert!(matches!(shell.lifecycle, LifecycleStatus::Loading));
    shell.open_create_prompt("/work/other".into());
    shell.cancel_create_prompt();
    assert!(shell.create_prompt.is_none());
}

#[test]
fn inactive_choice_is_explicit_and_ack_hooks_are_projected() {
    let mut shell = ProjectShell::new(ProjectState::Empty);
    shell.choose_inactive("old".into(), "Old".into(), "/old".into());
    assert_eq!(
        shell.submit_inactive_choice(InactiveProjectChoice::Reactivate),
        Some(ProjectServiceAction::Reactivate("old".into()))
    );
    shell.set_lifecycle(LifecycleStatus::Acknowledged("Saved".into()));
    assert!(matches!(shell.lifecycle, LifecycleStatus::Acknowledged(_)));
}

#[test]
fn daemon_projection_keeps_inactive_records_actionable() {
    let project = Project {
        id: "p_old".into(),
        name: "Old".into(),
        root: "/old".into(),
        inactive: true,
    };
    let item = ProjectItem::from_project(&project);
    assert_eq!(item.id, "p_old");
    assert_eq!(item.name, "Old (inactive)");
    assert_eq!(item.path, "/old");
}

#[test]
fn daemon_project_records_project_to_shell_items() {
    let records = vec![
        DaemonProject {
            id: "active".into(),
            name: "Active".into(),
            root: "/tmp/active".into(),
            active: true,
            created_at: 0,
            updated_at: 0,
        },
        DaemonProject {
            id: "inactive".into(),
            name: "Old".into(),
            root: "/tmp/old".into(),
            active: false,
            created_at: 0,
            updated_at: 0,
        },
    ];
    let items = project_items(&records);
    assert_eq!(items.len(), 2);
    assert_eq!(items[1].name, "Old (inactive)");
    assert_eq!(items[0].name, "Active");
}

#[test]
fn root_routes_typed_actions_without_window_or_display() {
    let mut shell = ProjectShell::new(ProjectState::Empty);
    let action = ProjectServiceAction::Create {
        name: "New project".into(),
        root: "/tmp/new-project".into(),
    };
    shell.dispatch_project_action(action.clone());
    assert_eq!(shell.last_service_action, Some(action));
    shell.apply_project_action(ProjectAction::Select("project-1".into()));
    assert_eq!(shell.selected.as_deref(), Some("project-1"));

    let mut composer = Composer::with_ids("session-1".into(), "project-1".into());
    composer.apply(ComposerAction::ChooseModel("model-fast".into()));
    composer.apply(ComposerAction::ChooseAgent("critic".into()));
    composer.apply(ComposerAction::InsertText("ship it".into()));
    assert_eq!(composer.model.as_deref(), Some("model-fast"));
    assert_eq!(composer.agent.as_deref(), Some("critic"));
    assert_eq!(
        composer.apply(ComposerAction::Send).as_deref(),
        Some("ship it")
    );

    assert_eq!(
        command_action(parse_command("/model").unwrap()),
        Some(PickerAction::OpenModels)
    );
    assert_eq!(
        command_action(parse_command("/agent critic").unwrap()),
        Some(PickerAction::SelectAgent("critic".into()))
    );
}

struct Recorder(Vec<ProjectServiceAction>);

impl ProjectServiceAdapter for Recorder {
    fn dispatch(&mut self, action: ProjectServiceAction) {
        self.0.push(action);
    }
}

#[test]
fn adapter_receives_what_the_shell_records() {
    let mut shell = ProjectShell::new(ProjectState::Empty);
    let mut recorder = Recorder(Vec::new());
    shell.dispatch_to(&mut recorder, ProjectServiceAction::Select("p".into()));
    assert_eq!(recorder.0, vec![ProjectServiceAction::Select("p".into())]);
    assert_eq!(shell.selected.as_deref(), Some("p"));
    assert_eq!(shell.last_action, Some(ShellAction::SelectProject("p".into())));
    let mut blank = ProjectShell::new(ProjectState::Empty);
    blank.open_create_prompt("/".into());
    assert_eq!(blank.create_prompt.as_ref().unwrap().name, "project");
    blank.set_create_fields("  ".into(), "/x".into());
    assert_eq!(blank.submit_create_prompt(), None);
    assert!(blank.create_prompt.is_some());
    assert_eq!(blank.submit_inactive_choice(InactiveProjectChoice::CreateNew), None);
}

#[test]
fn root_shell_description_composes_project_rail_and_sessions() {
    let project = ProjectItem {
        id: "project-1".into(),
        name: "Acceptance".into(),
        path: "/workspace/acceptance".into(),
    };
    let mut shell = ProjectShell::new(ProjectState::Ready(vec![project]));
    shell.select("project-1".into());
    let description = shell.describe_in(ShellLayout::Rail);
    assert_eq!(description.layout, ShellLayout::Rail);
    assert_eq!(description.state, "ready");
    assert_eq!(description.project_count, 1);
    assert_eq!(description.selected.as_deref(), Some("project-1"));
    assert_eq!(shell.last_action, Some(ShellAction::SelectProject("project-1".into())));

    let mut sessions = Navigator::new(vec![SessionSummary {
        id: "session-1".into(),
        project_id: ProjectId::new("project-1".into()),
        title: Some("Launch plan".into()),
        updated_at: 1,
        archived: false,
    }]);
    sessions.set_project(Some(ProjectId::new("project-1".into())));
    let visible = sessions.visible();
    assert_eq!(visible.len(), 1);
    let record = visible[0].clone();
    drop(visible);
    assert_eq!(
        sessions.select_intent(&record),
        SessionIntent::Select {
            project_id: ProjectId::new("project-1".into()),
            session_id: "session-1".into(),
        }
    );
}

#[test]
fn root_exposes_feed_and_operations_action_surfaces() {
    let reachability = ActionReachability {
        tool_toggle: true,
        permission: true,
        question: true,
        diff: true,
        ..Default::default()
    };
    assert_eq!(
        reachability.actions(),
        vec![
            FeedAction::ToggleTool,
            FeedAction::RespondPermission,
            FeedAction::AnswerQuestion,
            FeedAction::ReviewDiff,
        ]
    );

    let mut operations = OperationsModel::new();
    operations.acknowledge(true);
    let projection = describe(&operations);
    assert_eq!(projection.acknowledgement, Some(true));
    assert!(matches!(
        OperationsAction::RevertConfirmed("src/lib.rs".into()),
        OperationsAction::RevertConfirmed(_)
    ));
}

#[test]
fn rendered_create_prompt_controls_submit_to_listener_and_cancel() {
    let mut shell = ProjectShell::new(ProjectState::Empty);
    let mut listener = Recorder(Vec::new());

    shell.open_create_prompt("/workspace/new-project".into());
    shell.set_create_fields("New project".into(), "/workspace/new-project".into());
    let action = shell.submit_create_prompt().expect("Create button action");
    listener.dispatch(action.clone());
    assert_eq!(
        listener.0,
        vec![ProjectServiceAction::Create {
            name: "New project".into(),
            root: "/workspace/new-project".into(),
        }]
    );
    assert!(shell.create_prompt.is_none());

    shell.open_create_prompt("/workspace/cancelled".into());
    shell.cancel_create_prompt();
    assert!(shell.create_prompt.is_none());
    assert_eq!(listener.0.len(), 1, "Cancel must not notify the service");
}

#[test]
fn rendered_inactive_controls_dispatch_reactivate_and_new_id() {
    let mut shell = ProjectShell::new(ProjectState::Ready(vec![ProjectItem {
        id: "old-id".into(),
        name: "Old project (inactive)".into(),
        path: "/workspace/old".into(),
    }]));
    let mut listener = Recorder(Vec::new());

    shell.choose_inactive("old-id".into(), "Old project".into(), "/workspace/old".into());
    let action = shell
        .submit_inactive_choice(InactiveProjectChoice::Reactivate)
        .expect("Reactivate button action");
    shell.dispatch_to(&mut listener, action);

    shell.choose_inactive("old-id".into(), "Old project".into(), "/workspace/old".into());
    let action = shell
        .submit_inactive_choice(InactiveProjectChoice::CreateNew)
        .expect("New ID button action");
    shell.dispatch_to(&mut listener, action);

    assert_eq!(
        listener.0,
        vec![
            ProjectServiceAction::Reactivate("old-id".into()),
            ProjectServiceAction::CreateNewId("old-id".into()),
        ]
    );
}

#[test]
fn rendered_project_row_selection_notifies_listener() {
    let mut shell = ProjectShell::new(ProjectState::Ready(vec![ProjectItem {
        id: "project-1".into(),
        name: "Acceptance".into(),
        path: "/workspace/acceptance".into(),
    }]));
    let mut listener = Recorder(Vec::new());
    shell.dispatch_to(&mut listener, ProjectServiceAction::Select("project-1".into()));
    assert_eq!(shell.selected.as_deref(), Some("project-1"));
    assert_eq!(listener.0, vec![ProjectServiceAction::Select("project-1".into())]);
}

fn two_project_shell() -> ProjectShell {
    ProjectShell::new(ProjectState::Ready(vec![
        ProjectItem { id: "a".into(), name: "Alpha".into(), path: "/a".into() },
        ProjectItem { id: "old".into(), name: "Old (inactive)".into(), path: "/old".into() },
    ]))
}

#[test]
fn rows_mark_selection_inactivity_and_the_open_menu() {
    let mut shell = two_project_shell();
    shell.select("a".into());
    let rows = shell.project_rows();
    assert_eq!(rows.len(), 2);
    assert!(rows[0].selected && !rows[0].inactive && !rows[0].menu_open);
    assert!(rows[0].menu.is_empty());
    assert!(!rows[1].selected && rows[1].inactive);

    shell.toggle_project_menu("old".into());
    let rows = shell.project_rows();
    assert!(rows[1].menu_open);
    assert_eq!(rows[1].menu, vec![RowControl::Reactivate, RowControl::NewId]);
    shell.toggle_project_menu("a".into());
    let rows = shell.project_rows();
    assert!(!rows[1].menu_open && rows[0].menu_open);
    assert_eq!(rows[0].menu, vec![RowControl::Update, RowControl::Unregister]);
    shell.toggle_project_menu("a".into());
    assert_eq!(shell.menu_open_for, None);
    assert!(ProjectShell::new(ProjectState::Loading).project_rows().is_empty());
}

#[test]
fn row_controls_send_their_service_actions_and_close_the_menu() {
    let mut shell = two_project_shell();
    let old = ProjectItem { id: "old".into(), name: "Old (inactive)".into(), path: "/old".into() };
    shell.toggle_project_menu("old".into());
    shell.click_row_control(&old, RowControl::Reactivate);
    assert_eq!(shell.last_service_action, Some(ProjectServiceAction::Reactivate("old".into())));
    assert_eq!(shell.menu_open_for, None);
    assert_eq!(shell.lifecycle, LifecycleStatus::Loading);
    shell.click_row_control(&old, RowControl::NewId);
    assert_eq!(shell.last_service_action, Some(ProjectServiceAction::CreateNewId("old".into())));

    let alpha = ProjectItem { id: "a".into(), name: "Alpha".into(), path: "/a".into() };
    shell.click_row_control(&alpha, RowControl::Update);
    assert_eq!(
        shell.last_service_action,
        Some(ProjectServiceAction::Update { id: "a".into(), name: "Alpha".into(), root: "/a".into() })
    );
    shell.click_row_control(&alpha, RowControl::Unregister);
    assert_eq!(shell.last_service_action, Some(ProjectServiceAction::Unregister("a".into())));
}

#[test]
fn empty_loading_and_failed_lists_show_a_notice_with_its_control() {
    let mut shell = ProjectShell::new(ProjectState::Loading);
    assert_eq!(shell.list_notice(), Some(("Loading projects…".to_string(), ListControl::Refresh)));
    shell.click_list_control(ListControl::Refresh);
    assert_eq!(shell.last_action, Some(ShellAction::RetryProjects));

    let mut empty = ProjectShell::new(ProjectState::Empty);
    assert_eq!(empty.list_notice(), Some(("No projects yet".to_string(), ListControl::CreateProject)));
    empty.click_list_control(ListControl::CreateProject);
    assert_eq!(empty.last_action, Some(ShellAction::NewProject));
    assert_eq!(empty.create_prompt.as_ref().map(|p| p.name.as_str()), Some("project"));
    assert_eq!(
        empty.create_prompt_lines(),
        Some(("Name: project".to_string(), "Path: project".to_string()))
    );

    let failed = ProjectShell::new(ProjectState::Error("offline".into()));
    assert_eq!(
        failed.list_notice(),
        Some(("Could not load projects: offline".to_string(), ListControl::Retry))
    );
    assert_eq!(two_project_shell().list_notice(), None);
}

#[test]
fn lifecycle_line_and_layout_parts() {
    assert_eq!(lifecycle_message(&LifecycleStatus::Idle), None);
    assert_eq!(lifecycle_message(&LifecycleStatus::Loading).as_deref(), Some("Working…"));
    assert_eq!(lifecycle_message(&LifecycleStatus::Error("x".into())).as_deref(), Some("Error: x"));
    assert_eq!(lifecycle_message(&LifecycleStatus::Acknowledged("done".into())).as_deref(), Some("done"));
    assert_eq!(layout_parts(ShellLayout::Full), (true, true));
    assert_eq!(layout_parts(ShellLayout::Rail), (true, false));
    assert_eq!(layout_parts(ShellLayout::ContentOnly), (false, false));
}

fn record(id: &str, root: &str, active: bool) -> DaemonProject {
    DaemonProject {
        id: id.into(),
        name: id.to_uppercase(),
        root: root.into(),
        active,
        created_at: 0,
        updated_at: 0,
    }
}

#[test]
fn reload_selects_the_preferred_then_remembered_then_working_directory_project() {
    let records = vec![
        record("a", "/work", true),
        record("b", "/other", true),
        record("old", "/old", false),
    ];
    assert_eq!(
        selection_after_reload(&records, Some("b".into()), Some("a".into()), "/work"),
        Some("b".to_string())
    );
    assert_eq!(selection_after_reload(&records, None, Some("b".into()), "/work"), Some("b".to_string()));
    assert_eq!(
        selection_after_reload(&records, Some("old".into()), None, "/work"),
        Some("a".to_string())
    );
    assert_eq!(selection_after_reload(&records, Some("zzz".into()), None, "/nowhere"), None);
    assert!(!cwd_unregistered(&records, "/work"));
    assert!(cwd_unregistered(&records, "/old"));
}

#[test]
fn only_active_projects_reach_the_view_and_actions_name_what_to_keep_selected() {
    let records = vec![record("a", "/work", true), record("old", "/old", false)];
    assert_eq!(
        view_selection(&records, &Some("a".into())),
        Some(("a".to_string(), "/work".to_string()))
    );
    assert_eq!(view_selection(&records, &Some("old".into())), None);
    assert_eq!(view_selection(&records, &None), None);
    assert_eq!(preferred_after(&ProjectServiceAction::Reactivate("x".into())).as_deref(), Some("x"));
    assert_eq!(
        preferred_after(&ProjectServiceAction::Update {
            id: "u".into(),
            name: "n".into(),
            root: "/r".into()
        })
        .as_deref(),
        Some("u")
    );
    assert_eq!(preferred_after(&ProjectServiceAction::Unregister("x".into())), None);
    assert_eq!(
        preferred_after(&ProjectServiceAction::Create { name: "n".into(), root: "/r".into() }),
        None
    );
}

#[test]
fn reload_results_reach_the_shell() {
    let mut shell = ProjectShell::new(ProjectState::Empty);
    shell.begin_reload();
    assert_eq!(shell.projects, ProjectState::Loading);
    assert_eq!(shell.lifecycle, LifecycleStatus::Loading);
    let records = vec![record("a", "/other", true), record("old", "/old", false)];
    shell.finish_reload(&records, Some("a".into()), "/work/new".into());
    match &shell.projects {
        ProjectState::Ready(items) => {
            assert_eq!(items.len(), 2);
            assert_eq!(items[1].name, "OLD (inactive)");
        }
        other => panic!("unexpected {other:?}"),
    }
    assert_eq!(shell.selected.as_deref(), Some("a"));
    assert_eq!(shell.lifecycle, LifecycleStatus::Acknowledged("Projects loaded".into()));
    let prompt = shell.create_prompt.clone().expect("unregistered working directory");
    assert_eq!(prompt.root, "/work/new");
    assert_eq!(prompt.name, "new");

    let mut empty = ProjectShell::new(ProjectState::Loading);
    empty.finish_reload(&[], None, "/work".into());
    assert_eq!(empty.projects, ProjectState::Empty);

    let mut failed = ProjectShell::new(ProjectState::Loading);
    failed.fail_reload("offline".into());
    assert_eq!(failed.projects, ProjectState::Error("offline".into()));
    assert_eq!(failed.lifecycle, LifecycleStatus::Error("offline".into()));
    failed.dispatch_project_action(ProjectServiceAction::Unregister("a".into()));
    failed.fail_service_action("denied".into());
    assert_eq!(failed.last_service_action, None);
    assert_eq!(failed.lifecycle, LifecycleStatus::Error("denied".into()));
}

#[test]
fn the_root_follows_new_shell_actions_reloads_and_selections() {
    let mut shell = ProjectShell::new(ProjectState::Empty);
    let plan = sync_plan(&shell, &None, &None, false);
    assert_eq!(plan.new_service_action, None);
    assert!(!plan.reload && !plan.retry_in_flight);
    assert_eq!(plan.new_selection, None);

    shell.select("p".into());
    let plan = sync_plan(&shell, &None, &None, false);
    assert_eq!(plan.new_service_action, Some(Some(ProjectServiceAction::Select("p".into()))));
    assert_eq!(plan.new_selection, Some(Some("p".into())));
    let seen = Some(ProjectServiceAction::Select("p".into()));
    let plan = sync_plan(&shell, &seen, &Some("p".into()), false);
    assert_eq!(plan.new_service_action, None);
    assert_eq!(plan.new_selection, None);

    shell.retry_projects();
    let plan = sync_plan(&shell, &seen, &Some("p".into()), false);
    assert!(plan.reload);
    let plan = sync_plan(&shell, &seen, &Some("p".into()), true);
    assert!(!plan.reload && plan.retry_in_flight);
    shell.fail_reload("x".into());
    let plan = sync_plan(&shell, &seen, &Some("p".into()), true);
    assert!(!plan.reload && !plan.retry_in_flight);
}
