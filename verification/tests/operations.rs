use tau_gui::operations::{
    change_label, content_revision, describe, file_details, panel_lines, OperationsAction,
    OperationsModel, OperationsPanel, OperationsReply, OperationsRequest, OperationsTab,
};
use tau_gui::proto::git::{GitFileResult, GitFileStatus};
use tau_gui::proto::git::{GitBranch, GitBranchesResult, GitStatusResult};

#[test]
fn keep_reappears_after_revision_changes() {
    let mut model = OperationsModel::new();
    model.toggle_keep("a.txt".into(), "one".into());
    assert!(model.is_kept("a.txt", "one"));
    model.invalidate_revision("a.txt", "two");
    assert!(!model.is_kept("a.txt", "one"));
}

#[test]
fn operations_model_tracks_staged_untracked_and_keep_revisions() {
    let mut model = OperationsModel::new();
    model.branch = "feature-branch".into();
    model.acknowledgement = Some(true);

    assert_eq!(model.branch, "feature-branch");
    assert_eq!(model.acknowledgement, Some(true));
}

#[test]
fn keep_toggles_off_and_survives_its_own_revision() {
    let mut model = OperationsModel::new();
    model.toggle_keep("a.txt".into(), "one".into());
    model.invalidate_revision("a.txt", "one");
    assert!(model.is_kept("a.txt", "one"));
    model.toggle_keep("a.txt".into(), "one".into());
    assert!(!model.is_kept("a.txt", "one"));
    let revision = content_revision("text");
    assert_eq!(revision.len(), 16);
    assert!(revision.chars().all(|c| c.is_ascii_hexdigit()));
    assert_eq!(revision, content_revision("text"));
}

#[test]
fn branch_listing_sets_current_branch_and_branches() {
    let mut model = OperationsModel::new();
    model.apply_branch_listing(GitBranchesResult {
        current: "main".into(),
        branches: Vec::new(),
    });
    assert_eq!(model.branch, "main");
    assert!(model.branches.is_empty());
}

#[test]
fn listener_projection_covers_root_status_file_diff_and_keep_revision() {
    let mut model = OperationsModel::new();
    model.apply_status(
        "/workspace/project".into(),
        vec![GitFileStatus {
            path: "src/lib.rs".into(),
            staged: false,
            modified: true,
            untracked: false,
        }],
    );
    model.select_file(GitFileResult {
        path: "src/lib.rs".into(),
        content: "new".into(),
        diff: "@@ -1 +1 @@\n-old\n+new".into(),
    });
    model.toggle_keep("src/lib.rs".into(), "revision-1".into());
    assert!(model.is_kept("src/lib.rs", "revision-1"));
    model.invalidate_revision("src/lib.rs", "revision-2");
    assert!(!model.is_kept("src/lib.rs", "revision-1"));

    let projection = describe(&model);
    assert_eq!(projection.branch, "/workspace/project");
    assert_eq!(projection.selected_path.as_deref(), Some("src/lib.rs"));
    assert_eq!(projection.changes, vec![("src/lib.rs".into(), false, true, false)]);
}

#[test]
fn action_surface_requires_explicit_revert_and_projects_ack() {
    assert!(matches!(
        OperationsAction::RevertConfirmed("tracked.txt".into()),
        OperationsAction::RevertConfirmed(_)
    ));
    let mut model = OperationsModel::new();
    model.acknowledge(true);
    model.acknowledge(true);
    assert_eq!(describe(&model).acknowledgement, Some(true));
}

fn file_status(path: &str, staged: bool, untracked: bool) -> GitFileStatus {
    GitFileStatus { path: path.into(), staged, modified: !staged && !untracked, untracked }
}

#[test]
fn panel_lines_name_status_branch_acknowledgement_and_tab() {
    let mut model = OperationsModel::new();
    let lines = panel_lines(&model, false, &None, OperationsTab::Status);
    assert_eq!(lines.0, "Status · Ready");
    assert_eq!(lines.1, "Branch: (unknown)");
    assert_eq!(lines.2, "Ack · —");
    assert_eq!(lines.3, "Tab · Status");
    model.apply_status("main".into(), Vec::new());
    model.acknowledge(false);
    let lines = panel_lines(&model, true, &Some("boom".into()), OperationsTab::Changes);
    assert_eq!(lines.0, "Status · Loading…");
    assert_eq!(lines.1, "Branch: main");
    assert_eq!(lines.2, "Ack · not acknowledged");
    assert_eq!(lines.3, "Tab · Changes");
    let lines = panel_lines(&model, false, &Some("boom".into()), OperationsTab::Git);
    assert_eq!(lines.0, "Status · boom");
    assert_eq!(lines.3, "Tab · Git");
}

#[test]
fn change_labels_and_file_details() {
    assert_eq!(change_label(&file_status("a", true, false)), "staged");
    assert_eq!(change_label(&file_status("a", false, true)), "untracked");
    assert_eq!(change_label(&file_status("a", false, false)), "modified");
    let file = GitFileResult { path: "a.rs".into(), content: "x".into(), diff: "+x".into() };
    assert_eq!(file_details(&file), "a.rs\n\nCONTENT\nx\nDIFF\n+x");
}

#[test]
fn keep_label_and_keeping_the_open_file_follow_its_revision() {
    let mut model = OperationsModel::new();
    let file = GitFileResult { path: "a.rs".into(), content: "x".into(), diff: String::new() };
    let revision = content_revision(&file.content);
    model.select_file(file);
    assert_eq!(model.keep_label("a.rs", &revision), "Keep");
    model.toggle_keep_selected();
    assert_eq!(model.keep_label("a.rs", &revision), "Unkeep");
    model.toggle_keep_selected();
    assert_eq!(model.keep_label("a.rs", &revision), "Keep");
}

#[test]
fn panel_requests_need_a_project_and_show_loading() {
    let mut panel = OperationsPanel::new();
    assert_eq!(panel.begin(OperationsRequest::Status), None);
    assert_eq!(panel.error.as_deref(), Some("select a project before using repository actions"));
    assert!(!panel.loading);

    assert!(panel.select_project(Some("p1".into()), Some("/repo".into())));
    assert_eq!(panel.error, None);
    assert!(!panel.select_project(Some("p1".into()), Some("/repo".into())));
    assert!(panel.select_project(Some("  ".into()), None));
    assert_eq!(panel.project_id, None);

    assert!(panel.select_project(Some("p1".into()), Some("/repo".into())));
    let pending = panel.begin(OperationsRequest::Status).expect("project is selected");
    assert!(panel.loading);
    assert_eq!(pending.project_id, "p1");
    let quiet = panel.begin(OperationsRequest::Branches).expect("project is selected");
    assert!(panel.loading);
    let next = panel.finish(
        &pending,
        OperationsReply::Status(GitStatusResult {
            branch: "main".into(),
            files: vec![file_status("a.rs", false, false)],
        }),
    );
    assert!(next.is_empty());
    assert!(!panel.loading);
    assert_eq!(panel.model.branch, "main");
    panel.finish(
        &quiet,
        OperationsReply::Branches(GitBranchesResult {
            current: "dev".into(),
            branches: vec![GitBranch { name: "dev".into(), current: true }],
        }),
    );
    assert_eq!(panel.model.branch, "dev");
    assert_eq!(panel.model.branches.len(), 1);
}

#[test]
fn panel_mutations_acknowledge_and_reload_and_failures_are_shown() {
    let mut panel = OperationsPanel::new();
    panel.select_project(Some("p1".into()), None);
    let stage = panel.begin(OperationsRequest::Stage("a.rs".into())).unwrap();
    let next = panel.finish(&stage, OperationsReply::Done);
    assert_eq!(next, vec![OperationsRequest::Status, OperationsRequest::Branches]);
    assert_eq!(panel.model.acknowledgement, Some(true));
    assert!(!panel.loading);

    let revert = panel.begin(OperationsRequest::Revert("a.rs".into())).unwrap();
    assert!(panel.finish(&revert, OperationsReply::Failed("denied".into())).is_empty());
    assert_eq!(panel.error.as_deref(), Some("denied"));

    let create = panel.begin(OperationsRequest::CreateBranch("tau/gui-branch".into())).unwrap();
    assert_eq!(panel.error, None);
    let next = panel.finish(&create, OperationsReply::Interrupted("closed".into()));
    assert_eq!(next, vec![OperationsRequest::Branches]);
    assert_eq!(panel.error, None);

    let ack = panel.begin(OperationsRequest::Acknowledge).unwrap();
    panel.finish(&ack, OperationsReply::Acknowledged(false));
    assert_eq!(panel.model.acknowledgement, Some(false));
}

#[test]
fn replies_for_a_previous_project_are_ignored() {
    let mut panel = OperationsPanel::new();
    panel.select_project(Some("p1".into()), None);
    let pending = panel.begin(OperationsRequest::Status).unwrap();
    assert!(panel.select_project(Some("p2".into()), None));
    assert!(!panel.is_current(&pending));
    let next = panel.finish(
        &pending,
        OperationsReply::Status(GitStatusResult { branch: "old".into(), files: Vec::new() }),
    );
    assert!(next.is_empty());
    assert_eq!(panel.model.branch, "");
    assert!(!panel.loading);
}

#[test]
fn reopening_a_file_keeps_its_mark_until_the_content_changes() {
    assert_ne!(content_revision("one"), content_revision("two"));
    assert_ne!(content_revision("one"), "one");
    let file = |content: &str| GitFileResult {
        path: "a.txt".into(),
        content: content.into(),
        diff: String::new(),
    };
    let mut model = OperationsModel::new();
    model.apply_file(file("one"));
    model.toggle_keep_selected();
    assert!(model.is_kept("a.txt", &content_revision("one")));
    model.apply_file(file("one"));
    assert!(model.is_kept("a.txt", &content_revision("one")));
    model.apply_file(file("two"));
    assert!(!model.is_kept("a.txt", &content_revision("one")));
    assert!(!model.is_kept("a.txt", &content_revision("two")));
}
