use tau_gui::sessions::{
    archived_toggle_label, lifecycle_label, rename_title, Navigator, ProjectId, SessionIntent,
    SessionSummary,
};

fn summary(id: &str, project: &str, title: &str, updated_at: i64, archived: bool) -> SessionSummary {
    SessionSummary {
        id: id.into(),
        project_id: ProjectId::new(project.into()),
        title: Some(title.into()),
        updated_at,
        archived,
    }
}

#[test]
fn visible_rows_are_project_filtered_searchable_and_newest_first() {
    let mut navigator = Navigator::new(vec![
        summary("old", "p", "Alpha", 1, false),
        summary("new", "p", "Beta", 3, false),
        summary("other", "q", "Beta", 4, false),
    ]);
    navigator.set_project(Some(ProjectId::new("p".into())));
    assert_eq!(
        navigator
            .visible()
            .iter()
            .map(|r| r.id.as_str())
            .collect::<Vec<_>>(),
        ["new", "old"]
    );
    navigator.set_query("alp".into());
    assert_eq!(navigator.visible()[0].id, "old");
}

#[test]
fn intents_carry_opaque_project_and_session_ids() {
    let record = summary("s", "opaque", "Title", 1, false);
    let mut navigator = Navigator::new(vec![record.clone()]);
    assert_eq!(
        navigator.select_intent(&record),
        SessionIntent::Select {
            project_id: ProjectId::new("opaque".into()),
            session_id: "s".into()
        }
    );
    assert_eq!(navigator.selected(), Some("s"));
    assert_eq!(
        navigator.rename_intent(&record, "New".into()),
        SessionIntent::Rename {
            project_id: ProjectId::new("opaque".into()),
            session_id: "s".into(),
            title: "New".into()
        }
    );
    assert_eq!(
        navigator.archive_intent(&record),
        SessionIntent::Archive {
            project_id: ProjectId::new("opaque".into()),
            session_id: "s".into()
        }
    );
}

#[test]
fn persisted_selection_restores_only_existing_sessions() {
    let mut navigator = Navigator::new(vec![summary("s", "p", "Title", 1, false)]);
    navigator.restore_selection(Some("s"));
    assert_eq!(navigator.selected(), Some("s"));
    navigator.restore_selection(Some("missing"));
    assert_eq!(navigator.selected(), None);
}

#[test]
fn navigator_filters_sessions_by_selected_project() {
    let mut nav = Navigator::new(vec![
        SessionSummary {
            id: "s1".into(),
            project_id: ProjectId::new("p1".into()),
            title: Some("Session 1".into()),
            updated_at: 100,
            archived: false,
        },
        SessionSummary {
            id: "s2".into(),
            project_id: ProjectId::new("p2".into()),
            title: Some("Session 2".into()),
            updated_at: 200,
            archived: false,
        },
    ]);

    nav.set_project(Some(ProjectId::new("p1".into())));
    let visible = nav.visible();
    assert_eq!(visible.len(), 1);
    assert_eq!(visible[0].id, "s1");
}

#[test]
fn archived_sessions_show_only_on_request() {
    let mut nav = Navigator::new(vec![
        summary("live", "p", "Live", 1, false),
        summary("gone", "p", "Gone", 2, true),
    ]);
    assert_eq!(nav.visible().len(), 1);
    nav.set_show_archived(true);
    assert!(nav.show_archived());
    assert_eq!(nav.visible()[0].id, "gone");
    assert_eq!(nav.visible().len(), 2);
}

#[test]
fn session_rows_caption_titles_and_mark_the_selection() {
    let mut navigator = Navigator::new(vec![
        summary("s1", "p", "Alpha", 1, false),
        SessionSummary {
            id: "s2".into(),
            project_id: ProjectId::new("p".into()),
            title: None,
            updated_at: 2,
            archived: true,
        },
    ]);
    navigator.set_project(Some(ProjectId::new("p".into())));
    navigator.set_show_archived(true);
    navigator.restore_selection(Some("s1"));
    let rows = navigator.rows();
    assert_eq!(rows.len(), 2);
    assert_eq!(rows[0].caption, "Untitled  s2");
    assert!(rows[0].archived && !rows[0].selected);
    assert_eq!(rows[1].caption, "Alpha  s1");
    assert!(rows[1].selected);
    assert_eq!(rows[1].project_id, "p");
    let archived = navigator.visible()[0].clone();
    assert!(matches!(navigator.lifecycle_intent(&archived), SessionIntent::Restore { .. }));
    let live = navigator.visible()[1].clone();
    assert!(matches!(navigator.lifecycle_intent(&live), SessionIntent::Archive { .. }));
}

#[test]
fn session_controls_are_labelled_and_blank_renames_are_untitled() {
    assert_eq!(lifecycle_label(true), "Restore");
    assert_eq!(lifecycle_label(false), "Archive");
    assert_eq!(archived_toggle_label(true), "Hide archived");
    assert_eq!(archived_toggle_label(false), "Show archived");
    assert_eq!(rename_title("  "), "Untitled");
    assert_eq!(rename_title("Launch"), "Launch");
}
