use tau_gui::projects::{InactiveRegistration, ProjectAction, ProjectError, ProjectState};

#[test]
fn scripted_lifecycle_and_restore() {
    let mut state = ProjectState::new();
    let id = state.create("one".into(), "/one".into()).unwrap();
    state.update(&id, "renamed".into(), "/uno".into()).unwrap();
    state.unregister(&id).unwrap();
    assert!(state.restore_active(Some(&id)).is_none());
    let restored = state.register(
        "one".into(),
        "/uno".into(),
        InactiveRegistration::ReactivateExisting,
    );
    assert_eq!(restored.unwrap(), id);
    assert_eq!(state.active().unwrap().name, "renamed");
}

#[test]
fn inactive_registration_choice_can_create_a_second_id_for_same_root() {
    let mut state = ProjectState::default();
    let old = state.create("old".into(), "/shared".into()).unwrap();
    state.unregister(&old).unwrap();
    let new = state
        .register(
            "new".into(),
            "/shared".into(),
            InactiveRegistration::CreateNew,
        )
        .unwrap();
    assert_ne!(new, old);
    assert_eq!(state.get(&new).unwrap().root, "/shared");
    assert_eq!(state.active_project_id.as_deref(), Some(new.as_str()));
}

#[test]
fn active_selection_exposes_identity_and_canonical_root() {
    let mut state = ProjectState::default();
    let id = state
        .create("workspace".into(), "/canonical/root".into())
        .unwrap();
    let (identity, root) = state.active_selection().unwrap();
    assert_eq!(identity, &id);
    assert_eq!(root, "/canonical/root");
}

#[test]
fn ids_come_from_the_root_hash_and_stay_unique() {
    let mut state = ProjectState::new();
    let first = state.create("a".into(), "/same".into()).unwrap();
    assert!(first.starts_with("project-"));
    assert_eq!(first.len(), "project-".len() + 16);
    assert_eq!(
        state.create("b".into(), "/same".into()),
        Err(ProjectError::AlreadyRegistered("/same".into()))
    );
    state.unregister(&first).unwrap();
    let second = state.create("b".into(), "/same".into()).unwrap();
    assert_eq!(second, format!("{first}-1"));
    state.unregister(&second).unwrap();
    let third = state.create("c".into(), "/same".into()).unwrap();
    assert_eq!(third, format!("{first}-2"));
}

#[test]
fn fnv_hash_of_the_root_names_the_project() {
    let mut state = ProjectState::new();
    let id = state.create("empty".into(), "".into()).unwrap();
    assert_eq!(id, "project-cbf29ce484222325");
    let id = state.create("a".into(), "a".into()).unwrap();
    assert_eq!(id, "project-af63dc4c8601ec8c");
}

#[test]
fn unknown_ids_are_refused_and_apply_reports_ids() {
    let mut state = ProjectState::new();
    assert_eq!(state.select("nope"), Err(ProjectError::NotFound("nope".into())));
    assert_eq!(
        state.apply(ProjectAction::Unregister("nope".into())),
        Err(ProjectError::NotFound("nope".into()))
    );
    let id = state
        .apply(ProjectAction::Create {
            name: "n".into(),
            root: "/r".into(),
        })
        .unwrap()
        .unwrap();
    assert_eq!(state.apply(ProjectAction::Select(id.clone())), Ok(Some(id.clone())));
    assert_eq!(state.apply(ProjectAction::Unregister(id.clone())), Ok(None));
    assert!(state.active().is_none());
    assert_eq!(state.select(&id), Err(ProjectError::NotFound(id.clone())));
    assert_eq!(
        state.apply(ProjectAction::Reactivate(id.clone())),
        Ok(Some(id.clone()))
    );
    assert_eq!(state.active().unwrap().id, id);
    assert_eq!(
        state.apply(ProjectAction::Update {
            id: id.clone(),
            name: "m".into(),
            root: "/s".into()
        }),
        Ok(Some(id.clone()))
    );
    assert_eq!(state.get(&id).unwrap().name, "m");
}

#[test]
fn unregistering_then_reactivating_gives_the_same_project_back_selected() {
    let mut state = ProjectState::new();
    let first = state.create("one".into(), "/one".into()).unwrap();
    let second = state.create("two".into(), "/two".into()).unwrap();
    state.unregister(&first).unwrap();
    assert_eq!(state.active().map(|p| p.id.clone()), Some(second.clone()));
    state.unregister(&second).unwrap();
    assert!(state.active().is_none());
    state.reactivate(&first).unwrap();
    let project = state.active().unwrap();
    assert_eq!(project.id, first);
    assert_eq!(project.name, "one");
    assert_eq!(project.root, "/one");
    assert!(!project.inactive);
    assert!(state.select(&second).is_err());
    assert_eq!(state.active().map(|p| p.id.clone()), Some(first));
}
