use tau_gui::preferences::{GuiPreferences, MAX_RECENT_MODELS};

#[test]
fn favorites_toggle_and_recents_are_unique_and_bounded() {
    let mut preferences = GuiPreferences::default();
    preferences.toggle_favorite("model".into());
    preferences.toggle_favorite("model".into());
    assert!(preferences.favorites.is_empty());
    for index in 0..=MAX_RECENT_MODELS {
        preferences.record_recent_model(format!("model-{index}"));
    }
    preferences.record_recent_model("model-3".into());
    assert_eq!(preferences.recent_models.len(), MAX_RECENT_MODELS);
    assert_eq!(preferences.recent_models[0], "model-3");
    assert_eq!(
        preferences
            .recent_models
            .iter()
            .filter(|v| *v == "model-3")
            .count(),
        1
    );
}

#[test]
fn round_trip() {
    let x = GuiPreferences {
        favorites: vec!["a".into()],
        recent_models: vec!["b".into()],
        selected_model: Some("b".into()),
        selected_agent: Some("code".into()),
        sidebar: true,
        autonomy: false,
        daemon_warning: true,
        daemon_owned: true,
    };
    assert_eq!(GuiPreferences::parse(&x.render()).unwrap(), x);
}

#[test]
fn round_trip_escapes_kdl_strings() {
    let x = GuiPreferences {
        favorites: vec!["a\"\\\nb".into()],
        recent_models: vec![],
        selected_model: None,
        selected_agent: None,
        sidebar: true,
        autonomy: true,
        daemon_warning: false,
        daemon_owned: false,
    };
    assert_eq!(GuiPreferences::parse(&x.render()).unwrap(), x);
}

#[test]
fn missing_values_use_defaults_and_unknown_nodes_are_ignored() {
    let preferences =
        GuiPreferences::parse("future_preference #true\nsidebar #false\nunknown \"value\"\n")
            .unwrap();
    assert!(!preferences.sidebar);
    assert_eq!(preferences.autonomy, GuiPreferences::default().autonomy);
    assert_eq!(
        preferences.daemon_warning,
        GuiPreferences::default().daemon_warning
    );
    assert_eq!(
        preferences.daemon_owned,
        GuiPreferences::default().daemon_owned
    );
}

#[test]
fn warning_and_ownership_persist_independently() {
    let mut preferences = GuiPreferences::default();
    preferences.daemon_warning = false;
    let loaded = GuiPreferences::parse(&preferences.render()).unwrap();
    assert!(!loaded.daemon_warning);
    assert!(loaded.daemon_owned);

    preferences.daemon_warning = true;
    preferences.daemon_owned = false;
    let loaded = GuiPreferences::parse(&preferences.render()).unwrap();
    assert!(loaded.daemon_warning);
    assert!(!loaded.daemon_owned);
}

#[test]
fn selecting_model_and_agent_updates_persisted_picker_state() {
    let mut preferences = GuiPreferences::default();
    preferences.select_model("provider/model".into());
    preferences.select_agent("builder".into());
    let loaded = GuiPreferences::parse(&preferences.render()).unwrap();
    assert_eq!(loaded.selected_model.as_deref(), Some("provider/model"));
    assert_eq!(loaded.selected_agent.as_deref(), Some("builder"));
    assert_eq!(loaded.recent_models, vec!["provider/model"]);
}

#[test]
fn loading_normalizes_duplicate_favorites_and_recents_without_filtering_catalog() {
    let mut text = String::new();
    text.push_str("favorite \"server/model\"\nfavorite \"server/model\"\n");
    for index in 0..(MAX_RECENT_MODELS + 2) {
        text.push_str(&format!(
            "recent \"model-{index}\"\nrecent \"model-{index}\"\n"
        ));
    }
    text.push_str("selected_model \"server/model\"\nselected_agent \"remote-agent\"\n");

    let loaded = GuiPreferences::parse(&text).unwrap();
    assert_eq!(loaded.favorites, vec!["server/model"]);
    assert_eq!(loaded.recent_models.len(), MAX_RECENT_MODELS);
    assert_eq!(loaded.recent_models[0], "model-0");
    assert_eq!(loaded.selected_model.as_deref(), Some("server/model"));
    assert_eq!(loaded.selected_agent.as_deref(), Some("remote-agent"));
}

#[test]
fn save_normalizes_legacy_duplicates_and_preserves_selection() {
    let mut preferences = GuiPreferences::default();
    preferences.favorites = vec!["a".into(), "a".into(), "b".into()];
    preferences.recent_models = vec!["x".into(), "x".into()];
    preferences.selected_model = Some("catalog-only-model".into());
    let loaded = GuiPreferences::parse(&preferences.render()).unwrap();
    assert_eq!(loaded.favorites, vec!["a", "b"]);
    assert_eq!(loaded.recent_models, vec!["x"]);
    assert_eq!(loaded.selected_model.as_deref(), Some("catalog-only-model"));
}

#[test]
fn malformed_known_nodes_report_errors_but_unknown_nodes_are_ignored() {
    assert!(GuiPreferences::parse("future_preference 1\nunknown #true\n").is_ok());
    assert!(GuiPreferences::parse("selected_model #true\n").is_err());
}

#[test]
fn rendered_document_lists_values_then_flags() {
    let mut preferences = GuiPreferences::default();
    preferences.favorites = vec!["f".into()];
    preferences.sidebar = false;
    assert_eq!(
        preferences.render(),
        format!(
            "favorite f\nsidebar #false\nautonomy #{}\ndaemon_warning #{}\ndaemon_owned #{}\n",
            preferences.autonomy, preferences.daemon_warning, preferences.daemon_owned
        )
    );
    assert!(GuiPreferences::parse("sidebar").is_err());
    assert!(GuiPreferences::parse("\"unterminated").is_err());
}
