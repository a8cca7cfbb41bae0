use tau_gui::picker::{
    command_action, command_parts, command_suggestions, fuzzy_models, model_groups,
    move_selection, next_agent, parse_command, search_agents, AgentOption, AgentPicker, Command,
    ModelOption, ModelPicker, PickerAction,
};

fn agent(name: &str, cycle: bool) -> AgentOption {
    AgentOption {
        name: name.into(),
        in_tab_cycle: cycle,
    }
}

#[test]
fn filtering_grouping_and_reachability() {
    let m = vec![
        ModelOption {
            id: "X/Fast".into(),
            provider: "Cloud".into(),
            recent: true,
            favorite: true,
        },
        ModelOption {
            id: "local/slow".into(),
            provider: "Local".into(),
            recent: false,
            favorite: false,
        },
    ];
    assert_eq!(fuzzy_models(&m, "FAST")[0].id, "X/Fast");
    assert_eq!(model_groups(&m, "").len(), 2);
    let a = vec![
        agent("Plan", true),
        agent("rare", false),
        agent("Build", true),
    ];
    assert_eq!(search_agents(&a, "LAN")[0].name, "Plan");
    assert_eq!(next_agent(&a, Some("plan"), false), Some("Build".into()));
}

#[test]
fn commands_parse_suggest_and_emit_actions() {
    assert_eq!(
        parse_command("/AGENT Plan"),
        Some(Command::Agent(Some("Plan".into())))
    );
    assert_eq!(
        command_action(Command::Model(None)),
        Some(PickerAction::OpenModels)
    );
    assert_eq!(
        command_suggestions("/agent p", &[agent("plan", true)], &[]),
        vec!["plan"]
    );
    assert!(parse_command("/agents extra").is_none());
}

#[test]
fn picker_state_tracks_query_selection_and_recency() {
    let mut picker = ModelPicker::new(vec![
        ModelOption {
            id: "a".into(),
            provider: "p".into(),
            recent: false,
            favorite: false,
        },
        ModelOption {
            id: "b".into(),
            provider: "p".into(),
            recent: true,
            favorite: false,
        },
    ]);
    picker.query = "a".into();
    assert_eq!(picker.selected_model().unwrap().id, "a");
    assert!(picker.toggle_favorite("a"));
    assert!(picker.mark_recent("a"));
    assert_eq!(move_selection(0, 2, -1), 1);
    assert_eq!(
        command_suggestions("/model ", &[], &picker.models),
        vec!["a", "b"]
    );
}

#[test]
fn agent_state_wraps_and_exposes_tab_cycle() {
    let mut picker = AgentPicker::new(vec![agent("one", true), agent("two", true)]);
    picker.move_selection(-1);
    assert_eq!(picker.selected_agent().unwrap().name, "two");
    assert_eq!(picker.cycle(Some("one"), false), Some("two".into()));
    assert_eq!(command_parts("  /agent one"), Some(("/agent", "one")));
}

#[test]
fn picker_command_parsing_maps_to_typed_actions() {
    assert_eq!(
        command_action(parse_command("/model").unwrap()),
        Some(PickerAction::OpenModels)
    );
    assert_eq!(
        command_action(parse_command("/agent architect").unwrap()),
        Some(PickerAction::SelectAgent("architect".into()))
    );
}

#[test]
fn root_commands_map_to_typed_actions() {
    assert_eq!(
        command_action(parse_command("/model").unwrap()),
        Some(PickerAction::OpenModels)
    );
    assert_eq!(
        command_action(parse_command("/agent critic").unwrap()),
        Some(PickerAction::SelectAgent("critic".into()))
    );
}

#[test]
fn cycling_skips_agents_outside_the_tab_cycle() {
    let a = vec![agent("one", true), agent("skip", false), agent("two", true)];
    assert_eq!(next_agent(&a, Some("two"), false), Some("one".into()));
    assert_eq!(next_agent(&a, Some("one"), true), Some("two".into()));
    assert_eq!(next_agent(&[], None, false), None);
    assert_eq!(move_selection(1, 3, 1), 2);
    assert_eq!(move_selection(2, 3, 1), 0);
}

#[test]
fn model_and_agent_pickers_are_wired_to_typed_options() {
    let models = vec![
        ModelOption { id: "gpt".into(), provider: "openai".into(), recent: false, favorite: false },
        ModelOption {
            id: "gemini".into(),
            provider: "google".into(),
            recent: false,
            favorite: false,
        },
    ];
    assert_eq!(fuzzy_models(&models, "gem"), vec![models[1].clone()]);
    let agents = vec![
        AgentOption { name: "Plan".into(), in_tab_cycle: true },
        AgentOption { name: "Code".into(), in_tab_cycle: true },
    ];
    assert_eq!(next_agent(&agents, Some("Plan"), false).as_deref(), Some("Code"));
    let mut request = tau_gui::backend::TurnRequest::new("hello".into(), Some("session-1".into()));
    request.apply(PickerAction::SelectAgent("Code".into()));
    request.apply(PickerAction::SelectModel("gemini".into()));
    assert_eq!(request.agent.as_deref(), Some("Code"));
    assert_eq!(request.model.as_deref(), Some("gemini"));
}

#[test]
fn an_empty_query_lists_every_model_and_agent() {
    let m = vec![
        ModelOption { id: "b/two".into(), provider: "B".into(), recent: false, favorite: false },
        ModelOption { id: "a/one".into(), provider: "A".into(), recent: false, favorite: true },
    ];
    let all = fuzzy_models(&m, "");
    assert_eq!(all.len(), 2);
    assert_eq!(all[0].id, "a/one");
    assert_eq!(all[1].id, "b/two");
    let a = vec![agent("Plan", true), agent("rare", false)];
    assert_eq!(search_agents(&a, ""), a);
}
