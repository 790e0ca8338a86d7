use codex_gui::global_state::{
    after_backup, after_primary, backup_path, desktop_model_slug, desktop_thinking_effort,
    parse_global_state, FileOutcome as F, GlobalStateModel, LastSelectedModel, LoadChoice as C, LoadFailure as L,
};

#[test]
fn maps_codex_model_settings_to_desktop_values() {
    assert_eq!(desktop_model_slug("gpt-5.6-sol"), "gpt-5-6-thinking");
    assert_eq!(desktop_model_slug("gpt-5.5"), "gpt-5-5-thinking");
    assert_eq!(desktop_model_slug("custom-model"), "custom-model");
    assert_eq!(desktop_thinking_effort("medium"), "standard");
    assert_eq!(desktop_thinking_effort("high"), "extended");
    assert_eq!(desktop_thinking_effort("xhigh"), "xhigh");
}

#[test]
fn desktop_slugs_keep_other_gpt_names() {
    assert_eq!(desktop_model_slug("gpt-5-codex"), "gpt-5-codex");
    assert_eq!(desktop_model_slug("gpt-5-6-thinking"), "gpt-5-6-thinking");
    assert_eq!(desktop_model_slug("gpt-"), "gpt--thinking");
}

#[test]
fn backup_sits_beside_the_state_file() {
    assert_eq!(backup_path("/home/u/.codex/.codex-global-state.json"), "/home/u/.codex/.codex-global-state.json.bak");
}

#[test]
fn projectless_threads_are_added_once() {
    let mut state = GlobalStateModel { projectless_thread_ids: vec!["abc".into()], persisted_atom_state: None };
    state.add_projectless_thread("def");
    state.add_projectless_thread("abc");
    state.add_projectless_thread("def");
    assert_eq!(state.projectless_thread_ids, vec!["abc".to_string(), "def".to_string()]);
}

#[test]
fn last_selected_model_is_created_at_latest_and_keeps_its_version() {
    let mut state = GlobalStateModel { projectless_thread_ids: Vec::new(), persisted_atom_state: None };
    assert_eq!(state.last_selected_model(), None);
    state.update_last_selected_model("gpt-5.5", "high");
    assert_eq!(
        state.last_selected_model(),
        Some(LastSelectedModel {
            slug: "gpt-5-5-thinking".into(),
            thinking_effort: Some("extended".into()),
            version_id: Some("latest".into()),
        })
    );
    state.persisted_atom_state = Some(Some(LastSelectedModel {
        slug: "x".into(),
        thinking_effort: None,
        version_id: Some("v7".into()),
    }));
    state.update_last_selected_model("custom", "medium");
    let selection = state.last_selected_model().unwrap();
    assert_eq!(selection.slug, "custom");
    assert_eq!(selection.thinking_effort.as_deref(), Some("standard"));
    assert_eq!(selection.version_id.as_deref(), Some("v7"));
}

#[test]
fn the_state_comes_from_the_file_then_its_backup_then_a_default() {
    assert_eq!(after_primary(F::Parsed), C::Primary);
    assert_eq!(after_primary(F::Unreadable), C::Fail(L::ReadPrimary));
    assert_eq!(after_primary(F::Missing), C::ReadBackup);
    assert_eq!(after_primary(F::Unparsable), C::ReadBackup);
    assert_eq!(after_backup(F::Missing, F::Missing), C::Default);
    assert_eq!(after_backup(F::Missing, F::Parsed), C::Backup);
    assert_eq!(after_backup(F::Missing, F::Unparsable), C::Fail(L::ParseBackup));
    assert_eq!(after_backup(F::Missing, F::Unreadable), C::Fail(L::ReadBackup));
    assert_eq!(after_backup(F::Unparsable, F::Parsed), C::Backup);
    assert_eq!(after_backup(F::Unparsable, F::Unparsable), C::Fail(L::ParseBoth));
    assert_eq!(after_backup(F::Unparsable, F::Missing), C::Fail(L::ReadBackupAfterBadPrimary));
}

#[test]
fn parses_last_selected_model() {
    let state = parse_global_state(
        r#"{
            "electron-persisted-atom-state": {
                "chatgpt-last-selected-model-v1": {
                    "slug": "gpt-5-6-thinking",
                    "thinkingEffort": "extended",
                    "versionId": "latest"
                }
            }
        }"#,
    )
    .unwrap();
    let selection = state.last_selected_model().unwrap();
    assert_eq!(selection.slug, "gpt-5-6-thinking");
    assert_eq!(selection.thinking_effort.as_deref(), Some("extended"));
}

#[test]
fn global_state_reads_ids_and_refuses_other_shapes() {
    let state = parse_global_state(
        r#"{"projectless-thread-ids": ["a", "b", "a"], "other": 1,
            "electron-persisted-atom-state": {"unknown": true}}"#,
    )
    .unwrap();
    assert_eq!(state.projectless_thread_ids, vec!["a", "b", "a"]);
    assert_eq!(state.persisted_atom_state, Some(None));
    assert_eq!(state.last_selected_model(), None);

    let empty = parse_global_state("{}").unwrap();
    assert!(empty.projectless_thread_ids.is_empty());
    assert_eq!(empty.persisted_atom_state, None);

    assert_eq!(parse_global_state("[]"), None);
    assert_eq!(parse_global_state("not json"), None);
    assert_eq!(parse_global_state(r#"{"projectless-thread-ids": null}"#), None);
    assert_eq!(parse_global_state(r#"{"projectless-thread-ids": [1]}"#), None);
    assert_eq!(
        parse_global_state(
            r#"{"electron-persisted-atom-state": {"chatgpt-last-selected-model-v1": {"thinkingEffort": "x"}}}"#
        ),
        None
    );
    let null_effort = parse_global_state(
        r#"{"electron-persisted-atom-state": {"chatgpt-last-selected-model-v1": {"slug": "m", "thinkingEffort": null}}}"#,
    )
    .unwrap();
    assert_eq!(
        null_effort.last_selected_model(),
        Some(LastSelectedModel { slug: "m".into(), thinking_effort: None, version_id: None })
    );
}
