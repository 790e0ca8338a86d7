use codex_gui::config::parse_codex_config_project_paths;

#[test]
fn reads_project_paths_from_codex_config() {
    let config = r#"
[projects."/Users/ken/Documents/Codex/2026-07-14/wo-xi"]
trust_level = "trusted"

[projects."/Users/ken/Codes/travel-companion"]
trust_level = "trusted"
"#;

    let mut paths = parse_codex_config_project_paths(config);
    paths.sort();

    assert_eq!(
        paths,
        vec![
            "/Users/ken/Codes/travel-companion".to_string(),
            "/Users/ken/Documents/Codex/2026-07-14/wo-xi".to_string(),
        ]
    );
}

#[test]
fn ignores_missing_projects_table() {
    assert!(parse_codex_config_project_paths("model = \"gpt-5\"").is_empty());
}

#[test]
fn text_that_is_not_toml_lists_no_projects() {
    assert!(parse_codex_config_project_paths("[projects").is_empty());
    assert!(parse_codex_config_project_paths("projects = 3").is_empty());
}
