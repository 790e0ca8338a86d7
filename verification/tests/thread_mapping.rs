use codex_gui::thread_mapping::{
    project_name_from_path, should_start_thread_for_turn, thread_title,
};

#[test]
fn new_chat_turn_starts_thread_even_when_an_active_thread_exists() {
    assert!(should_start_thread_for_turn(true, Some("existing-thread-id")));
}

#[test]
fn existing_chat_turn_reuses_active_thread() {
    assert!(!should_start_thread_for_turn(false, Some("existing-thread-id")));
}

#[test]
fn missing_active_chat_starts_thread() {
    assert!(should_start_thread_for_turn(false, None));
}

#[test]
fn thread_title_prefers_name() {
    assert_eq!(thread_title(Some("Saved title"), "First prompt"), "Saved title");
}

#[test]
fn thread_title_falls_back_to_preview() {
    assert_eq!(thread_title(None, "  First prompt  "), "First prompt");
}

#[test]
fn thread_title_uses_default_when_name_and_preview_are_empty() {
    assert_eq!(thread_title(Some("   "), " "), "Untitled Codex thread");
}

#[test]
fn thread_title_keeps_a_name_with_surrounding_spaces() {
    assert_eq!(thread_title(Some(" Named "), "Preview"), " Named ");
}

#[test]
fn project_name_is_the_last_path_component() {
    assert_eq!(project_name_from_path("/Users/ken/Codes/travel-companion"), "travel-companion");
    assert_eq!(project_name_from_path("/usr/bin/"), "bin");
    assert_eq!(project_name_from_path("tmp/foo.txt/."), "foo.txt");
    assert_eq!(project_name_from_path("a//b//"), "b");
}

#[test]
fn project_name_falls_back_to_the_whole_path() {
    assert_eq!(project_name_from_path("/"), "/");
    assert_eq!(project_name_from_path("foo/.."), "foo/..");
    assert_eq!(project_name_from_path(""), "");
    assert_eq!(project_name_from_path("."), ".");
}
