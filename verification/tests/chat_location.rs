use codex_gui::chat_location::{
    locate_chat, position_of, positions_without, reselect_after_removal, ChatLocation, Reselection,
};

fn ids(list: &[&str]) -> Vec<String> {
    list.iter().map(|s| s.to_string()).collect()
}

#[test]
fn chats_outside_projects_are_found_first_then_projects_in_order() {
    let projectless = ids(&["p1", "shared"]);
    let projects = vec![ids(&["a1", "a2"]), ids(&["b1", "shared", "a2"])];
    assert_eq!(
        locate_chat(&projectless, &projects, "shared"),
        Some(ChatLocation::Projectless { chat_index: 1 })
    );
    assert_eq!(
        locate_chat(&projectless, &projects, "a2"),
        Some(ChatLocation::Project { project_index: 0, chat_index: 1 })
    );
    assert_eq!(
        locate_chat(&projectless, &projects, "b1"),
        Some(ChatLocation::Project { project_index: 1, chat_index: 0 })
    );
    assert_eq!(locate_chat(&projectless, &projects, "zz"), None);
    assert_eq!(position_of(&ids(&["x", "y", "y"]), "y"), Some(1));
}

#[test]
fn deleting_a_thread_keeps_the_other_chats_and_reselects() {
    assert_eq!(positions_without(&ids(&["a", "b", "a", "c"]), "a"), vec![1, 3]);
    let projectless = ids(&["p1"]);
    let projects = vec![ids(&["a1"]), ids(&["b1", "b2"])];
    assert_eq!(reselect_after_removal(&projectless, &projects, None), None);
    assert_eq!(
        reselect_after_removal(&projectless, &projects, Some("b2")),
        Some(Reselection::Active(ChatLocation::Project { project_index: 1, chat_index: 1 }))
    );
    assert_eq!(
        reselect_after_removal(&projectless, &projects, Some("p1")),
        Some(Reselection::Active(ChatLocation::Projectless { chat_index: 0 }))
    );
    assert_eq!(reselect_after_removal(&projectless, &projects, Some("gone")), Some(Reselection::First));
}
