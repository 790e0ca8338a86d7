use codex_gui::sidebar::{build_sidebar_rows, PaginateKind, SidebarRow};

#[test]
fn flattens_only_the_active_projects_visible_threads() {
    let projects = vec!["one", "two", "three"];
    let chats = (0..8).collect::<Vec<_>>();
    let rows = build_sidebar_rows(
        &projects,
        projects.len(),
        &[] as &[i32],
        0,
        1,
        2,
        None,
        Some("two"),
        &chats,
        5,
        &Vec::new(),
    );

    assert_eq!(rows.len(), 10); // header + 3 projects + 5 chats + show-more.
    assert!(matches!(rows[0], SidebarRow::SectionHeader { .. }));
    assert!(matches!(rows[2], SidebarRow::Project { project_index: 1, expanded: true, .. }));
    assert!(matches!(rows[5], SidebarRow::Chat { chat_index: 2, selected: true, .. }));
    assert!(matches!(rows[8], SidebarRow::ShowMore { .. }));
}

#[test]
fn projectless_chats_render_in_their_own_section() {
    let projects = vec!["one"];
    let projectless = vec![10, 11, 12];
    let rows = build_sidebar_rows(
        &projects,
        projects.len(),
        &projectless,
        projectless.len(),
        0,
        0,
        Some(1),
        Some("one"),
        &[] as &[i32],
        0,
        &Vec::new(),
    );

    // projects header + project + chats header + 3 chats.
    assert_eq!(rows.len(), 6);
    assert_eq!(rows[0], SidebarRow::SectionHeader { label: "Projects" });
    assert!(matches!(rows[1], SidebarRow::Project { selected: false, expanded: false, .. }));
    assert_eq!(rows[2], SidebarRow::SectionHeader { label: "Chats" });
    assert_eq!(rows[1], SidebarRow::Project { project_index: 0, project: "one", selected: false, expanded: false });
    assert_eq!(rows[3], SidebarRow::ProjectlessChat { chat_index: 0, chat: 10, selected: false });
    assert_eq!(rows[4], SidebarRow::ProjectlessChat { chat_index: 1, chat: 11, selected: true });
    assert_eq!(rows[5], SidebarRow::ProjectlessChat { chat_index: 2, chat: 12, selected: false });
}

#[test]
fn pagination_adds_show_more_rows_for_both_sections() {
    let projects = (0..15).collect::<Vec<_>>();
    let projectless = (0..15).collect::<Vec<_>>();
    let rows = build_sidebar_rows(
        &projects,
        10,
        &projectless,
        10,
        0,
        0,
        None,
        Some("0"),
        &[] as &[i32],
        0,
        &Vec::new(),
    );

    assert_eq!(rows.len(), 24); // header + 10 projects + show-more + header + 10 chats + show-more.
    let kinds = rows
        .iter()
        .filter_map(|row| match row {
            SidebarRow::ShowMore { kind } => Some(kind),
            _ => None,
        })
        .collect::<Vec<_>>();
    assert_eq!(kinds.len(), 2);
    assert!(matches!(kinds[0], PaginateKind::Projects));
    assert!(matches!(kinds[1], PaginateKind::ProjectlessChats));
}

#[test]
fn expanded_show_all_and_collapse_change_only_the_flattened_rows() {
    let projects = vec!["one", "two"];
    let chats = (0..8).collect::<Vec<_>>();
    let rows = build_sidebar_rows(
        &projects,
        projects.len(),
        &[] as &[i32],
        0,
        0,
        0,
        None,
        Some("one"),
        &chats,
        chats.len(),
        &Vec::new(),
    );
    assert_eq!(rows.len(), 11); // header + 2 projects + all 8 chats.
    assert!(!rows.iter().any(|row| matches!(row, SidebarRow::ShowMore { .. })));

    let collapsed = vec!["one".to_string()];
    let rows = build_sidebar_rows(
        &projects,
        projects.len(),
        &[] as &[i32],
        0,
        0,
        0,
        None,
        Some("one"),
        &chats,
        chats.len(),
        &collapsed,
    );
    assert_eq!(rows.len(), 3); // header + 2 project rows.
    assert!(rows
        .iter()
        .all(|row| matches!(row, SidebarRow::Project { .. } | SidebarRow::SectionHeader { .. })));
}

#[test]
fn project_chats_show_more_names_the_project() {
    let projects = vec!["one"];
    let chats = (0..12).collect::<Vec<_>>();
    let rows = build_sidebar_rows(
        &projects, 10, &[] as &[i32], 10, 0, 0, None, Some("/p/one"), &chats, 10, &Vec::new(),
    );
    assert_eq!(rows.len(), 13);
    assert_eq!(
        rows[12],
        SidebarRow::ShowMore { kind: PaginateKind::ProjectChats { path: "/p/one".into() } }
    );
    assert_eq!(rows[0], SidebarRow::SectionHeader { label: "Projects" });
}

use codex_gui::sidebar::{SidebarPagination, PAGE_SIZE};

#[test]
fn a_new_sidebar_shows_one_page_of_each_list() {
    let state = SidebarPagination::new();
    let projects = (0..15).collect::<Vec<_>>();
    let projectless = (0..3).collect::<Vec<_>>();
    let chats = (0..12).collect::<Vec<_>>();
    let rows = state.visible_rows(&projects, &projectless, 0, 0, None, Some("0"), &chats);
    // header + project 0 + 10 chats + show-more + 9 projects + show-more + header + 3 chats.
    assert_eq!(rows.len(), 27);
    assert_eq!(
        rows[12],
        SidebarRow::ShowMore { kind: PaginateKind::ProjectChats { path: "0".to_string() } }
    );
    assert_eq!(rows[22], SidebarRow::ShowMore { kind: PaginateKind::Projects });
    assert_eq!(state.project_chat_visible_count("0"), PAGE_SIZE);
}

#[test]
fn show_more_adds_a_page_to_one_list_only() {
    let mut state = SidebarPagination::new();
    state.show_more(&PaginateKind::ProjectChats { path: "a".to_string() });
    assert_eq!(state.project_chat_visible_count("a"), 20);
    assert_eq!(state.project_chat_visible_count("b"), 10);
    state.show_more(&PaginateKind::ProjectChats { path: "a".to_string() });
    assert_eq!(state.project_chat_visible_count("a"), 30);

    let projects = (0..25).collect::<Vec<_>>();
    state.show_more(&PaginateKind::Projects);
    let rows = state.visible_rows(&projects, &[] as &[i32], 0, 0, Some(0), None, &[] as &[i32]);
    // header + 20 projects + show-more.
    assert_eq!(rows.len(), 22);
    state.show_all(&PaginateKind::Projects);
    let rows = state.visible_rows(&projects, &[] as &[i32], 0, 0, Some(0), None, &[] as &[i32]);
    assert_eq!(rows.len(), 26);
    state.show_more(&PaginateKind::Projects);
    let rows = state.visible_rows(&projects, &[] as &[i32], 0, 0, Some(0), None, &[] as &[i32]);
    assert_eq!(rows.len(), 26);
}

#[test]
fn show_all_reveals_every_chat_of_a_project() {
    let mut state = SidebarPagination::new();
    state.show_all(&PaginateKind::ProjectChats { path: "p".to_string() });
    assert_eq!(state.project_chat_visible_count("p"), usize::MAX);
    let chats = (0..40).collect::<Vec<_>>();
    let rows = state.visible_rows(&["p"], &[] as &[i32], 0, 3, None, Some("p"), &chats);
    assert_eq!(rows.len(), 42); // header + project + 40 chats.
    assert!(matches!(rows[5], SidebarRow::Chat { chat_index: 3, selected: true, .. }));
}

#[test]
fn clicking_the_shown_project_collapses_and_expands_it() {
    let mut state = SidebarPagination::new();
    let chats = (0..2).collect::<Vec<_>>();
    assert!(!state.toggle_project(0, "one", 0, None));
    let rows = state.visible_rows(&["one", "two"], &[] as &[i32], 0, 0, None, Some("one"), &chats);
    assert_eq!(rows.len(), 3);
    assert!(!state.toggle_project(0, "one", 0, None));
    let rows = state.visible_rows(&["one", "two"], &[] as &[i32], 0, 0, None, Some("one"), &chats);
    assert_eq!(rows.len(), 5);
}

#[test]
fn clicking_another_project_selects_it_expanded() {
    let mut state = SidebarPagination::new();
    assert!(!state.toggle_project(1, "two", 1, None));
    assert!(state.toggle_project(1, "two", 0, None));
    let chats = (0..2).collect::<Vec<_>>();
    let rows = state.visible_rows(&["one", "two"], &[] as &[i32], 1, 0, None, Some("two"), &chats);
    assert_eq!(rows.len(), 5);
    // With a chat outside projects active, no project is the shown one.
    assert!(state.toggle_project(0, "one", 0, Some(0)));
}
