use std::collections::HashSet;

use codex_gui::bridge::{
    BridgeError, SortDirection, ThreadListRequest, ThreadListing, ThreadSortKey, THREAD_PAGE_SIZE,
};
use codex_gui::items::{Thread, ThreadStatus};
use codex_gui::results::{
    group_threads, latest_thread_update, loaded_chats, parse_projectless_thread_ids,
};
use codex_gui::thread_mapping::Message;

#[test]
fn parses_projectless_thread_ids() {
    let ids = parse_projectless_thread_ids(r#"{"projectless-thread-ids": ["abc", "def"], "other": 1}"#);
    let ids: HashSet<String> = ids.into_iter().collect();
    assert_eq!(ids, HashSet::from(["abc".to_string(), "def".to_string()]));
}

#[test]
fn missing_projectless_field_is_empty() {
    assert!(parse_projectless_thread_ids(r#"{"other": []}"#).is_empty());
    assert!(parse_projectless_thread_ids("not json").is_empty());
}

#[test]
fn projectless_ids_are_listed_once_and_only_strings_count() {
    let ids = parse_projectless_thread_ids(r#"{"projectless-thread-ids": ["a", 3, "b", "a", null]}"#);
    assert_eq!(ids, vec!["a".to_string(), "b".to_string()]);
}

fn thread(id: &str, cwd: &str, updated_at: i64) -> Thread {
    Thread {
        id: id.into(),
        name: None,
        preview: String::new(),
        status: ThreadStatus::Idle,
        cwd: cwd.into(),
        updated_at,
        turns: Vec::new(),
    }
}

#[test]
fn threads_group_by_directory_in_order_of_first_occurrence() {
    let threads = vec![
        thread("t1", "/b", 5),
        thread("t2", "/a", 9),
        thread("t3", "/b", 9),
        thread("t4", "/c", 1),
    ];
    let groups = group_threads(&threads, &vec!["t4".to_string()]);
    assert_eq!(groups.newest, Some(1));
    assert_eq!(groups.project_paths, vec!["/b".to_string(), "/a".to_string()]);
    assert_eq!(groups.project_threads, vec![vec![0, 2], vec![1]]);
    assert_eq!(groups.projectless, vec![3]);
    assert_eq!(latest_thread_update(&threads, &groups.project_threads[0]), Some(9));
    assert_eq!(latest_thread_update(&threads, &Vec::new()), None);
}

#[test]
fn thread_listing_reads_pages_until_one_has_no_cursor() {
    let mut listing = ThreadListing::new();
    assert_eq!(listing.next_cursor(), None);
    assert!(listing.take_page(vec![thread("t1", "/a", 3), thread("t2", "/b", 2)], Some("c1".into())));
    assert_eq!(listing.next_cursor(), Some("c1".to_string()));
    assert!(!listing.done());
    assert!(!listing.take_page(vec![thread("t3", "/a", 1)], None));
    assert!(listing.done());
    let ids: Vec<String> = listing.into_threads().into_iter().map(|t| t.id).collect();
    assert_eq!(ids, vec!["t1", "t2", "t3"]);
}

#[test]
fn a_project_without_threads_gets_the_empty_chat_alone() {
    let (chats, latest) = loaded_chats(Vec::new());
    assert_eq!(latest, None);
    assert_eq!(chats.len(), 1);
    assert_eq!(chats[0].id, "empty");
    assert_eq!(chats[0].title, "No Codex threads");
    assert_eq!(chats[0].subtitle, "Click New to start one in this workspace");
    assert_eq!(chats[0].messages.len(), 1);
    match &chats[0].messages[0] {
        Message::Notice(text) => {
            assert_eq!(text, "No persisted Codex threads were returned for this workspace.")
        }
        _ => panic!("expected the notice"),
    }
}

#[test]
fn a_project_with_threads_gets_their_chats_in_order() {
    let (chats, latest) = loaded_chats(vec![thread("t1", "/a", 3), thread("t2", "/a", 9), thread("t3", "/a", 5)]);
    let ids: Vec<&str> = chats.iter().map(|c| c.id.as_str()).collect();
    assert_eq!(ids, vec!["t1", "t2", "t3"]);
    assert_eq!(latest, Some(9));
    assert_eq!(chats[0].subtitle, "idle - /a");
    assert!(chats[0].messages.is_empty());
}

#[test]
fn thread_list_requests_ask_for_newest_unarchived_pages_of_a_hundred() {
    let mut listing = ThreadListing::new();
    let first = listing.next_request();
    assert_eq!(
        first,
        ThreadListRequest {
            cursor: None,
            limit: Some(100),
            sort_key: Some(ThreadSortKey::UpdatedAt),
            sort_direction: Some(SortDirection::Desc),
            archived: Some(false),
        }
    );
    listing.take_page(vec![thread("t1", "/a", 1)], Some("c1".into()));
    assert_eq!(listing.next_request().cursor.as_deref(), Some("c1"));
    assert_eq!(listing.next_request().limit, Some(THREAD_PAGE_SIZE));
    let failed = listing.fail(BridgeError::Transport("gone".into()));
    assert_eq!(failed.map(|t| t.len()), Err(BridgeError::Transport("gone".into())));

    let mut listing = ThreadListing::new();
    listing.take_page(vec![thread("t1", "/a", 1)], None);
    let ids: Vec<String> = listing.finish().unwrap().into_iter().map(|t| t.id).collect();
    assert_eq!(ids, vec!["t1"]);
}
