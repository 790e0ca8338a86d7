use codex_gui::history_rows::{
    completed_turn_fold, document_from_rows, has_working_message, next_user_index,
    rows_from_messages, DocumentPart, HistoryMessage, HistoryRow, MessageRenderOptions,
};
use codex_gui::history_view::{HistoryViewState, TranscriptUpdate};
use codex_gui::items::{CommandExecutionStatus, MessagePhase, ThreadItem};
use codex_gui::transcript::BlockId;

fn message(id: u64, item: Option<ThreadItem>, created_at: u64, updated_at: u64) -> HistoryMessage {
    HistoryMessage {
        id,
        key: format!("key-{id}"),
        item,
        streaming: false,
        has_tools: false,
        tools_done: true,
        created_at,
        updated_at,
        rendered_body: format!("body-{id}"),
    }
}

fn user(id: u64, at: u64) -> HistoryMessage {
    message(
        id,
        Some(ThreadItem::UserMessage { id: format!("u{id}"), client_id: None, content: Vec::new() }),
        at,
        at,
    )
}

fn agent(id: u64, text: &str, phase: Option<MessagePhase>, created: u64, updated: u64) -> HistoryMessage {
    message(
        id,
        Some(ThreadItem::AgentMessage { id: format!("a{id}"), text: text.to_string(), phase }),
        created,
        updated,
    )
}

fn command(id: u64, at: u64) -> HistoryMessage {
    let mut m = message(
        id,
        Some(ThreadItem::CommandExecution {
            id: format!("c{id}"),
            command: "ls".to_string(),
            cwd: "/".to_string(),
            status: CommandExecutionStatus::InProgress,
            exit_code: None,
            duration_ms: None,
        }),
        at,
        at,
    );
    m.has_tools = true;
    m
}

fn plain(index: usize) -> HistoryRow {
    HistoryRow::Message { index, options: MessageRenderOptions::default() }
}

fn completed_turn() -> Vec<HistoryMessage> {
    vec![
        user(1, 100),
        agent(2, "looking", Some(MessagePhase::Commentary), 110, 120),
        agent(3, "done", Some(MessagePhase::FinalAnswer), 130, 1_600),
    ]
}

#[test]
fn a_completed_turn_folds_into_its_summary_and_answer() {
    let messages = completed_turn();
    let rows = rows_from_messages(&messages, &Vec::new());
    assert_eq!(
        rows,
        vec![
            plain(0),
            HistoryRow::Summary { turn_id: 1, duration: 1_490, expanded: false },
            HistoryRow::Message {
                index: 2,
                options: MessageRenderOptions {
                    collapse_tools: true,
                    hide_tools: true,
                    active_tool_tail: false,
                },
            },
        ]
    );
}

#[test]
fn an_expanded_turn_shows_every_message() {
    let messages = completed_turn();
    let rows = rows_from_messages(&messages, &vec![1]);
    assert_eq!(
        rows,
        vec![
            plain(0),
            HistoryRow::Summary { turn_id: 1, duration: 1_490, expanded: true },
            plain(1),
            plain(2),
        ]
    );
}

#[test]
fn a_turn_still_at_work_stays_open() {
    let mut messages = completed_turn();
    let mut working = command(4, 140);
    working.streaming = true;
    messages.push(working);
    assert!(has_working_message(&messages, 1, 4));
    assert!(completed_turn_fold(&messages, 0, 4).is_none());
    let rows = rows_from_messages(&messages, &Vec::new());
    assert_eq!(rows.len(), 4);
    assert_eq!(
        rows[3],
        HistoryRow::Message {
            index: 3,
            options: MessageRenderOptions {
                collapse_tools: true,
                hide_tools: false,
                active_tool_tail: true,
            },
        }
    );
}

#[test]
fn an_earlier_turn_folds_though_a_later_one_is_at_work() {
    let mut messages = completed_turn();
    messages.push(user(5, 2_000));
    let mut streaming = agent(6, "", None, 2_010, 2_010);
    streaming.streaming = true;
    messages.push(streaming);
    assert_eq!(next_user_index(&messages, 1), Some(3));
    let fold = completed_turn_fold(&messages, 0, 3).expect("the first turn folds");
    assert_eq!(fold.final_index, 2);
    assert_eq!(fold.duration, 1_490);
    let rows = rows_from_messages(&messages, &Vec::new());
    assert_eq!(rows.len(), 5);
    assert_eq!(rows[3], plain(3));
}

#[test]
fn a_lone_answer_without_tools_does_not_fold() {
    let messages = vec![user(1, 0), agent(2, "hi", None, 5, 9)];
    assert!(completed_turn_fold(&messages, 0, 2).is_none());
    let mut with_tools = messages;
    with_tools[1].has_tools = true;
    let fold = completed_turn_fold(&with_tools, 0, 2).expect("the answer's tools fold");
    assert_eq!(fold.duration, 4);
}

#[test]
fn a_blank_or_streaming_answer_does_not_close_the_turn() {
    let messages = vec![user(1, 0), command(2, 1), agent(3, "  \n", None, 2, 3)];
    assert!(completed_turn_fold(&messages, 0, 3).is_none());
    let mut streaming = vec![user(1, 0), command(2, 1), agent(3, "ok", None, 2, 3)];
    streaming[2].streaming = true;
    assert!(completed_turn_fold(&streaming, 0, 3).is_none());
    let mut pending = vec![user(1, 0), command(2, 1), agent(3, "ok", None, 2, 3)];
    pending[2].tools_done = false;
    assert!(completed_turn_fold(&pending, 0, 3).is_none());
}

#[test]
fn an_answer_updated_before_the_work_began_took_no_time() {
    let messages = vec![user(1, 0), command(2, 50), agent(3, "ok", None, 60, 40)];
    let fold = completed_turn_fold(&messages, 0, 3).expect("folds");
    assert_eq!(fold.duration, 0);
}

#[test]
fn the_document_shows_each_row() {
    let mut messages = completed_turn();
    messages[2].has_tools = true;
    let mut streaming = agent(4, "still", None, 1, 1);
    streaming.streaming = true;
    messages.push(streaming);
    messages.push(command(5, 1));
    messages.push(message(6, None, 1, 1));
    let rows = vec![
        plain(0),
        HistoryRow::Summary { turn_id: 1, duration: 7, expanded: false },
        plain(1),
        plain(2),
        HistoryRow::Message {
            index: 2,
            options: MessageRenderOptions { collapse_tools: false, hide_tools: true, active_tool_tail: false },
        },
        plain(3),
        HistoryRow::Message {
            index: 4,
            options: MessageRenderOptions { collapse_tools: false, hide_tools: false, active_tool_tail: true },
        },
        plain(5),
    ];
    let parts = document_from_rows(&messages, &rows);
    assert_eq!(
        parts,
        vec![
            DocumentPart::User { key: "key-1".to_string() },
            DocumentPart::WorkedSummary { turn_id: 1, duration: 7, expanded: false },
            DocumentPart::Markdown("looking".to_string()),
            DocumentPart::AssistantHeader { key: "key-3".to_string(), label: "Codex" },
            DocumentPart::Markdown("done".to_string()),
            DocumentPart::Tools { key: "key-3".to_string(), collapse: true, active_tail: false },
            DocumentPart::AssistantHeader { key: "key-3".to_string(), label: "Codex" },
            DocumentPart::Markdown("done".to_string()),
            DocumentPart::AssistantHeader { key: "key-4".to_string(), label: "Codex is working" },
            DocumentPart::Markdown("still".to_string()),
            DocumentPart::Tools { key: "key-5".to_string(), collapse: false, active_tail: true },
            DocumentPart::Markdown("body-6".to_string()),
        ]
    );
}

#[test]
fn a_growing_transcript_of_the_same_chat_is_appended() {
    let mut view = HistoryViewState::new();
    let first = view.sync_transcript(Some("chat".to_string()), "hello".to_string(), None);
    assert!(matches!(first, TranscriptUpdate::Replace(ref m) if m == "hello"));
    let grown = view.sync_transcript(Some("chat".to_string()), "hello world".to_string(), None);
    assert!(matches!(grown, TranscriptUpdate::Append(ref d) if d == " world"));
    let same = view.sync_transcript(
        Some("chat".to_string()),
        "hello world".to_string(),
        Some(BlockId::tool_group("g")),
    );
    match same {
        TranscriptUpdate::Remeasure { changed_block: Some(id) } => {
            assert_eq!(id, BlockId::tool_group("g"));
        }
        _ => panic!("expected a remeasure"),
    }
    let edited = view.sync_transcript(Some("chat".to_string()), "goodbye".to_string(), None);
    assert!(matches!(edited, TranscriptUpdate::Replace(ref m) if m == "goodbye"));
    let other = view.sync_transcript(Some("other".to_string()), "goodbye more".to_string(), None);
    assert!(matches!(other, TranscriptUpdate::Replace(ref m) if m == "goodbye more"));
}

#[test]
fn expanding_twice_folds_again() {
    let mut view = HistoryViewState::new();
    view.toggle_turn("t1");
    assert_eq!(view.expanded_turn_ids(), &vec!["t1".to_string()]);
    view.toggle_turn("t2");
    view.toggle_turn("t1");
    assert_eq!(view.expanded_turn_ids(), &vec!["t2".to_string()]);
    let changed = view.toggle_tools("g");
    assert_eq!(changed, BlockId::tool_group("g"));
    assert_eq!(view.expanded_tool_group_ids(), &vec!["g".to_string()]);
    view.toggle_tools("g");
    assert!(view.expanded_tool_group_ids().is_empty());
}

#[test]
fn a_flight_that_never_started_expires() {
    let mut view = HistoryViewState::new();
    assert!(!view.begin_send_animation("m1".to_string(), true));
    assert_eq!(view.send_animation_launch("m1"), None);
    assert!(view.begin_send_animation("m1".to_string(), false));
    assert_eq!(view.send_animation_launch("m1"), Some(false));
    assert!(!view.expire_waiting_send_animation("m2"));
    assert!(view.expire_waiting_send_animation("m1"));
    assert_eq!(view.send_animation_launch("m1"), None);
}

#[test]
fn a_started_flight_outlives_its_timeout_until_it_finishes() {
    let mut view = HistoryViewState::new();
    view.begin_send_animation("m1".to_string(), false);
    view.mark_started("m1");
    assert_eq!(view.send_animation_launch("m1"), Some(true));
    assert!(!view.expire_waiting_send_animation("m1"));
    assert!(!view.finish_send_animation("m2"));
    assert!(view.finish_send_animation("m1"));
    assert!(!view.finish_send_animation("m1"));
}

#[test]
fn switching_chats_keeps_only_the_flight_of_the_new_chats_message() {
    let mut view = HistoryViewState::new();
    view.toggle_turn("t");
    view.begin_send_animation("m1".to_string(), false);
    view.switch_chat(Some("m1"));
    assert_eq!(view.send_animation_launch("m1"), Some(false));
    assert!(view.expanded_turn_ids().is_empty());
    view.switch_chat(Some("m2"));
    assert_eq!(view.send_animation_launch("m1"), None);
}
