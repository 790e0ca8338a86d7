use codex_gui::items::{
    CommandExecutionStatus, MessagePhase, ThreadItem, Turn, TurnStatus, UserInput,
};
use codex_gui::projection::{
    append_items, build_transcript, completed_turn_fold, tool_group_end, turn_duration,
    user_input_text, ChatTranscriptSource, TurnFold,
};
use codex_gui::transcript::{HistoryBlock, TranscriptSnapshot, TurnDuration};

fn sleep_tool(id: &str) -> ThreadItem {
    ThreadItem::Sleep { id: id.to_string(), duration_ms: 1 }
}

fn reasoning(id: &str, summary: &str) -> ThreadItem {
    ThreadItem::Reasoning { id: id.to_string(), summary: vec![summary.to_string()], content: Vec::new() }
}

#[test]
fn tool_group_crosses_completed_empty_reasoning() {
    let items = vec![sleep_tool("tool-1"), reasoning("reasoning-1", ""), sleep_tool("tool-2")];
    assert_eq!(tool_group_end(&items, 0, &[false, false, false]), items.len());
}

#[test]
fn tool_group_stops_at_non_empty_reasoning() {
    let items = vec![
        sleep_tool("tool-1"),
        reasoning("reasoning-1", "Still investigating"),
        sleep_tool("tool-2"),
    ];
    assert_eq!(tool_group_end(&items, 0, &[false, false, false]), 1);
}

#[test]
fn tool_group_stops_at_streaming_empty_reasoning() {
    let items = vec![sleep_tool("tool-1"), reasoning("reasoning-1", ""), sleep_tool("tool-2")];
    assert_eq!(tool_group_end(&items, 0, &[false, true, false]), 1);
}

fn user(id: &str, text: &str) -> ThreadItem {
    ThreadItem::UserMessage {
        id: id.into(),
        client_id: None,
        content: vec![UserInput::Text { text: text.into() }],
    }
}

fn agent(id: &str, text: &str, phase: Option<MessagePhase>) -> ThreadItem {
    ThreadItem::AgentMessage { id: id.into(), text: text.into(), phase }
}

fn command(id: &str, status: CommandExecutionStatus) -> ThreadItem {
    ThreadItem::CommandExecution {
        id: id.into(),
        command: "ls".into(),
        cwd: "/".into(),
        status,
        exit_code: None,
        duration_ms: None,
    }
}

fn completed_turn() -> Turn {
    Turn {
        id: "turn-1".into(),
        items: vec![
            user("u", "hi"),
            agent("a1", "Looking", Some(MessagePhase::Commentary)),
            command("c1", CommandExecutionStatus::Completed),
            agent("a2", "Done", Some(MessagePhase::FinalAnswer)),
        ],
        status: TurnStatus::Completed,
        duration_ms: Some(65_250),
        started_at: None,
        completed_at: None,
    }
}

#[test]
fn completed_turns_fold_after_the_user_message() {
    assert_eq!(completed_turn_fold(&completed_turn()), Some(TurnFold { user_index: 0, final_index: 3 }));

    let mut running = completed_turn();
    running.items[2] = command("c1", CommandExecutionStatus::InProgress);
    assert_eq!(completed_turn_fold(&running), None);

    let mut interrupted = completed_turn();
    interrupted.status = TurnStatus::Interrupted;
    assert_eq!(completed_turn_fold(&interrupted), None);

    let mut two_users = completed_turn();
    two_users.items.push(user("u2", "more"));
    assert_eq!(completed_turn_fold(&two_users), None);
}

#[test]
fn turn_duration_prefers_the_reported_milliseconds() {
    assert_eq!(turn_duration(&completed_turn()), TurnDuration { secs: 65, subsec_millis: 250 });
    let mut timed = completed_turn();
    timed.duration_ms = None;
    timed.started_at = Some(100);
    timed.completed_at = Some(142);
    assert_eq!(turn_duration(&timed), TurnDuration { secs: 42, subsec_millis: 0 });
    timed.completed_at = Some(10);
    assert_eq!(turn_duration(&timed), TurnDuration { secs: 0, subsec_millis: 0 });
}

#[test]
fn user_input_parts_become_lines() {
    let text = user_input_text(&vec![
        UserInput::Text { text: "look".into() },
        UserInput::Image { url: "http://x/y.png".into() },
        UserInput::Skill { name: "s".into(), path: "/p".into() },
    ]);
    assert_eq!(text, "look\n[Image: http://x/y.png]\n[Skill: s (/p)]");
}

#[test]
fn folded_turn_shows_summary_and_final_answer() {
    let turn = completed_turn();
    let chat = ChatTranscriptSource {
        streaming: vec![vec![false; turn.items.len()]],
        turns: vec![turn],
        turn_plans: vec![None],
        pending_user_message: None,
        notices: Vec::new(),
        pending_approvals: Vec::new(),
        pending_inputs: Vec::new(),
    };
    let transcript = build_transcript(&chat, &Vec::new(), &Vec::new());
    let kinds: Vec<&str> = transcript
        .blocks
        .iter()
        .map(|(_, block)| match block {
            HistoryBlock::User { .. } => "user",
            HistoryBlock::WorkedSummary { .. } => "summary",
            HistoryBlock::AssistantHeader { .. } => "header",
            _ => "other",
        })
        .collect();
    assert_eq!(kinds, vec!["user", "summary", "header"]);
    assert!(transcript.markdown.ends_with("\n\nDone"));
    assert!(!transcript.markdown.contains("Looking"));

    let expanded = build_transcript(&chat, &vec!["turn-1".to_string()], &Vec::new());
    assert!(expanded.markdown.contains("Looking"));
    assert!(expanded.blocks.iter().any(|(_, b)| matches!(b, HistoryBlock::ToolGroup { tools, .. } if tools == &vec!["c1".to_string()])));
}

#[test]
fn every_tool_call_lands_in_one_group_in_order() {
    let items = vec![
        sleep_tool("t1"),
        agent("a", "Working", Some(MessagePhase::Commentary)),
        sleep_tool("t2"),
        reasoning("r", ""),
        sleep_tool("t3"),
        user("u", "next"),
        sleep_tool("t4"),
    ];
    let streaming = vec![false; items.len()];
    let mut transcript = TranscriptSnapshot::new();
    append_items(&mut transcript, &"turn".to_string(), None, &items, &streaming, &Vec::new());
    let grouped: Vec<String> = transcript
        .blocks
        .iter()
        .flat_map(|(_, b)| match b {
            HistoryBlock::ToolGroup { tools, .. } => tools.clone(),
            _ => Vec::new(),
        })
        .collect();
    assert_eq!(grouped, vec!["t1", "t2", "t3", "t4"]);
    let groups = transcript
        .blocks
        .iter()
        .filter(|(_, b)| matches!(b, HistoryBlock::ToolGroup { .. }))
        .count();
    assert_eq!(groups, 3);
}

#[test]
fn plain_items_give_one_block_each_in_order() {
    let items = vec![
        user("u1", "first"),
        ThreadItem::Plan { id: "p".into(), text: "plan".into() },
        ThreadItem::ContextCompaction { id: "c".into() },
        user("u2", ""),
        user("u3", "last"),
    ];
    let streaming = vec![false; items.len()];
    let mut transcript = TranscriptSnapshot::new();
    append_items(&mut transcript, &"turn".to_string(), None, &items, &streaming, &Vec::new());
    let keys: Vec<String> = transcript
        .blocks
        .iter()
        .map(|(_, b)| match b {
            HistoryBlock::User { key, .. } => key.clone(),
            HistoryBlock::Plan { key, .. } => key.clone(),
            HistoryBlock::Activity { key, .. } => key.clone(),
            _ => "?".to_string(),
        })
        .collect();
    assert_eq!(keys, vec!["u1", "p", "c", "u3"]);
}
