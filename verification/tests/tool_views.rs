use codex_gui::items::{
    CollabAgentTool, CommandExecutionStatus, FileUpdateChange, PatchApplyStatus, PatchChangeKind,
    ThreadItem,
};
use codex_gui::list_update::ToolStatus;
use codex_gui::tool_views::{
    append_progress, collaboration_title, command_tool_view, file_change_action,
    diff_labels, file_change_tool_view, format_duration, image_generation_view, single_line,
    sleep_title, tool_call_content, tool_group_header, whole_duration_ms, ToolKind,
};
use codex_gui::tools::{is_tool_item, pluralize, tool_status, tools_done};
use codex_gui::thread_mapping::diff_stats;

fn change(path: &str, kind: PatchChangeKind, diff: &str) -> FileUpdateChange {
    FileUpdateChange { path: path.into(), kind, diff: diff.into() }
}

#[test]
fn single_line_collapses_whitespace() {
    assert_eq!(single_line("  cargo \n test\t--all  "), "cargo test --all");
    assert_eq!(single_line(""), "");
}

#[test]
fn diff_stats_skip_file_headers() {
    let stats = diff_stats("--- a\n+++ b\n@@\n+x\n-y\n+z\n context");
    assert_eq!((stats.additions, stats.deletions), (2, 1));
}

#[test]
fn file_change_titles() {
    let one = vec![change("a.rs", PatchChangeKind::Update { move_path: Some("b.rs".into()) }, "+x\n")];
    let view = file_change_tool_view(&one, ToolStatus::Running, false);
    assert_eq!(view.title, "Moving a.rs \u{2192} b.rs");
    assert_eq!((view.additions, view.deletions), (1, 0));
    let same = vec![change("a", PatchChangeKind::Add, ""), change("b", PatchChangeKind::Add, "")];
    assert_eq!(file_change_tool_view(&same, ToolStatus::Succeeded, false).title, "Added 2 files");
    let mixed = vec![change("a", PatchChangeKind::Add, ""), change("b", PatchChangeKind::Delete, "")];
    assert_eq!(file_change_tool_view(&mixed, ToolStatus::Running, false).title, "Changing 2 files");
    let none = file_change_tool_view(&Vec::new(), ToolStatus::Running, true);
    assert_eq!(none.title, "Preparing file edits");
    assert!(none.show_detail);
    assert_eq!(file_change_action(&PatchChangeKind::Delete, ToolStatus::Failed), "Deleted");
}

#[test]
fn tool_call_summaries() {
    let cmd = ThreadItem::CommandExecution {
        id: "c".into(),
        command: "ls  -la".into(),
        cwd: "/".into(),
        status: CommandExecutionStatus::InProgress,
        exit_code: None,
        duration_ms: None,
    };
    let content = tool_call_content(&cmd, ToolStatus::Running);
    assert_eq!(content.kind, ToolKind::Command);
    assert_eq!(content.content, "Running ls -la");
    let files = ThreadItem::FileChange {
        id: "f".into(),
        changes: vec![change("a", PatchChangeKind::Add, "+1\n+2\n")],
        status: PatchApplyStatus::Completed,
    };
    let content = tool_call_content(&files, ToolStatus::Succeeded);
    assert_eq!(content.content, "Added a");
    assert_eq!(content.diff.map(|d| (d.additions, d.deletions)), Some((2, 0)));
    let dynamic = ThreadItem::DynamicToolCall {
        id: "d".into(),
        namespace: Some("ns".into()),
        tool: "t".into(),
        status: codex_gui::items::DynamicToolCallStatus::Completed,
        success: Some(false),
    };
    assert_eq!(tool_call_content(&dynamic, ToolStatus::Failed).content, "Called ns.t");
    assert_eq!(tool_status(&dynamic, false), ToolStatus::Failed);
    assert!(is_tool_item(&dynamic));
    assert!(tools_done(&[dynamic], &[false]));
    assert!(!tools_done(&[], &[]));
    assert_eq!(pluralize(1, "tool call"), "tool call");
    assert_eq!(pluralize(2, "tool call"), "tool calls");
}

#[test]
fn image_generation_status_ignores_case() {
    let item = |status: &str| ThreadItem::ImageGeneration {
        id: "i".into(),
        status: status.into(),
        revised_prompt: None,
        saved_path: None,
        transparent_background: None,
    };
    assert_eq!(tool_status(&item("IN_PROGRESS"), false), ToolStatus::Running);
    assert_eq!(tool_status(&item("Error"), false), ToolStatus::Failed);
    assert_eq!(tool_status(&item("completed"), false), ToolStatus::Succeeded);
    assert_eq!(tool_status(&item("completed"), true), ToolStatus::Running);
}

#[test]
fn details_and_progress() {
    assert_eq!(append_progress(None, None), None);
    assert_eq!(append_progress(Some(String::new()), Some(&Vec::new())), None);
    assert_eq!(
        append_progress(Some("d".into()), Some(&vec!["p1".to_string(), "p2".to_string()])),
        Some("d\n\np1\np2".to_string())
    );
    let (title, detail) = image_generation_view(
        ToolStatus::Succeeded,
        &Some("a cat".into()),
        &Some("/tmp/cat.png".into()),
        Some(true),
        None,
    );
    assert_eq!(title, "Generated image");
    assert_eq!(detail.as_deref(), Some("a cat\nsaved to: /tmp/cat.png\ntransparent background"));
    assert_eq!(collaboration_title(CollabAgentTool::Wait, ToolStatus::Failed), "Failed while waiting for agents");
}

#[test]
fn command_view_lines() {
    let view = command_tool_view("echo  hi", "/w", Some(-2), Some(15), ToolStatus::Failed, Some(&vec!["step".to_string()]));
    assert_eq!(view.title, "Ran echo hi");
    assert_eq!(view.before_output, vec!["cwd: /w".to_string()]);
    assert_eq!(
        view.after_output,
        vec!["exit code: -2".to_string(), "duration: 15 ms".to_string(), String::new(), "step".to_string()]
    );
    let view = command_tool_view("x", "/", None, None, ToolStatus::Running, Some(&vec!["p".to_string()]));
    assert_eq!(view.after_output, vec!["p".to_string()]);
}

#[test]
fn worked_durations() {
    assert_eq!(format_duration(0), "0s");
    assert_eq!(format_duration(59), "59s");
    assert_eq!(format_duration(65), "1m 05s");
    assert_eq!(format_duration(3600), "60m 00s");
}

#[test]
fn sleep_durations_in_whole_units() {
    assert_eq!(whole_duration_ms(0).as_deref(), Some("0 ms"));
    assert_eq!(whole_duration_ms(999).as_deref(), Some("999 ms"));
    assert_eq!(whole_duration_ms(1_000).as_deref(), Some("1 s"));
    assert_eq!(whole_duration_ms(120_000).as_deref(), Some("120 s"));
    assert_eq!(whole_duration_ms(1_500), None);
    assert_eq!(sleep_title(ToolStatus::Running, "3 s"), "Waiting 3 s");
    assert_eq!(sleep_title(ToolStatus::Succeeded, "250 ms"), "Waited 250 ms");
}

#[test]
fn tool_group_headers_count_the_calls_and_the_failures() {
    assert!(tool_group_header(&[], true, false, false).is_none());
    let header = tool_group_header(
        &[ToolStatus::Running, ToolStatus::Failed, ToolStatus::Succeeded],
        true,
        false,
        false,
    )
    .expect("a header");
    assert_eq!(header.title, "Running 3 tool calls");
    assert_eq!(header.failed.as_deref(), Some("1 failed"));
    assert_eq!(header.active.as_deref(), Some("1 active"));
    assert!(header.can_toggle);
    assert!(!header.open);
    let header = tool_group_header(&[ToolStatus::Succeeded], true, true, false).expect("a header");
    assert_eq!(header.title, "Ran 1 tool call");
    assert_eq!(header.failed, None);
    assert_eq!(header.active, None);
    assert!(!header.can_toggle);
    assert!(header.open);
    let header = tool_group_header(&[ToolStatus::Failed, ToolStatus::Failed], false, false, false)
        .expect("a header");
    assert_eq!(header.title, "Ran 2 tool calls");
    assert_eq!(header.failed.as_deref(), Some("2 failed"));
    assert!(header.open);
    let (added, deleted) = diff_labels(diff_stats("+a\n-b\n+c\n"));
    assert_eq!((added.as_str(), deleted.as_str()), ("+2", "-1"));
}

#[test]
fn image_views_are_titled_by_their_path() {
    assert_eq!(codex_gui::tool_views::image_view_title("/tmp/a.png"), "Viewed /tmp/a.png");
}
