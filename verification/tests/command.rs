use codex_gui::command_output::{CommandOutputRow, CommandOutputState};
use codex_gui::list_update::{ListUpdate, ToolStatus};

#[test]
fn newline_index_extends_incrementally() {
    let mut state = CommandOutputState::new();
    state.sync_output_index(Some("one\ntwo"));
    assert_eq!(state.output_line_starts, vec![0, 4]);

    state.sync_output_index(Some("one\ntwo\nthree\n"));
    assert_eq!(state.output_line_starts, vec![0, 4, 8, 14]);
}

#[test]
fn rows_surround_the_output_lines() {
    let mut state = CommandOutputState::new();
    let updates = state.configure(vec!["cwd: /".into()], vec!["exit code: 0".into()], ToolStatus::Succeeded);
    assert_eq!(
        updates,
        vec![
            ListUpdate::Splice { start: 0, old_count: 0, new_count: 1 },
            ListUpdate::Splice { start: 1, old_count: 0, new_count: 1 },
        ]
    );
    let updates = state.sync_output_index(Some("a\nbc"));
    assert_eq!(updates, vec![ListUpdate::Splice { start: 1, old_count: 0, new_count: 2 }]);
    assert_eq!(state.row_count(), 4);
    assert_eq!(state.row(0), Some(CommandOutputRow::Owned("cwd: /".into())));
    assert_eq!(state.row(1), Some(CommandOutputRow::Output { start: 0, end: 1 }));
    assert_eq!(state.row(2), Some(CommandOutputRow::Output { start: 2, end: 4 }));
    assert_eq!(state.row(3), Some(CommandOutputRow::Owned("exit code: 0".into())));
    assert_eq!(state.row(4), None);

    let updates = state.sync_output_index(Some("a\nbcd"));
    assert_eq!(updates, vec![ListUpdate::Remeasure { index: 2 }]);
    let updates = state.sync_output_index(Some("x"));
    assert_eq!(updates, vec![ListUpdate::Splice { start: 1, old_count: 2, new_count: 1 }]);
}
