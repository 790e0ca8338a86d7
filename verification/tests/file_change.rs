use codex_gui::file_change_output::{FileChangeOutputRow, FileChangeOutputState};
use codex_gui::items::{FileUpdateChange, PatchChangeKind};
use codex_gui::line_index::line_starts;
use codex_gui::list_update::{ListUpdate, ToolStatus};

#[test]
fn indexes_diff_lines_by_byte_offset() {
    assert_eq!(line_starts("one\ntwo\n"), vec![0, 4, 8]);
}

fn change(path: &str, diff: &str) -> FileUpdateChange {
    FileUpdateChange { path: path.into(), kind: PatchChangeKind::Add, diff: diff.into() }
}

#[test]
fn diff_indexes_reset_then_extend() {
    let mut state = FileChangeOutputState::new();
    let updates = state.configure(vec!["a.rs".into()], Vec::new(), ToolStatus::Running);
    assert!(updates.is_empty());
    assert!(state.reset_diff_indexes);

    let updates = state.sync_diff_indexes(&[change("a.rs", "+one\n")]);
    assert_eq!(state.diff_line_starts, vec![vec![0, 5]]);
    // path, two diff rows
    assert_eq!(updates, vec![ListUpdate::Reset { new_count: 3 }]);

    let updates = state.sync_diff_indexes(&[change("a.rs", "+one\n+two\n")]);
    assert_eq!(state.diff_line_starts, vec![vec![0, 5, 10]]);
    assert_eq!(
        updates,
        vec![
            ListUpdate::Splice { start: 3, old_count: 0, new_count: 1 },
            ListUpdate::Remeasure { index: 2 },
        ]
    );
    assert_eq!(state.row(0), Some(FileChangeOutputRow::Owned("a.rs".into())));
    assert_eq!(state.row(1), Some(FileChangeOutputRow::Diff { change_index: 0, start: 0, end: 4 }));
    assert_eq!(state.row(2), Some(FileChangeOutputRow::Diff { change_index: 0, start: 5, end: 9 }));
    assert_eq!(state.row(3), Some(FileChangeOutputRow::Diff { change_index: 0, start: 10, end: 10 }));
    assert_eq!(state.row(4), None);
}

#[test]
fn progress_rows_follow_the_changes() {
    let mut state = FileChangeOutputState::new();
    state.configure(vec!["a".into(), "b".into()], vec!["p1".into()], ToolStatus::Running);
    state.sync_diff_indexes(&[change("a", "x"), change("b", "y\nz")]);
    // a, a:0, blank, b, b:0, b:1, blank, p1
    assert_eq!(state.row_count(), 8);
    assert_eq!(state.progress_row_start(), 6);
    assert_eq!(state.change_row_start(1), 3);
    assert_eq!(state.row(2), Some(FileChangeOutputRow::Owned(String::new())));
    assert_eq!(state.row(7), Some(FileChangeOutputRow::Owned("p1".into())));
    let updates = state.configure(vec!["a".into(), "c".into()], vec!["p1".into(), "p2".into()], ToolStatus::Running);
    assert_eq!(
        updates,
        vec![
            ListUpdate::Remeasure { index: 3 },
            ListUpdate::Splice { start: 6, old_count: 2, new_count: 3 },
        ]
    );
}
