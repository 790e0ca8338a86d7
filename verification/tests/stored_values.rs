use codex_gui::name_map::NameMap;
use codex_gui::stored_values::{finish_cell, CellStore};

fn session(pairs: &[(&str, &str)]) -> NameMap<String> {
    let mut map = NameMap::new();
    for (k, v) in pairs {
        map.insert(k.to_string(), v.to_string());
    }
    map
}

fn entries(map: &NameMap<String>) -> Vec<(String, String)> {
    let mut e: Vec<(String, String)> = map.entries().iter().cloned().collect();
    e.sort();
    e
}

#[test]
fn a_cell_reads_back_what_it_stored_in_compact_form() {
    let mut cell = CellStore::new(session(&[("seen", "true")]));
    assert_eq!(cell.load("seen").as_deref(), Some("true"));
    assert_eq!(cell.load("missing"), None);
    assert_eq!(cell.store("a".into(), "{ \"x\" : [1, 2] }"), Ok(()));
    assert_eq!(cell.load("a").as_deref(), Some("{\"x\":[1,2]}"));
    assert_eq!(cell.store("a".into(), "\"again\""), Ok(()));
    assert_eq!(cell.load("a").as_deref(), Some("\"again\""));
}

#[test]
fn storing_text_that_is_not_json_fails_and_changes_nothing() {
    let mut cell = CellStore::new(session(&[]));
    let error = cell.store("a".into(), "not json").unwrap_err();
    assert!(error.starts_with("failed to serialize stored value: "), "{error}");
    assert_eq!(cell.load("a"), None);
    assert!(cell.into_writes().entries().is_empty());
}

#[test]
fn a_finished_cell_keeps_its_writes_only_when_it_succeeded() {
    let mut cell = CellStore::new(session(&[("a", "1"), ("b", "2")]));
    cell.store("b".into(), "20").unwrap();
    cell.store("c".into(), "30").unwrap();

    let mut stored = session(&[("a", "1"), ("b", "2")]);
    finish_cell(&mut stored, cell, false, false);
    assert_eq!(
        entries(&stored),
        vec![
            ("a".to_string(), "1".to_string()),
            ("b".to_string(), "20".to_string()),
            ("c".to_string(), "30".to_string()),
        ]
    );

    let mut failed = CellStore::new(session(&[]));
    failed.store("d".into(), "4").unwrap();
    finish_cell(&mut stored, failed, true, false);
    let mut cancelled = CellStore::new(session(&[]));
    cancelled.store("d".into(), "4").unwrap();
    finish_cell(&mut stored, cancelled, false, true);
    assert_eq!(stored.get("d"), None);
}
