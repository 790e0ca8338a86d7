use codex_gui::code_cell::{
    allocate_cell_number, is_terminal, missing_cell_response, plan_tool_call,
    resolve_yield_timeout, tool_index, CellLookup, CellState, CellStatus, RuntimeResponse,
    SessionRegistry, Shutdown, ToolCallIds,
};

fn items(response: &RuntimeResponse<u32>) -> Vec<u32> {
    match response {
        RuntimeResponse::Yielded { content_items, .. }
        | RuntimeResponse::Result { content_items, .. }
        | RuntimeResponse::Terminated { content_items, .. } => content_items.clone(),
    }
}

#[test]
fn every_pushed_item_reaches_an_observer_once_in_order() {
    let mut cell = CellState::new("1".to_string());
    cell.push(1u32);
    cell.push(2);
    assert!(cell.take_observable(false).is_none());
    assert!(cell.request_yield());
    let first = cell.take_observable(false).unwrap();
    assert!(matches!(first, RuntimeResponse::Yielded { .. }));
    assert_eq!(items(&first), vec![1, 2]);
    assert!(cell.take_observable(false).is_none());
    cell.push(3);
    assert!(cell.complete(Some("boom".into()), false));
    assert!(!cell.complete(None, true));
    cell.push(4);
    let last = cell.take_observable(true).unwrap();
    assert!(is_terminal(&last));
    assert_eq!(items(&last), vec![3]);
    match last {
        RuntimeResponse::Result { error_text, cell_id, .. } => {
            assert_eq!(error_text.as_deref(), Some("boom"));
            assert_eq!(cell_id, "1");
        }
        _ => panic!("expected a result"),
    }
    assert_eq!(cell.status, CellStatus::Completed { error_text: Some("boom".into()) });
}

#[test]
fn a_cancelled_cell_is_terminated() {
    let mut cell: CellState<u32> = CellState::new("2".to_string());
    assert!(cell.take_observable(true).is_none());
    cell.complete(None, true);
    assert!(!cell.request_yield());
    let response = cell.take_observable(false).unwrap();
    assert!(matches!(response, RuntimeResponse::Terminated { .. }));
    let yielded = cell.take_yielded();
    assert!(!is_terminal(&yielded));
}

#[test]
fn missing_cells_answer_with_an_error() {
    let response: RuntimeResponse<u32> = missing_cell_response("9".to_string());
    match response {
        RuntimeResponse::Result { error_text, content_items, .. } => {
            assert_eq!(error_text.as_deref(), Some("exec cell 9 not found"));
            assert!(content_items.is_empty());
        }
        _ => panic!("expected a result"),
    }
}

#[test]
fn yield_timeouts_get_grace_and_respect_the_limit() {
    assert_eq!(resolve_yield_timeout(9_999, None), 9_999);
    assert_eq!(resolve_yield_timeout(10_000, None), 11_000);
    assert_eq!(resolve_yield_timeout(10_000, Some(10_500)), 10_500);
    assert_eq!(resolve_yield_timeout(u64::MAX, None), u64::MAX as u128 + 1_000);
}

#[test]
fn cell_numbers_and_tool_indexes() {
    assert_eq!(allocate_cell_number(1), Ok((1, 2)));
    assert_eq!(
        allocate_cell_number(u64::MAX),
        Err("code mode session exhausted its cell ID space".to_string())
    );
    assert_eq!(tool_index(-1, 3), None);
    assert_eq!(tool_index(2, 3), Some(2));
    assert_eq!(tool_index(3, 3), None);
}

#[test]
fn cells_get_increasing_numbers_until_the_session_shuts_down() {
    let mut session = SessionRegistry::new();
    assert_eq!(session.start_cell(), Ok(1));
    assert_eq!(session.start_cell(), Ok(2));
    assert_eq!(session.start_cell(), Ok(3));
    assert_eq!(session.lookup(2), CellLookup::Live);
    assert_eq!(session.lookup(9), CellLookup::Missing);
    assert!(session.finish_cell(2));
    assert!(!session.finish_cell(2));
    assert_eq!(session.lookup(2), CellLookup::Missing);
    assert_eq!(session.begin_shutdown(), vec![1, 3]);
    assert_eq!(session.start_cell(), Err("code mode session is shutting down".to_string()));
}

#[test]
fn tool_calls_check_their_index_and_input_before_taking_an_id() {
    let mut ids = ToolCallIds::new();
    assert_eq!(
        plan_tool_call(&mut ids, 3, 2, None).err().as_deref(),
        Some("invalid code-mode tool index")
    );
    assert_eq!(plan_tool_call(&mut ids, -1, 2, None).err().as_deref(), Some("invalid code-mode tool index"));
    let bad = plan_tool_call(&mut ids, 0, 2, Some("{nope")).err().expect("an error");
    assert!(bad.starts_with("invalid tool input: "), "{bad}");
    let call = plan_tool_call(&mut ids, 1, 2, Some("{ \"a\" : 1 }")).ok().expect("a call");
    assert_eq!(call.tool, 1);
    assert_eq!(call.runtime_tool_call_id, "tool-1");
    assert_eq!(call.input.as_deref(), Some("{\"a\":1}"));
    let call = plan_tool_call(&mut ids, 0, 2, None).ok().expect("a call");
    assert_eq!(call.runtime_tool_call_id, "tool-2");
    assert_eq!(call.input, None);
    assert_eq!(ids.take(), "tool-3");
}

#[test]
fn shutdown_closes_each_open_cell_once() {
    let mut session = SessionRegistry::new();
    assert_eq!(session.start_cell(), Ok(1));
    assert_eq!(session.start_cell(), Ok(2));
    assert_eq!(session.start_cell(), Ok(3));
    assert!(session.finish_cell(1));
    let mut shutdown = Shutdown::begin(&mut session);
    assert_eq!(session.start_cell(), Err("code mode session is shutting down".to_string()));
    assert_eq!(shutdown.next_cell(), Some(2));
    assert!(shutdown.cell_ended(&mut session));
    assert_eq!(shutdown.next_cell(), Some(3));
    // An observer saw cell 3 end and closed it first.
    assert!(session.finish_cell(3));
    assert!(!shutdown.cell_ended(&mut session));
    assert_eq!(shutdown.next_cell(), None);
    assert_eq!(session.lookup(2), CellLookup::Missing);
    assert_eq!(session.lookup(3), CellLookup::Missing);
    assert_eq!(session.begin_shutdown(), Vec::<u64>::new());
}
