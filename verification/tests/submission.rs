use codex_gui::submission::{
    chats_kept_for_pending, edit_allowed, edit_fork_points, is_placeholder_chat, pending_chat_id,
    settings_target, starting_subtitle, submit_plan, thread_to_load, EditAction, EditEvent,
    EditResubmission, EditStage, SubmitPlan,
};

#[test]
fn placeholder_chats_are_the_empty_one_and_pending_ones() {
    assert!(is_placeholder_chat("empty"));
    assert!(is_placeholder_chat("pending-abc"));
    assert!(!is_placeholder_chat("pending"));
    assert!(!is_placeholder_chat("thread-1"));
    assert_eq!(pending_chat_id("abc"), "pending-abc");
    assert!(is_placeholder_chat(&pending_chat_id("x")));
    assert_eq!(starting_subtitle("/repo"), "starting - /repo");
}

#[test]
fn a_new_thread_replaces_the_placeholders_and_keeps_the_rest_in_order() {
    let ids: Vec<String> =
        ["empty", "t1", "pending-1", "t2", "t3"].iter().map(|s| s.to_string()).collect();
    assert_eq!(chats_kept_for_pending(&ids), vec![1, 3, 4]);
    assert!(chats_kept_for_pending(&Vec::new()).is_empty());
}

#[test]
fn submissions_start_a_thread_send_a_turn_or_wait() {
    assert_eq!(submit_plan(true, false, false, Some("t"), true), SubmitPlan::Ignore);
    assert_eq!(submit_plan(false, true, false, Some("t"), true), SubmitPlan::Ignore);
    assert_eq!(submit_plan(false, false, true, Some("t"), true), SubmitPlan::StartThread);
    assert_eq!(submit_plan(false, false, false, None, true), SubmitPlan::StartThread);
    assert_eq!(submit_plan(false, false, false, None, false), SubmitPlan::Ignore);
    assert_eq!(submit_plan(false, false, false, Some("t"), false), SubmitPlan::SendTurn);
}

#[test]
fn an_edit_forks_through_the_previous_turn_or_before_the_first() {
    assert_eq!(
        edit_fork_points("turn-2".into(), Some("turn-1".into())),
        (Some("turn-1".to_string()), None)
    );
    assert_eq!(edit_fork_points("turn-1".into(), None), (None, Some("turn-1".to_string())));
    assert!(edit_allowed(false, Some("t"), "t"));
    assert!(!edit_allowed(true, Some("t"), "t"));
    assert!(!edit_allowed(false, Some("u"), "t"));
    assert!(!edit_allowed(false, None, "t"));
}

#[test]
fn selecting_a_chat_loads_its_thread_unless_it_is_empty() {
    assert_eq!(thread_to_load(Some("t1".into())), Some("t1".to_string()));
    assert_eq!(thread_to_load(Some("empty".into())), None);
    assert_eq!(thread_to_load(None), None);
    assert_eq!(settings_target(true, Some("t".into())), None);
    assert_eq!(settings_target(false, Some("t".into())), Some("t".to_string()));
}

fn edit_of(previous: Option<&str>) -> (EditResubmission, EditAction) {
    EditResubmission::start(
        false,
        Some("thread-a"),
        "thread-a".into(),
        "turn-2".into(),
        previous.map(String::from),
        "msg-1".into(),
        "new text".into(),
    )
    .expect("the edit starts")
}

#[test]
fn edited_message_forks_replaces_deletes_and_sends() {
    assert!(EditResubmission::start(true, Some("t"), "t".into(), "u".into(), None, "m".into(), "x".into()).is_none());
    assert!(EditResubmission::start(false, Some("other"), "t".into(), "u".into(), None, "m".into(), "x".into()).is_none());

    let (edit, fork) = edit_of(Some("turn-1"));
    assert_eq!(
        fork,
        EditAction::ForkThread { thread_id: "thread-a".into(), after_turn: Some("turn-1".into()), before_turn: None }
    );
    let (edit, actions) = edit.step(EditEvent::Forked(Ok("thread-b".into())));
    assert_eq!(
        actions,
        vec![EditAction::ReplaceThread { source: "thread-a".into(), replacement: "thread-b".into() }]
    );
    let (edit, actions) = edit.step(EditEvent::Replaced(true));
    assert_eq!(
        actions,
        vec![EditAction::BeginUserMessage {
            thread_id: "thread-b".into(),
            client_id: "msg-1".into(),
            text: "new text".into()
        }]
    );
    let (edit, actions) = edit.step(EditEvent::PendingStarted(true));
    assert_eq!(actions, vec![EditAction::DeleteThread { thread_id: "thread-a".into() }]);
    let (edit, actions) = edit.step(EditEvent::Deleted(Err("gone".into())));
    assert_eq!(
        actions,
        vec![
            EditAction::ShowError { message: "gone".into() },
            EditAction::SendTurn { thread_id: "thread-b".into(), client_id: "msg-1".into(), text: "new text".into() },
        ]
    );
    let (edit, actions) = edit.step(EditEvent::Sent(Ok(())));
    assert_eq!(
        actions,
        vec![EditAction::ApplySubmissionResult {
            thread_id: "thread-b".into(),
            client_id: "msg-1".into(),
            result: Ok(())
        }]
    );
    assert_eq!(edit.stage, EditStage::Done);
}

#[test]
fn edited_message_stops_when_a_step_fails() {
    let (edit, fork) = edit_of(None);
    assert_eq!(
        fork,
        EditAction::ForkThread { thread_id: "thread-a".into(), after_turn: None, before_turn: Some("turn-2".into()) }
    );
    let (done, actions) = edit.step(EditEvent::Forked(Err("no fork".into())));
    assert_eq!(actions, vec![EditAction::ShowError { message: "no fork".into() }]);
    assert_eq!(done.stage, EditStage::Done);

    let (edit, _) = edit_of(None).0.step(EditEvent::Forked(Ok("thread-b".into())));
    let (done, actions) = edit.step(EditEvent::Replaced(false));
    assert!(actions.is_empty());
    assert_eq!(done.stage, EditStage::Done);

    let (edit, _) = edit_of(None).0.step(EditEvent::Forked(Ok("thread-b".into())));
    let (edit, _) = edit.step(EditEvent::Replaced(true));
    let (done, actions) = edit.step(EditEvent::PendingStarted(false));
    assert!(actions.is_empty());
    assert_eq!(done.stage, EditStage::Done);

    let (edit, _) = edit_of(None);
    let (same, actions) = edit.step(EditEvent::Sent(Ok(())));
    assert!(actions.is_empty());
    assert_eq!(same.stage, EditStage::Forking);
}
