use codex_gui::bridge::ModelOption;
use codex_gui::composer::{
    active_chat_turn_running, composer_controls, enter_action, panel_header,
    project_path_from_input, steer_text, ComposerSend, ComposerState, EnterAction, MenuItem,
};

fn items(items: &[MenuItem]) -> Vec<(&str, &str, bool)> {
    items.iter().map(|i| (i.label.as_str(), i.value.as_str(), i.checked)).collect()
}

fn gpt5() -> ModelOption {
    ModelOption {
        id: "gpt-5".into(),
        display_name: "GPT-5".into(),
        supported_efforts: vec!["low".into(), "high".into()],
        default_effort: "low".into(),
    }
}

#[test]
fn controls_offer_the_chosen_models_efforts() {
    let models = vec![gpt5(), ModelOption { id: "mini".into(), display_name: "Mini".into(), supported_efforts: Vec::new(), default_effort: "low".into() }];
    let profiles = vec![("read-only".to_string(), "Read only".to_string()), ("full".to_string(), "Full access".to_string())];
    let controls = composer_controls("gpt-5", "high", "full", &models, &profiles, false, false, true);
    assert_eq!(controls.model_label, "GPT-5");
    assert_eq!(items(&controls.model_items), vec![("GPT-5", "gpt-5", true), ("Mini", "mini", false)]);
    assert_eq!(items(&controls.permission_items), vec![("Read only", "read-only", false), ("Full access", "full", true)]);
    assert_eq!(controls.effort_label, "Effort High");
    assert_eq!(items(&controls.effort_items), vec![("Low", "low", false), ("High", "high", true)]);
    assert!(!controls.can_stop);
    assert!(controls.send_loading);
}

#[test]
fn an_unlisted_model_or_one_without_efforts_offers_the_default_efforts() {
    let models = vec![gpt5(), ModelOption { id: "mini".into(), display_name: "Mini".into(), supported_efforts: Vec::new(), default_effort: "low".into() }];
    for model in ["custom", "mini"] {
        let controls = composer_controls(model, "medium", "x", &models, &Vec::new(), true, false, true);
        let labels: Vec<&str> = controls.effort_items.iter().map(|i| i.label.as_str()).collect();
        assert_eq!(labels, vec!["None", "Minimal", "Low", "Medium", "High", "Xhigh"]);
        assert_eq!(controls.effort_items.iter().filter(|i| i.checked).count(), 1);
        assert!(controls.can_stop);
        assert!(!controls.send_loading);
        assert!(controls.steer_loading);
    }
    assert_eq!(composer_controls("custom", "", "x", &models, &Vec::new(), false, false, false).model_label, "custom");
    let answering = composer_controls("custom", "low", "x", &Vec::new(), &Vec::new(), true, true, false);
    assert!(!answering.can_stop);
    assert!(answering.model_items.is_empty());
    assert_eq!(answering.effort_label, "Effort Low");
}

#[test]
fn whitespace_or_a_message_in_flight_sends_nothing() {
    let mut composer = ComposerState::new();
    assert!(matches!(composer.send::<u32>(false, "  \n", None), ComposerSend::Nothing));
    assert!(matches!(composer.send::<u32>(true, "hello", None), ComposerSend::Nothing));
    assert_eq!(steer_text(true, "go"), None);
    assert_eq!(steer_text(false, " \t"), None);
    assert_eq!(steer_text(false, "  go on "), Some("go on".to_string()));
}

#[test]
fn a_pending_question_takes_the_text_first() {
    let mut composer = ComposerState::new();
    assert!(composer.begin_editing_message(false, Some("thread-1".into()), "turn-2".into(), None));
    match composer.send(false, " yes ", Some((7u32, "q1".to_string()))) {
        ComposerSend::AnswerInput { request_id, question_id, text } => {
            assert_eq!((request_id, question_id.as_str(), text.as_str()), (7, "q1", "yes"));
        }
        _ => panic!("expected an answer"),
    }
    assert!(composer.editing_message.is_some());
}

#[test]
fn an_edited_message_is_replaced_once() {
    let mut composer = ComposerState::new();
    assert!(!composer.begin_editing_message(true, Some("thread-1".into()), "turn-2".into(), None));
    assert!(!composer.begin_editing_message(false, None, "turn-2".into(), None));
    assert!(composer.editing_message.is_none());
    assert!(composer.begin_editing_message(
        false,
        Some("thread-1".into()),
        "turn-2".into(),
        Some("turn-1".into()),
    ));
    match composer.send::<u32>(false, "fixed text\n", None) {
        ComposerSend::SubmitEdited { editing, text } => {
            assert_eq!(editing.source_thread_id, "thread-1");
            assert_eq!(editing.turn_id, "turn-2");
            assert_eq!(editing.previous_turn_id.as_deref(), Some("turn-1"));
            assert_eq!(text, "fixed text");
        }
        _ => panic!("expected an edit"),
    }
    assert!(matches!(
        composer.send::<u32>(false, "next", None),
        ComposerSend::Submit { ref text } if text == "next"
    ));
}

#[test]
fn project_paths_are_trimmed_and_blank_ones_ignored() {
    assert_eq!(project_path_from_input("  /tmp/project \n"), Some("/tmp/project".to_string()));
    assert_eq!(project_path_from_input("   "), None);
}

#[test]
fn the_turn_runs_in_the_active_chat_only_when_the_ids_match() {
    assert!(active_chat_turn_running(Some("a"), Some("a")));
    assert!(!active_chat_turn_running(Some("a"), Some("b")));
    assert!(!active_chat_turn_running(None, Some("a")));
    assert!(!active_chat_turn_running(Some("a"), None));
}

#[test]
fn enter_steers_a_running_turn_unless_answering_or_editing() {
    assert_eq!(enter_action(false, true, false), EnterAction::Steer);
    assert_eq!(enter_action(true, true, false), EnterAction::Send);
    assert_eq!(enter_action(false, true, true), EnterAction::Send);
    assert_eq!(enter_action(false, false, false), EnterAction::Send);
}

#[test]
fn the_panel_header_names_the_active_chat_or_asks_for_one() {
    let header = panel_header(true, false, Some(("t1".into(), "Title".into(), "idle - /r".into())), Some("t1"));
    assert_eq!((header.title.as_str(), header.subtitle.as_str()), ("Title", "idle - /r"));
    assert!(header.thread_loading);
    assert!(!header.new_chat_open);
    let header = panel_header(true, true, Some(("t1".into(), "Title".into(), "s".into())), Some("t1"));
    assert!(header.new_chat_open);
    assert!(!header.thread_loading);
    let header = panel_header(false, true, None, Some("t1"));
    assert_eq!(header.title, "No thread selected");
    assert_eq!(header.subtitle, "Start a Codex thread");
    assert!(!header.new_chat_open);
    assert!(!header.thread_loading);
}
