//! What the chat panel's composer does with what the user typed: answer a
//! pending question, replace an edited message, start or steer a turn, or
//! add a project.
use vstd::prelude::*;
use vstd::string::StringExecFns;
use crate::approvals::{title_case, title_case_spec};
use crate::bridge::ModelOption;
use crate::text::{str_eq, trim, trim_spec};

verus! {

/// A message of the active chat that the user is editing.
pub struct EditingMessage {
    /// The thread the edited message belongs to.
    pub source_thread_id: String,
    /// The turn of the edited message.
    pub turn_id: String,
    /// The turn before it, if any.
    pub previous_turn_id: Option<String>,
}

/// What sending the composer's text does. `R` is the id of a request of the
/// app server.
pub enum ComposerSend<R> {
    /// Nothing: a message of the chat is still being sent, or the composer
    /// holds only whitespace.
    Nothing,
    /// The text answers the chat's pending free-form question.
    AnswerInput { request_id: R, question_id: String, text: String },
    /// The text replaces the edited message.
    SubmitEdited { editing: EditingMessage, text: String },
    /// The text starts a new turn, with the send animation.
    Submit { text: String },
}

/// Whether the composer's text is taken: nothing is being sent and it has
/// more than whitespace. The composer is then cleared.
pub open spec fn takes_text(sending: bool, input: Seq<char>) -> bool {
    !sending && trim_spec(input).len() > 0
}

/// What the composer keeps between sends: the message being edited, if any.
pub struct ComposerState {
    pub editing_message: Option<EditingMessage>,
}

impl ComposerState {
    /// Nothing is being edited.
    pub fn new() -> (r: Self)
        ensures
            r.editing_message is None,
    {
        ComposerState { editing_message: None }
    }

    /// The user sent `input` while `sending` tells whether a message of the
    /// chat is still being sent and `pending_input` is the chat's pending
    /// free-form question. The trimmed text answers the question if there is
    /// one; else it replaces the edited message, which is no longer edited;
    /// else it starts a turn.
    pub fn send<R>(&mut self, sending: bool, input: &str, pending_input: Option<(R, String)>) -> (r:
        ComposerSend<R>)
        ensures
            !takes_text(sending, input@) ==> r is Nothing,
            !takes_text(sending, input@) ==> final(self).editing_message == old(
                self,
            ).editing_message,
            takes_text(sending, input@) ==> match pending_input {
                Some((request_id, question_id)) => {
                    &&& r matches ComposerSend::AnswerInput { request_id: rid, question_id: qid, text }
                    &&& rid == request_id
                    &&& qid@ == question_id@
                    &&& text@ == trim_spec(input@)
                    &&& final(self).editing_message == old(self).editing_message
                },
                None => {
                    &&& final(self).editing_message is None
                    &&& match old(self).editing_message {
                        Some(editing) => r matches ComposerSend::SubmitEdited { editing: e, text }
                            && e == editing && text@ == trim_spec(input@),
                        None => r matches ComposerSend::Submit { text } && text@ == trim_spec(
                            input@,
                        ),
                    }
                },
            },
    {
        if sending {
            return ComposerSend::Nothing;
        }
        let text = trim(input);
        if text.as_str().is_empty() {
            return ComposerSend::Nothing;
        }
        if let Some((request_id, question_id)) = pending_input {
            return ComposerSend::AnswerInput { request_id, question_id, text };
        }
        match self.editing_message.take() {
            Some(editing) => ComposerSend::SubmitEdited { editing, text },
            None => ComposerSend::Submit { text },
        }
    }

    /// The user asked to edit the message of turn `turn_id` of the active
    /// chat `active_chat_id`. Nothing happens while the chat's turn runs or
    /// when no chat is active; else the message is edited and the result
    /// says to put its body in the composer.
    pub fn begin_editing_message(
        &mut self,
        turn_running: bool,
        active_chat_id: Option<String>,
        turn_id: String,
        previous_turn_id: Option<String>,
    ) -> (begun: bool)
        ensures
            begun == (!turn_running && active_chat_id is Some),
            begun ==> final(self).editing_message == Some(
                EditingMessage {
                    source_thread_id: active_chat_id->0,
                    turn_id,
                    previous_turn_id,
                },
            ),
            !begun ==> final(self).editing_message == old(self).editing_message,
    {
        if turn_running {
            return false;
        }
        match active_chat_id {
            Some(source_thread_id) => {
                self.editing_message = Some(
                    EditingMessage { source_thread_id, turn_id, previous_turn_id },
                );
                true
            },
            None => false,
        }
    }
}

/// The text that steers the running turn: the trimmed input, unless a
/// message is still being sent or it is only whitespace. The composer is
/// cleared when there is one.
pub fn steer_text(sending: bool, input: &str) -> (r: Option<String>)
    ensures
        match r {
            Some(text) => takes_text(sending, input@) && text@ == trim_spec(input@),
            None => !takes_text(sending, input@),
        },
{
    if sending {
        return None;
    }
    let text = trim(input);
    if text.as_str().is_empty() {
        None
    } else {
        Some(text)
    }
}

/// The path of a project to add: the trimmed input, unless it is only
/// whitespace. The input is cleared when there is one.
pub fn project_path_from_input(input: &str) -> (r: Option<String>)
    ensures
        match r {
            Some(path) => trim_spec(input@).len() > 0 && path@ == trim_spec(input@),
            None => trim_spec(input@).len() == 0,
        },
{
    let path = trim(input);
    if path.as_str().is_empty() {
        None
    } else {
        Some(path)
    }
}

/// Whether the running turn belongs to the active chat.
pub fn active_chat_turn_running(
    active_chat_id: Option<&str>,
    active_turn_thread_id: Option<&str>,
) -> (r: bool)
    ensures
        r == (active_chat_id matches Some(c) && active_turn_thread_id matches Some(t) && c@
            == t@),
{
    match (active_chat_id, active_turn_thread_id) {
        (Some(c), Some(t)) => str_eq(c, t),
        _ => false,
    }
}

/// An entry of a settings menu: what it shows, the value it picks, and
/// whether it is the current one.
pub struct MenuItem {
    pub label: String,
    pub value: String,
    pub checked: bool,
}

/// A menu entry as values.
pub open spec fn item_view(item: MenuItem) -> (Seq<char>, Seq<char>, bool) {
    (item.label@, item.value@, item.checked)
}

/// Menu entries as values.
pub open spec fn items_view(items: Seq<MenuItem>) -> Seq<(Seq<char>, Seq<char>, bool)> {
    items.map_values(|item: MenuItem| item_view(item))
}

/// What the composer's controls show.
pub struct ComposerControls {
    /// The label of the model button.
    pub model_label: String,
    /// The models to pick from; while there are none the menu says it is
    /// loading them.
    pub model_items: Vec<MenuItem>,
    /// The permission profiles to pick from.
    pub permission_items: Vec<MenuItem>,
    /// The label of the effort button.
    pub effort_label: String,
    /// The efforts to pick from.
    pub effort_items: Vec<MenuItem>,
    /// Whether the running turn can be stopped (and steered): the send
    /// button becomes a stop button and a steer button shows.
    pub can_stop: bool,
    /// Whether the send button shows that a message is being sent.
    pub send_loading: bool,
    /// Whether the steer button shows that a message is being sent.
    pub steer_loading: bool,
}

/// The efforts offered when the model names none.
pub open spec fn default_efforts() -> Seq<Seq<char>> {
    seq!["none"@, "minimal"@, "low"@, "medium"@, "high"@, "xhigh"@]
}

/// The position of the first model with id `id`.
pub open spec fn model_index(models: Seq<ModelOption>, id: Seq<char>, from: int) -> Option<int>
    decreases models.len() - from,
{
    if from < 0 || from >= models.len() {
        None
    } else if models[from].id@ == id {
        Some(from)
    } else {
        model_index(models, id, from + 1)
    }
}

/// The label of the model button: the chosen model's display name, or its
/// id when it is not listed.
pub open spec fn model_label_spec(models: Seq<ModelOption>, model: Seq<char>) -> Seq<char> {
    match model_index(models, model, 0) {
        Some(i) => models[i].display_name@,
        None => model,
    }
}

/// The efforts offered: those of the chosen model when it is listed and
/// names some, else the default ones.
pub open spec fn effort_options_spec(models: Seq<ModelOption>, model: Seq<char>) -> Seq<Seq<char>> {
    match model_index(models, model, 0) {
        Some(i) => if models[i].supported_efforts@.len() > 0 {
            models[i].supported_efforts.deep_view()
        } else {
            default_efforts()
        },
        None => default_efforts(),
    }
}

fn find_model(models: &Vec<ModelOption>, id: &str) -> (r: Option<usize>)
    ensures
        match r {
            Some(i) => model_index(models@, id@, 0) == Some(i as int) && i < models@.len(),
            None => model_index(models@, id@, 0) is None,
        },
{
    let mut i: usize = 0;
    while i < models.len()
        invariant
            0 <= i <= models@.len(),
            model_index(models@, id@, 0) == model_index(models@, id@, i as int),
        decreases models@.len() - i,
    {
        if str_eq(models[i].id.as_str(), id) {
            return Some(i);
        }
        i = i + 1;
    }
    None
}

fn clone_strings(v: &Vec<String>) -> (r: Vec<String>)
    ensures
        r.deep_view() == v.deep_view(),
{
    let mut r: Vec<String> = Vec::new();
    let mut i: usize = 0;
    while i < v.len()
        invariant
            0 <= i <= v@.len(),
            r.deep_view() == v.deep_view().take(i as int),
        decreases v@.len() - i,
    {
        let ghost prev = r.deep_view();
        let item = v[i].clone();
        assert(item@ == v@[i as int]@);
        r.push(item);
        assert(r.deep_view() =~= prev.push(v@[i as int]@));
        assert(v.deep_view().take(i + 1) =~= v.deep_view().take(i as int).push(v@[i as int]@));
        i = i + 1;
    }
    assert(v.deep_view().take(v@.len() as int) =~= v.deep_view());
    r
}

/// What the composer's controls show for the chosen `model`, `effort` and
/// `permission_profile`, the listed `models` and `permission_profiles`
/// (id and label), and whether a turn of the active chat runs, whether the
/// chat waits for a free-form answer and whether a message is being sent.
pub fn composer_controls(
    model: &str,
    effort: &str,
    permission_profile: &str,
    models: &Vec<ModelOption>,
    permission_profiles: &Vec<(String, String)>,
    turn_running: bool,
    answering_input: bool,
    sending: bool,
) -> (r: ComposerControls)
    ensures
        r.model_label@ == model_label_spec(models@, model@),
        items_view(r.model_items@) == models@.map_values(
            |m: ModelOption| (m.display_name@, m.id@, m.id@ == model@),
        ),
        items_view(r.permission_items@) == permission_profiles@.map_values(
            |p: (String, String)| (p.1@, p.0@, p.0@ == permission_profile@),
        ),
        r.effort_label@ == "Effort "@ + title_case_spec(effort@),
        items_view(r.effort_items@) == effort_options_spec(models@, model@).map_values(
            |e: Seq<char>| (title_case_spec(e), e, e == effort@),
        ),
        r.can_stop == (turn_running && !answering_input),
        r.send_loading == (!r.can_stop && sending),
        r.steer_loading == sending,
{
    let found = find_model(models, model);
    let model_label = match found {
        Some(i) => models[i].display_name.clone(),
        None => model.to_string(),
    };
    let mut model_items: Vec<MenuItem> = Vec::new();
    let mut i: usize = 0;
    while i < models.len()
        invariant
            0 <= i <= models@.len(),
            items_view(model_items@) == models@.take(i as int).map_values(
                |m: ModelOption| (m.display_name@, m.id@, m.id@ == model@),
            ),
        decreases models@.len() - i,
    {
        let checked = str_eq(models[i].id.as_str(), model);
        let ghost prev = items_view(model_items@);
        let ghost m = models@[i as int];
        model_items.push(
            MenuItem { label: models[i].display_name.clone(), value: models[i].id.clone(), checked },
        );
        assert(items_view(model_items@) =~= prev.push((m.display_name@, m.id@, m.id@ == model@)));
        assert(models@.take(i + 1) =~= models@.take(i as int).push(m));
        assert(items_view(model_items@) =~= models@.take(i + 1).map_values(
            |m: ModelOption| (m.display_name@, m.id@, m.id@ == model@),
        ));
        i = i + 1;
    }
    assert(models@.take(models@.len() as int) =~= models@);
    let mut permission_items: Vec<MenuItem> = Vec::new();
    let mut k: usize = 0;
    while k < permission_profiles.len()
        invariant
            0 <= k <= permission_profiles@.len(),
            items_view(permission_items@) == permission_profiles@.take(k as int).map_values(
                |p: (String, String)| (p.1@, p.0@, p.0@ == permission_profile@),
            ),
        decreases permission_profiles@.len() - k,
    {
        let checked = str_eq(permission_profiles[k].0.as_str(), permission_profile);
        let ghost prev = items_view(permission_items@);
        let ghost p = permission_profiles@[k as int];
        permission_items.push(
            MenuItem {
                label: permission_profiles[k].1.clone(),
                value: permission_profiles[k].0.clone(),
                checked,
            },
        );
        assert(items_view(permission_items@) =~= prev.push((p.1@, p.0@, p.0@ == permission_profile@)));
        assert(permission_profiles@.take(k + 1) =~= permission_profiles@.take(k as int).push(p));
        assert(items_view(permission_items@) =~= permission_profiles@.take(k + 1).map_values(
            |p: (String, String)| (p.1@, p.0@, p.0@ == permission_profile@),
        ));
        k = k + 1;
    }
    assert(permission_profiles@.take(permission_profiles@.len() as int) =~= permission_profiles@);
    let options: Vec<String> = match found {
        Some(i) if models[i].supported_efforts.len() > 0 => clone_strings(
            &models[i].supported_efforts,
        ),
        _ => {
            proof {
                reveal_strlit("none");
                reveal_strlit("minimal");
                reveal_strlit("low");
                reveal_strlit("medium");
                reveal_strlit("high");
                reveal_strlit("xhigh");
            }
            let defaults = vec![
                String::from_str("none"),
                String::from_str("minimal"),
                String::from_str("low"),
                String::from_str("medium"),
                String::from_str("high"),
                String::from_str("xhigh"),
            ];
            assert(defaults.deep_view() =~= default_efforts());
            defaults
        },
    };
    assert(options.deep_view() == effort_options_spec(models@, model@));
    let mut effort_items: Vec<MenuItem> = Vec::new();
    let mut e: usize = 0;
    while e < options.len()
        invariant
            0 <= e <= options@.len(),
            options.deep_view() == effort_options_spec(models@, model@),
            items_view(effort_items@) == options.deep_view().take(e as int).map_values(
                |o: Seq<char>| (title_case_spec(o), o, o == effort@),
            ),
        decreases options@.len() - e,
    {
        let label = title_case(options[e].as_str());
        let checked = str_eq(options[e].as_str(), effort);
        let ghost prev = items_view(effort_items@);
        let ghost o = options@[e as int]@;
        effort_items.push(MenuItem { label, value: options[e].clone(), checked });
        assert(options.deep_view()[e as int] == o);
        assert(items_view(effort_items@) =~= prev.push((title_case_spec(o), o, o == effort@)));
        assert(options.deep_view().take(e + 1) =~= options.deep_view().take(e as int).push(o));
        assert(items_view(effort_items@) =~= options.deep_view().take(e + 1).map_values(
            |o: Seq<char>| (title_case_spec(o), o, o == effort@),
        ));
        e = e + 1;
    }
    assert(options.deep_view().take(options@.len() as int) =~= options.deep_view());
    let mut effort_label = String::from_str("Effort ");
    let effort_title = title_case(effort);
    effort_label.append(effort_title.as_str());
    let can_stop = turn_running && !answering_input;
    ComposerControls {
        model_label,
        model_items,
        permission_items,
        effort_label,
        effort_items,
        can_stop,
        send_loading: !can_stop && sending,
        steer_loading: sending,
    }
}

/// What Enter in the composer does.
#[derive(Clone, Copy, Debug, PartialEq, Eq, Structural)]
pub enum EnterAction {
    Send,
    Steer,
}

/// What Enter in the composer does: it sends when the chat waits for a
/// free-form answer; it steers the running turn unless a message is being
/// edited; else it sends.
pub fn enter_action(answering_input: bool, turn_running: bool, editing: bool) -> (r: EnterAction)
    ensures
        r == if !answering_input && turn_running && !editing {
            EnterAction::Steer
        } else {
            EnterAction::Send
        },
{
    if answering_input {
        EnterAction::Send
    } else if turn_running && !editing {
        EnterAction::Steer
    } else {
        EnterAction::Send
    }
}

/// What the header of the chat panel shows.
pub struct PanelHeader {
    pub title: String,
    pub subtitle: String,
    /// Whether the panel shows that the active thread is loading.
    pub thread_loading: bool,
    /// Whether the panel shows the new-chat page.
    pub new_chat_open: bool,
}

/// The header of the chat panel: the active chat's title and subtitle, or
/// a prompt to start a thread when none is active. The new-chat page shows
/// only while a project is active; the active thread shows as loading when
/// it is the thread being loaded and the new-chat page is not shown.
pub fn panel_header(
    has_project: bool,
    new_chat_requested: bool,
    active_chat: Option<(String, String, String)>,
    loading_thread_id: Option<&str>,
) -> (r: PanelHeader)
    ensures
        r.new_chat_open == (has_project && new_chat_requested),
        match active_chat {
            Some((id, title, subtitle)) => {
                &&& r.title@ == title@
                &&& r.subtitle@ == subtitle@
                &&& r.thread_loading == (!r.new_chat_open && (loading_thread_id matches Some(l)
                    && l@ == id@))
            },
            None => {
                &&& r.title@ == "No thread selected"@
                &&& r.subtitle@ == "Start a Codex thread"@
                &&& !r.thread_loading
            },
        },
{
    let new_chat_open = has_project && new_chat_requested;
    match active_chat {
        Some((id, title, subtitle)) => {
            let thread_loading = !new_chat_open && match loading_thread_id {
                Some(l) => str_eq(l, id.as_str()),
                None => false,
            };
            PanelHeader { title, subtitle, thread_loading, new_chat_open }
        },
        None => PanelHeader {
            title: String::from_str("No thread selected"),
            subtitle: String::from_str("Start a Codex thread"),
            thread_loading: false,
            new_chat_open,
        },
    }
}

} // verus!
