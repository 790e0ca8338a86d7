//! How the app routes what the user submits: a first prompt starts a thread
//! behind a placeholder chat, a later one is sent to the active thread, an
//! edited message forks the thread before it.
use vstd::prelude::*;
use vstd::string::StringExecFns;
use crate::text::{chars_of, match_at, matches_at, str_eq};
use crate::thread_mapping::should_start_thread_for_turn;

verus! {

/// The id of the chat that stands for a thread not yet loaded.
pub const EMPTY_CHAT_ID: &'static str = "empty";

/// The start of the id of the chat that stands for a thread being started.
pub const PENDING_CHAT_PREFIX: &'static str = "pending-";

/// Whether the chat `id` stands in for a thread: the empty chat, or a chat
/// whose thread is being started.
pub open spec fn is_placeholder_spec(id: Seq<char>) -> bool {
    id == EMPTY_CHAT_ID@ || matches_at(id, PENDING_CHAT_PREFIX@, 0)
}

/// Whether the chat `id` stands in for a thread.
pub fn is_placeholder_chat(id: &str) -> (r: bool)
    ensures
        r == is_placeholder_spec(id@),
{
    let chars = chars_of(id);
    let prefix = chars_of(PENDING_CHAT_PREFIX);
    str_eq(id, EMPTY_CHAT_ID) || match_at(&chars, &prefix, 0)
}

/// The id of the placeholder chat of a thread started for the message
/// `client_user_message_id`.
pub fn pending_chat_id(client_user_message_id: &str) -> (r: String)
    ensures
        r@ == PENDING_CHAT_PREFIX@ + client_user_message_id@,
{
    let mut id = String::from_str(PENDING_CHAT_PREFIX);
    id.append(client_user_message_id);
    id
}

/// The subtitle of a placeholder chat while its thread starts in `cwd`.
pub fn starting_subtitle(cwd: &str) -> (r: String)
    ensures
        r@ == "starting - "@ + cwd@,
{
    let mut subtitle = String::from_str("starting - ");
    subtitle.append(cwd);
    subtitle
}

/// The positions of the chats of a project that stay when a placeholder
/// chat for a new thread goes first: every chat that is not a placeholder,
/// in order.
pub fn chats_kept_for_pending(chat_ids: &Vec<String>) -> (kept: Vec<usize>)
    ensures
        kept@.len() <= chat_ids@.len(),
        forall|i: int| 0 <= i < kept@.len() ==> kept@[i] < chat_ids@.len(),
        forall|i: int, j: int| 0 <= i < j < kept@.len() ==> kept@[i] < kept@[j],
        forall|k: int|
            0 <= k < chat_ids@.len() ==> (kept@.contains(k as usize) <==> !is_placeholder_spec(
                chat_ids@[k]@,
            )),
{
    let mut kept: Vec<usize> = Vec::new();
    let mut k: usize = 0;
    while k < chat_ids.len()
        invariant
            0 <= k <= chat_ids@.len(),
            kept@.len() <= k,
            forall|i: int| 0 <= i < kept@.len() ==> kept@[i] < k,
            forall|i: int, j: int| 0 <= i < j < kept@.len() ==> kept@[i] < kept@[j],
            forall|c: int|
                0 <= c < k ==> (kept@.contains(c as usize) <==> !is_placeholder_spec(
                    chat_ids@[c]@,
                )),
        decreases chat_ids@.len() - k,
    {
        let ghost before = kept@;
        if !is_placeholder_chat(chat_ids[k].as_str()) {
            kept.push(k);
            proof {
                assert(kept@[kept@.len() - 1] == k);
                assert forall|c: int| 0 <= c < k + 1 implies (kept@.contains(c as usize)
                    <==> !is_placeholder_spec(chat_ids@[c]@)) by {
                    if c < k {
                        if before.contains(c as usize) {
                            let i = choose|i: int| 0 <= i < before.len() && before[i] == c as usize;
                            assert(kept@[i] == c as usize);
                        }
                        if kept@.contains(c as usize) {
                            let i = choose|i: int| 0 <= i < kept@.len() && kept@[i] == c as usize;
                            assert(i < before.len());
                            assert(before[i] == c as usize);
                        }
                    } else {
                        assert(kept@[kept@.len() - 1] == c as usize);
                    }
                }
            }
        } else {
            proof {
                assert forall|c: int| 0 <= c < k + 1 implies (kept@.contains(c as usize)
                    <==> !is_placeholder_spec(chat_ids@[c]@)) by {
                    if c == k && kept@.contains(c as usize) {
                        let i = choose|i: int| 0 <= i < kept@.len() && kept@[i] == c as usize;
                        assert(kept@[i] < k);
                    }
                }
            }
        }
        k = k + 1;
    }
    kept
}

/// What a composer submission does.
#[derive(Clone, Copy, Debug, PartialEq, Eq, Structural)]
pub enum SubmitPlan {
    /// Nothing: a turn runs, a thread is being started, or a thread should
    /// start but no project is active.
    Ignore,
    /// A placeholder chat takes the message and a thread is started in the
    /// active project.
    StartThread,
    /// The message is sent as a turn of the active thread.
    SendTurn,
}

/// What a composer submission does, given whether a turn runs, whether a
/// thread is being started, whether the new-chat page is open, the active
/// chat's thread and whether a project is active.
pub fn submit_plan(
    turn_running: bool,
    thread_starting: bool,
    new_chat_open: bool,
    active_thread_id: Option<&str>,
    has_project: bool,
) -> (r: SubmitPlan)
    ensures
        r == if turn_running || thread_starting {
            SubmitPlan::Ignore
        } else if new_chat_open || active_thread_id is None {
            if has_project {
                SubmitPlan::StartThread
            } else {
                SubmitPlan::Ignore
            }
        } else {
            SubmitPlan::SendTurn
        },
{
    if turn_running || thread_starting {
        return SubmitPlan::Ignore;
    }
    if should_start_thread_for_turn(new_chat_open, active_thread_id) {
        if has_project {
            SubmitPlan::StartThread
        } else {
            SubmitPlan::Ignore
        }
    } else {
        SubmitPlan::SendTurn
    }
}

/// Whether an edited message of `source_thread_id` is resubmitted: no turn
/// runs and its thread is the active chat.
pub open spec fn edit_allowed_spec(
    turn_running: bool,
    active_chat_id: Option<&str>,
    source_thread_id: Seq<char>,
) -> bool {
    !turn_running && (active_chat_id matches Some(a) && a@ == source_thread_id)
}

/// Whether an edited message of `source_thread_id` is resubmitted: no turn
/// runs and its thread is the active chat.
pub fn edit_allowed(turn_running: bool, active_chat_id: Option<&str>, source_thread_id: &str) -> (r:
    bool)
    ensures
        r == edit_allowed_spec(turn_running, active_chat_id, source_thread_id@),
{
    if turn_running {
        return false;
    }
    match active_chat_id {
        Some(a) => str_eq(a, source_thread_id),
        None => false,
    }
}

/// Where the thread of an edited message is forked: through the turn before
/// it when there is one, else before the edited turn itself.
pub fn edit_fork_points(turn_id: String, previous_turn_id: Option<String>) -> (r: (
    Option<String>,
    Option<String>,
))
    ensures
        r.0 == previous_turn_id,
        r.1 == if previous_turn_id is None {
            Some(turn_id)
        } else {
            None
        },
{
    match previous_turn_id {
        Some(previous) => (Some(previous), None),
        None => (None, Some(turn_id)),
    }
}

/// Where an edited message's resubmission stands: the thread is forked
/// before the edited turn, the fork replaces the source thread in the app,
/// the edited message is shown as pending in it, the source thread is
/// deleted, and the message is sent to the fork.
#[derive(Debug, PartialEq, Eq)]
pub enum EditStage {
    Forking,
    Replacing { replacement: String },
    StartingPending { replacement: String },
    DeletingSource { replacement: String },
    Sending { replacement: String },
    Done,
}

/// An edited message on its way: the thread it came from, the id the app
/// gave the message, its new text, and where it stands.
#[derive(Debug, PartialEq, Eq)]
pub struct EditResubmission {
    pub source_thread_id: String,
    pub client_user_message_id: String,
    pub text: String,
    pub stage: EditStage,
}

/// What the app tells the resubmission: how the step it was asked for went.
#[derive(Debug, PartialEq, Eq)]
pub enum EditEvent {
    /// The fork request answered: the fork's thread id, or the error's text.
    Forked(Result<String, String>),
    /// Whether the fork took the source thread's place.
    Replaced(bool),
    /// Whether the edited message was shown as pending in the fork.
    PendingStarted(bool),
    /// The deletion of the source thread answered.
    Deleted(Result<(), String>),
    /// The edited message was sent, or the error's text.
    Sent(Result<(), String>),
}

/// What the app is to do next, in order.
#[derive(Debug, PartialEq, Eq)]
pub enum EditAction {
    /// Fork `thread_id` after the turn `after_turn` or before `before_turn`.
    ForkThread { thread_id: String, after_turn: Option<String>, before_turn: Option<String> },
    /// Put the thread `replacement` in the place of `source`.
    ReplaceThread { source: String, replacement: String },
    /// Show the message as pending in the thread.
    BeginUserMessage { thread_id: String, client_id: String, text: String },
    /// Delete the thread on the server.
    DeleteThread { thread_id: String },
    /// Take the thread out of the app.
    RemoveThread { thread_id: String },
    /// Report an error of the server.
    ShowError { message: String },
    /// Send the message to the thread.
    SendTurn { thread_id: String, client_id: String, text: String },
    /// Settle the pending message with how the sending went.
    ApplySubmissionResult { thread_id: String, client_id: String, result: Result<(), String> },
}

/// The resubmission at `stage`, with the same message.
pub open spec fn at_stage(r: EditResubmission, stage: EditStage) -> EditResubmission {
    EditResubmission { stage, ..r }
}

/// The next stage of `r` and the actions for the app after `event`; an
/// event that does not answer the current stage changes nothing.
pub open spec fn edit_next(r: EditResubmission, event: EditEvent) -> (EditResubmission, Seq<EditAction>) {
    match (r.stage, event) {
        (EditStage::Forking, EditEvent::Forked(Err(message))) => (
            at_stage(r, EditStage::Done),
            seq![EditAction::ShowError { message }],
        ),
        (EditStage::Forking, EditEvent::Forked(Ok(replacement))) => (
            at_stage(r, EditStage::Replacing { replacement }),
            seq![EditAction::ReplaceThread { source: r.source_thread_id, replacement }],
        ),
        (EditStage::Replacing { replacement }, EditEvent::Replaced(replaced)) => if replaced {
            (
                at_stage(r, EditStage::StartingPending { replacement }),
                seq![
                    EditAction::BeginUserMessage {
                        thread_id: replacement,
                        client_id: r.client_user_message_id,
                        text: r.text,
                    },
                ],
            )
        } else {
            (at_stage(r, EditStage::Done), Seq::empty())
        },
        (EditStage::StartingPending { replacement }, EditEvent::PendingStarted(started)) => if started {
            (
                at_stage(r, EditStage::DeletingSource { replacement }),
                seq![EditAction::DeleteThread { thread_id: r.source_thread_id }],
            )
        } else {
            (at_stage(r, EditStage::Done), Seq::empty())
        },
        (EditStage::DeletingSource { replacement }, EditEvent::Deleted(deleted)) => (
            at_stage(r, EditStage::Sending { replacement }),
            seq![
                match deleted {
                    Ok(()) => EditAction::RemoveThread { thread_id: r.source_thread_id },
                    Err(message) => EditAction::ShowError { message },
                },
                EditAction::SendTurn {
                    thread_id: replacement,
                    client_id: r.client_user_message_id,
                    text: r.text,
                },
            ],
        ),
        (EditStage::Sending { replacement }, EditEvent::Sent(result)) => (
            at_stage(r, EditStage::Done),
            seq![
                EditAction::ApplySubmissionResult {
                    thread_id: replacement,
                    client_id: r.client_user_message_id,
                    result,
                },
            ],
        ),
        _ => (r, Seq::empty()),
    }
}

impl EditResubmission {
    /// Starts resubmitting an edited message of `source_thread_id`, when no
    /// turn runs and that thread is the active chat: the first action forks
    /// the thread through the turn before the edited one, or before the
    /// edited turn when it is the first. Otherwise nothing starts.
    pub fn start(
        turn_running: bool,
        active_chat_id: Option<&str>,
        source_thread_id: String,
        turn_id: String,
        previous_turn_id: Option<String>,
        client_user_message_id: String,
        text: String,
    ) -> (r: Option<(EditResubmission, EditAction)>)
        ensures
            edit_allowed_spec(turn_running, active_chat_id, source_thread_id@) <==> r is Some,
            r matches Some((e, fork)) ==> {
                &&& e == (EditResubmission {
                    source_thread_id,
                    client_user_message_id,
                    text,
                    stage: EditStage::Forking,
                })
                &&& fork == (EditAction::ForkThread {
                    thread_id: source_thread_id,
                    after_turn: previous_turn_id,
                    before_turn: if previous_turn_id is None {
                        Some(turn_id)
                    } else {
                        None
                    },
                })
            },
    {
        if !edit_allowed(turn_running, active_chat_id, source_thread_id.as_str()) {
            return None;
        }
        let (after_turn, before_turn) = edit_fork_points(turn_id, previous_turn_id);
        let fork = EditAction::ForkThread {
            thread_id: source_thread_id.clone(),
            after_turn,
            before_turn,
        };
        Some(
            (
                EditResubmission {
                    source_thread_id,
                    client_user_message_id,
                    text,
                    stage: EditStage::Forking,
                },
                fork,
            ),
        )
    }

    /// Takes in how the last step went and gives the next stage with the
    /// actions for the app, as `edit_next` says.
    pub fn step(self, event: EditEvent) -> (r: (EditResubmission, Vec<EditAction>))
        ensures
            (r.0, r.1@) == edit_next(self, event),
    {
        let EditResubmission { source_thread_id, client_user_message_id, text, stage } = self;
        match (stage, event) {
            (EditStage::Forking, EditEvent::Forked(Err(message))) => (
                EditResubmission {
                    source_thread_id,
                    client_user_message_id,
                    text,
                    stage: EditStage::Done,
                },
                vec![EditAction::ShowError { message }],
            ),
            (EditStage::Forking, EditEvent::Forked(Ok(replacement))) => {
                let action = EditAction::ReplaceThread {
                    source: source_thread_id.clone(),
                    replacement: replacement.clone(),
                };
                (
                    EditResubmission {
                        source_thread_id,
                        client_user_message_id,
                        text,
                        stage: EditStage::Replacing { replacement },
                    },
                    vec![action],
                )
            },
            (EditStage::Replacing { replacement }, EditEvent::Replaced(replaced)) => {
                if replaced {
                    let action = EditAction::BeginUserMessage {
                        thread_id: replacement.clone(),
                        client_id: client_user_message_id.clone(),
                        text: text.clone(),
                    };
                    (
                        EditResubmission {
                            source_thread_id,
                            client_user_message_id,
                            text,
                            stage: EditStage::StartingPending { replacement },
                        },
                        vec![action],
                    )
                } else {
                    (
                        EditResubmission {
                            source_thread_id,
                            client_user_message_id,
                            text,
                            stage: EditStage::Done,
                        },
                        Vec::new(),
                    )
                }
            },
            (EditStage::StartingPending { replacement }, EditEvent::PendingStarted(started)) => {
                if started {
                    let action = EditAction::DeleteThread { thread_id: source_thread_id.clone() };
                    (
                        EditResubmission {
                            source_thread_id,
                            client_user_message_id,
                            text,
                            stage: EditStage::DeletingSource { replacement },
                        },
                        vec![action],
                    )
                } else {
                    (
                        EditResubmission {
                            source_thread_id,
                            client_user_message_id,
                            text,
                            stage: EditStage::Done,
                        },
                        Vec::new(),
                    )
                }
            },
            (EditStage::DeletingSource { replacement }, EditEvent::Deleted(deleted)) => {
                let first = match deleted {
                    Ok(()) => EditAction::RemoveThread { thread_id: source_thread_id.clone() },
                    Err(message) => EditAction::ShowError { message },
                };
                let send = EditAction::SendTurn {
                    thread_id: replacement.clone(),
                    client_id: client_user_message_id.clone(),
                    text: text.clone(),
                };
                (
                    EditResubmission {
                        source_thread_id,
                        client_user_message_id,
                        text,
                        stage: EditStage::Sending { replacement },
                    },
                    vec![first, send],
                )
            },
            (EditStage::Sending { replacement }, EditEvent::Sent(result)) => {
                let action = EditAction::ApplySubmissionResult {
                    thread_id: replacement,
                    client_id: client_user_message_id.clone(),
                    result,
                };
                (
                    EditResubmission {
                        source_thread_id,
                        client_user_message_id,
                        text,
                        stage: EditStage::Done,
                    },
                    vec![action],
                )
            },
            (stage, _) => (
                EditResubmission { source_thread_id, client_user_message_id, text, stage },
                Vec::new(),
            ),
        }
    }
}

/// The thread to load when a chat is selected: its thread, unless it is the
/// empty chat's.
pub fn thread_to_load(thread_id: Option<String>) -> (r: Option<String>)
    ensures
        r == match thread_id {
            Some(t) => if t@ == EMPTY_CHAT_ID@ {
                None
            } else {
                Some(t)
            },
            None => None,
        },
{
    match thread_id {
        Some(t) => if str_eq(t.as_str(), EMPTY_CHAT_ID) {
            None
        } else {
            Some(t)
        },
        None => None,
    }
}

/// The thread whose settings follow a change of the chat settings: the
/// active chat's thread, unless the new-chat page is open.
pub fn settings_target(new_chat_open: bool, active_thread_id: Option<String>) -> (r: Option<String>)
    ensures
        r == if new_chat_open {
            None
        } else {
            active_thread_id
        },
{
    if new_chat_open {
        None
    } else {
        active_thread_id
    }
}

} // verus!
