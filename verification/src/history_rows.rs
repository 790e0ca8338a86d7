//! The rows of a chat's history and the transcript document they become.
//! A completed turn folds into its user message, a summary of the work and
//! the final answer; the reader can expand the summary to see every message
//! of the turn again.
use vstd::prelude::*;
use crate::items::{MessagePhase, ThreadItem};
use crate::projection::{is_final_answer, is_final_answer_spec};
use crate::text::{blank, is_blank};

verus! {

/// What the history reads of one message of a chat.
pub struct HistoryMessage {
    /// Names the message; a summary row names its turn by the id of the
    /// turn's user message.
    pub id: u64,
    /// The key of the message in the transcript.
    pub key: String,
    /// The thread item the message shows, if it shows one.
    pub item: Option<ThreadItem>,
    /// Whether the message is still being streamed.
    pub streaming: bool,
    /// Whether the message has tool calls.
    pub has_tools: bool,
    /// Whether the chat holds the tool calls of the message as done.
    pub tools_done: bool,
    /// When the message was created, in milliseconds.
    pub created_at: u64,
    /// When the message was last updated, in milliseconds.
    pub updated_at: u64,
    /// The rendered text of a message that shows no item.
    pub rendered_body: String,
}

/// How a message row shows its tool calls.
#[derive(Clone, Copy, Debug, PartialEq, Eq, Structural)]
pub struct MessageRenderOptions {
    pub collapse_tools: bool,
    pub hide_tools: bool,
    pub active_tool_tail: bool,
}

impl MessageRenderOptions {
    /// Tools collapsed, shown, and not the running tail.
    pub open spec fn plain() -> Self {
        MessageRenderOptions { collapse_tools: true, hide_tools: false, active_tool_tail: false }
    }
}

impl Default for MessageRenderOptions {
    fn default() -> (r: Self)
        ensures
            r == MessageRenderOptions::plain(),
    {
        MessageRenderOptions { collapse_tools: true, hide_tools: false, active_tool_tail: false }
    }
}

/// A row of the history.
#[derive(Clone, Copy, Debug, PartialEq, Eq, Structural)]
pub enum HistoryRow {
    /// The message at `index` of the chat's messages.
    Message { index: usize, options: MessageRenderOptions },
    /// The summary of a completed turn: how long its work took, and whether
    /// the reader expanded it.
    Summary { turn_id: u64, duration: u64, expanded: bool },
}

/// The row of the message at `index` with its tools shown collapsed.
pub open spec fn message_row(index: int) -> HistoryRow {
    HistoryRow::Message { index: index as usize, options: MessageRenderOptions::plain() }
}

/// Whether the item is a tool call that the history groups.
pub open spec fn is_history_tool_spec(item: ThreadItem) -> bool {
    ||| item is CommandExecution
    ||| item is FileChange
    ||| item is McpToolCall
    ||| item is DynamicToolCall
}

/// Whether the item is a tool call that the history groups.
pub fn is_history_tool(item: &ThreadItem) -> (r: bool)
    ensures
        r == is_history_tool_spec(*item),
{
    match item {
        ThreadItem::CommandExecution { .. } | ThreadItem::FileChange { .. }
        | ThreadItem::McpToolCall { .. } | ThreadItem::DynamicToolCall { .. } => true,
        _ => false,
    }
}

/// Whether the message shows a user message.
pub open spec fn is_user_spec(m: HistoryMessage) -> bool {
    m.item matches Some(ThreadItem::UserMessage { .. })
}

/// Whether the message shows a user message.
pub fn is_user_message(m: &HistoryMessage) -> (r: bool)
    ensures
        r == is_user_spec(*m),
{
    match &m.item {
        Some(ThreadItem::UserMessage { .. }) => true,
        _ => false,
    }
}

/// The first user message at `start` or after.
pub open spec fn first_user_from(msgs: Seq<HistoryMessage>, start: int) -> Option<int>
    decreases msgs.len() - start,
{
    if start < 0 || start >= msgs.len() {
        None
    } else if is_user_spec(msgs[start]) {
        Some(start)
    } else {
        first_user_from(msgs, start + 1)
    }
}

/// The first user message at `start` or after lies in the messages.
pub proof fn lemma_first_user_bounds(msgs: Seq<HistoryMessage>, start: int)
    requires
        0 <= start,
    ensures
        match first_user_from(msgs, start) {
            Some(n) => start <= n < msgs.len() && is_user_spec(msgs[n]),
            None => true,
        },
    decreases msgs.len() - start,
{
    if start < msgs.len() && !is_user_spec(msgs[start]) {
        lemma_first_user_bounds(msgs, start + 1);
    }
}

/// The index of the first user message at `start` or after.
pub fn next_user_index(messages: &[HistoryMessage], start: usize) -> (r: Option<usize>)
    ensures
        match r {
            Some(n) => first_user_from(messages@, start as int) == Some(n as int),
            None => first_user_from(messages@, start as int) is None,
        },
{
    let mut i = start;
    while i < messages.len()
        invariant
            start <= i,
            first_user_from(messages@, start as int) == first_user_from(messages@, i as int),
        decreases messages@.len() - i,
    {
        if is_user_message(&messages[i]) {
            return Some(i);
        }
        i = i + 1;
    }
    None
}

/// Whether the message can close its turn: a complete, final agent message
/// with text, whose tool calls are done.
pub open spec fn closes_turn(m: HistoryMessage) -> bool {
    match m.item {
        Some(ThreadItem::AgentMessage { text, phase, .. }) => {
            &&& !is_blank(text@)
            &&& !m.streaming
            &&& is_final_answer_spec(phase)
            &&& m.tools_done
        },
        _ => false,
    }
}

fn message_closes_turn(m: &HistoryMessage) -> (r: bool)
    ensures
        r == closes_turn(*m),
{
    match &m.item {
        Some(ThreadItem::AgentMessage { text, phase, .. }) => !blank(text.as_str()) && !m.streaming
            && is_final_answer(*phase) && m.tools_done,
        _ => false,
    }
}

/// The last message in `lo..hi` that can close its turn.
pub open spec fn last_closing(msgs: Seq<HistoryMessage>, lo: int, hi: int) -> Option<int>
    decreases hi - lo,
{
    if hi <= lo {
        None
    } else if closes_turn(msgs[hi - 1]) {
        Some(hi - 1)
    } else {
        last_closing(msgs, lo, hi - 1)
    }
}

proof fn lemma_last_closing_bounds(msgs: Seq<HistoryMessage>, lo: int, hi: int)
    ensures
        match last_closing(msgs, lo, hi) {
            Some(f) => lo <= f < hi,
            None => true,
        },
    decreases hi - lo,
{
    if hi > lo && !closes_turn(msgs[hi - 1]) {
        lemma_last_closing_bounds(msgs, lo, hi - 1);
    }
}

/// Whether the message is an agent message or a grouped tool call that is
/// still being streamed.
pub open spec fn is_working(m: HistoryMessage) -> bool {
    m.streaming && match m.item {
        Some(ThreadItem::AgentMessage { .. }) => true,
        Some(item) => is_history_tool_spec(item),
        None => false,
    }
}

/// Whether some message of `lo..hi` is still at work.
pub open spec fn has_working(msgs: Seq<HistoryMessage>, lo: int, hi: int) -> bool {
    exists|i: int| lo <= i < hi && #[trigger] is_working(msgs[i])
}

/// Whether some message of `start..end` is an agent message or a grouped
/// tool call that is still being streamed.
pub fn has_working_message(messages: &[HistoryMessage], start: usize, end: usize) -> (r: bool)
    requires
        start <= end <= messages@.len(),
    ensures
        r == has_working(messages@, start as int, end as int),
{
    let mut i = start;
    while i < end
        invariant
            start <= i <= end <= messages@.len(),
            forall|j: int| start <= j < i ==> !is_working(#[trigger] messages@[j]),
        decreases end - i,
    {
        let m = &messages[i];
        let working = m.streaming && match &m.item {
            Some(ThreadItem::AgentMessage { .. }) => true,
            Some(item) => is_history_tool(item),
            None => false,
        };
        if working {
            assert(is_working(messages@[i as int]));
            return true;
        }
        i = i + 1;
    }
    false
}

/// `a - b`, or zero when `b` is later.
pub open spec fn elapsed(a: u64, b: u64) -> u64 {
    if a >= b {
        (a - b) as u64
    } else {
        0
    }
}

/// How the turn of the user message at `user` folds, when the next turn
/// starts at `next`: the index of its final answer and how long its work
/// took. A turn folds when a message after the user message can close it,
/// no message of the last turn is still at work, and there is more to hide
/// than the final answer alone: another message of the turn, or the
/// answer's tools.
pub open spec fn fold_spec(msgs: Seq<HistoryMessage>, user: int, next: int) -> Option<(int, u64)> {
    match last_closing(msgs, user + 1, next) {
        None => None,
        Some(f) => if next == msgs.len() && has_working(msgs, user + 1, next) {
            None
        } else if next - (user + 1) < 2 && !msgs[f].has_tools {
            None
        } else {
            Some((f, elapsed(msgs[f].updated_at, msgs[user + 1].created_at)))
        },
    }
}

/// A turn folded in the history: its final answer and how long its work took.
pub struct TurnFold {
    pub final_index: usize,
    pub duration: u64,
}

/// How the turn of the user message at `user_index` folds, when the next
/// turn starts at `next_turn`; `None` when it stays open.
pub fn completed_turn_fold(messages: &[HistoryMessage], user_index: usize, next_turn: usize) -> (r:
    Option<TurnFold>)
    requires
        user_index < next_turn <= messages@.len(),
    ensures
        match fold_spec(messages@, user_index as int, next_turn as int) {
            Some((f, d)) => r matches Some(fold) && fold.final_index == f && fold.duration == d,
            None => r is None,
        },
{
    let ghost msgs = messages@;
    let mut i = next_turn;
    let mut found: Option<usize> = None;
    while i > user_index + 1
        invariant_except_break
            found is None,
            last_closing(msgs, user_index + 1, next_turn as int) == last_closing(
                msgs,
                user_index + 1,
                i as int,
            ),
        invariant
            user_index + 1 <= i <= next_turn <= msgs.len(),
            msgs == messages@,
        ensures
            match found {
                Some(f) => last_closing(msgs, user_index + 1, next_turn as int) == Some(f as int),
                None => last_closing(msgs, user_index + 1, next_turn as int) is None,
            },
        decreases i,
    {
        if message_closes_turn(&messages[i - 1]) {
            found = Some(i - 1);
            break;
        }
        i = i - 1;
    }
    proof {
        lemma_last_closing_bounds(msgs, user_index + 1, next_turn as int);
    }
    let final_index = match found {
        Some(f) => f,
        None => {
            return None;
        },
    };
    assert(last_closing(msgs, user_index + 1, next_turn as int) == Some(final_index as int));
    if next_turn == messages.len() && has_working_message(messages, user_index + 1, next_turn) {
        return None;
    }
    // The final answer is one message of the turn; any second one is progress.
    let has_progress = next_turn - (user_index + 1) >= 2;
    if !has_progress && !messages[final_index].has_tools {
        return None;
    }
    let finished = messages[final_index].updated_at;
    let started = messages[user_index + 1].created_at;
    let duration = if finished >= started {
        finished - started
    } else {
        0
    };
    Some(TurnFold { final_index, duration })
}

/// Whether the message at `index` is the last one, still streaming, with
/// tool calls: the running tail of the turn.
pub open spec fn is_tail_spec(msgs: Seq<HistoryMessage>, index: int) -> bool {
    index + 1 == msgs.len() && msgs[index].streaming && msgs[index].has_tools
}

/// Whether the message at `index` is the last one, still streaming, with
/// tool calls.
pub fn is_active_tool_tail(messages: &[HistoryMessage], index: usize) -> (r: bool)
    requires
        index < messages@.len(),
    ensures
        r == is_tail_spec(messages@, index as int),
{
    let count = messages.len();
    if index + 1 != count {
        return false;
    }
    messages[index].streaming && messages[index].has_tools
}

/// Where the turn after the message at `index` starts: at the next user
/// message, or at the end.
pub open spec fn next_turn_spec(msgs: Seq<HistoryMessage>, index: int) -> int {
    match first_user_from(msgs, index + 1) {
        Some(n) => n,
        None => msgs.len() as int,
    }
}

/// The rows of a folded turn: the user message at `index`, the summary, then
/// either every other message of the turn (expanded) or the final answer
/// alone with its tools hidden.
pub open spec fn folded_rows(
    msgs: Seq<HistoryMessage>,
    expanded: Seq<u64>,
    index: int,
    next: int,
    fold: (int, u64),
) -> Seq<HistoryRow> {
    let id = msgs[index].id;
    let open = expanded.contains(id);
    seq![
        message_row(index),
        HistoryRow::Summary { turn_id: id, duration: fold.1, expanded: open },
    ] + if open {
        Seq::new((next - index - 1) as nat, |i: int| message_row(index + 1 + i))
    } else {
        seq![
            HistoryRow::Message {
                index: fold.0 as usize,
                options: MessageRenderOptions {
                    collapse_tools: true,
                    hide_tools: true,
                    active_tool_tail: false,
                },
            },
        ]
    }
}

/// The rows of the messages from `index` on: each user message whose turn
/// folds gives its folded rows and the rows resume at the next turn; any
/// other message gives one row, marked as the running tail when it is.
pub open spec fn rows_spec(msgs: Seq<HistoryMessage>, expanded: Seq<u64>, index: int) -> Seq<
    HistoryRow,
>
    decreases msgs.len() - index,
{
    if index < 0 || index >= msgs.len() {
        Seq::empty()
    } else {
        let next = next_turn_spec(msgs, index);
        let fold = if is_user_spec(msgs[index]) {
            fold_spec(msgs, index, next)
        } else {
            None
        };
        match fold {
            Some(f) => {
                proof {
                    lemma_first_user_bounds(msgs, index + 1);
                }
                folded_rows(msgs, expanded, index, next, f) + rows_spec(msgs, expanded, next)
            },
            None => seq![
                HistoryRow::Message {
                    index: index as usize,
                    options: MessageRenderOptions {
                        collapse_tools: true,
                        hide_tools: false,
                        active_tool_tail: is_tail_spec(msgs, index),
                    },
                },
            ] + rows_spec(msgs, expanded, index + 1),
        }
    }
}

fn contains_id(ids: &Vec<u64>, id: u64) -> (r: bool)
    ensures
        r == ids@.contains(id),
{
    let mut i: usize = 0;
    while i < ids.len()
        invariant
            0 <= i <= ids@.len(),
            forall|j: int| 0 <= j < i ==> ids@[j] != id,
        decreases ids@.len() - i,
    {
        if ids[i] == id {
            return true;
        }
        i = i + 1;
    }
    false
}

/// The rows of the history of `messages`, with the turns whose user message
/// ids are in `expanded_turns` expanded.
pub fn rows_from_messages(messages: &[HistoryMessage], expanded_turns: &Vec<u64>) -> (rows: Vec<
    HistoryRow,
>)
    ensures
        rows@ == rows_spec(messages@, expanded_turns@, 0),
        rows_in(messages@, rows@),
{
    let ghost msgs = messages@;
    let ghost expanded = expanded_turns@;
    let mut rows: Vec<HistoryRow> = Vec::new();
    let mut index: usize = 0;
    while index < messages.len()
        invariant
            msgs == messages@,
            expanded == expanded_turns@,
            index <= msgs.len(),
            rows@ + rows_spec(msgs, expanded, index as int) == rows_spec(msgs, expanded, 0),
        decreases msgs.len() - index,
    {
        let ghost before = rows@;
        let next_turn = match next_user_index(messages, index + 1) {
            Some(n) => n,
            None => messages.len(),
        };
        proof {
            lemma_first_user_bounds(msgs, index + 1);
        }
        assert(next_turn == next_turn_spec(msgs, index as int));
        if is_user_message(&messages[index]) {
            if let Some(fold) = completed_turn_fold(messages, index, next_turn) {
                let turn_id = messages[index].id;
                let open = contains_id(expanded_turns, turn_id);
                rows.push(HistoryRow::Message { index, options: MessageRenderOptions::default() });
                rows.push(HistoryRow::Summary { turn_id, duration: fold.duration, expanded: open });
                let ghost head = rows@;
                if open {
                    let mut i = index + 1;
                    while i < next_turn
                        invariant
                            index + 1 <= i <= next_turn <= msgs.len(),
                            rows@ == head + Seq::new(
                                (i - index - 1) as nat,
                                |k: int| message_row(index + 1 + k),
                            ),
                        decreases next_turn - i,
                    {
                        rows.push(
                            HistoryRow::Message { index: i, options: MessageRenderOptions::default() },
                        );
                        assert(rows@ =~= head + Seq::new(
                            (i + 1 - index - 1) as nat,
                            |k: int| message_row(index + 1 + k),
                        ));
                        i = i + 1;
                    }
                } else {
                    rows.push(
                        HistoryRow::Message {
                            index: fold.final_index,
                            options: MessageRenderOptions {
                                collapse_tools: true,
                                hide_tools: true,
                                active_tool_tail: false,
                            },
                        },
                    );
                }
                let ghost f = (fold.final_index as int, fold.duration);
                assert(rows@ =~= before + folded_rows(msgs, expanded, index as int, next_turn as int, f));
                assert(rows_spec(msgs, expanded, index as int) == folded_rows(
                    msgs,
                    expanded,
                    index as int,
                    next_turn as int,
                    f,
                ) + rows_spec(msgs, expanded, next_turn as int));
                assert(rows@ + rows_spec(msgs, expanded, next_turn as int) =~= before
                    + rows_spec(msgs, expanded, index as int));
                index = next_turn;
                continue;
            }
        }
        let tail = is_active_tool_tail(messages, index);
        rows.push(
            HistoryRow::Message {
                index,
                options: MessageRenderOptions {
                    collapse_tools: true,
                    hide_tools: false,
                    active_tool_tail: tail,
                },
            },
        );
        assert(rows@ + rows_spec(msgs, expanded, index + 1) =~= before + rows_spec(
            msgs,
            expanded,
            index as int,
        ));
        index = index + 1;
    }
    assert(rows@ =~= rows@ + rows_spec(msgs, expanded, index as int));
    proof {
        lemma_rows_in(msgs, expanded, 0);
    }
    rows
}

/// A part of the transcript document of the history.
#[derive(Clone, Debug, PartialEq, Eq)]
pub enum DocumentPart {
    /// Markdown text.
    Markdown(String),
    /// The header above an agent message.
    AssistantHeader { key: String, label: &'static str },
    /// The summary of a folded turn.
    WorkedSummary { turn_id: u64, duration: u64, expanded: bool },
    /// A user message.
    User { key: String },
    /// The tool calls of a message.
    Tools { key: String, collapse: bool, active_tail: bool },
}

/// A part of the transcript document as values.
pub enum PartView {
    Markdown(Seq<char>),
    AssistantHeader { key: Seq<char>, label: Seq<char> },
    WorkedSummary { turn_id: u64, duration: u64, expanded: bool },
    User { key: Seq<char> },
    Tools { key: Seq<char>, collapse: bool, active_tail: bool },
}

impl DocumentPart {
    /// The part as values.
    pub open spec fn view(self) -> PartView {
        match self {
            DocumentPart::Markdown(text) => PartView::Markdown(text@),
            DocumentPart::AssistantHeader { key, label } => PartView::AssistantHeader {
                key: key@,
                label: label@,
            },
            DocumentPart::WorkedSummary { turn_id, duration, expanded } => PartView::WorkedSummary {
                turn_id,
                duration,
                expanded,
            },
            DocumentPart::User { key } => PartView::User { key: key@ },
            DocumentPart::Tools { key, collapse, active_tail } => PartView::Tools {
                key: key@,
                collapse,
                active_tail,
            },
        }
    }
}

/// The parts as values.
pub open spec fn parts_view(parts: Seq<DocumentPart>) -> Seq<PartView> {
    parts.map_values(|p: DocumentPart| p.view())
}

/// The header of an agent message: none for commentary, `Codex` once the
/// message is complete, `Codex is working` while it streams.
pub open spec fn header_parts(
    key: Seq<char>,
    phase: Option<MessagePhase>,
    streaming: bool,
) -> Seq<PartView> {
    if phase == Some(MessagePhase::Commentary) {
        Seq::empty()
    } else if !streaming {
        seq![PartView::AssistantHeader { key, label: "Codex"@ }]
    } else {
        seq![PartView::AssistantHeader { key, label: "Codex is working"@ }]
    }
}

/// The tool calls of the message, unless the row hides them or it has none.
pub open spec fn tool_parts(m: HistoryMessage, options: MessageRenderOptions) -> Seq<PartView> {
    if !options.hide_tools && m.has_tools {
        seq![
            PartView::Tools {
                key: m.key@,
                collapse: options.collapse_tools,
                active_tail: options.active_tool_tail,
            },
        ]
    } else {
        Seq::empty()
    }
}

/// The parts of one row: a summary as itself; a user message as its key; an
/// agent message as its header, its text and its tools; a grouped tool call
/// as its tools; a message without an item as its rendered text; any other
/// item as nothing.
pub open spec fn row_parts(msgs: Seq<HistoryMessage>, row: HistoryRow) -> Seq<PartView> {
    match row {
        HistoryRow::Summary { turn_id, duration, expanded } => seq![
            PartView::WorkedSummary { turn_id, duration, expanded },
        ],
        HistoryRow::Message { index, options } => {
            let m = msgs[index as int];
            match m.item {
                Some(ThreadItem::UserMessage { .. }) => seq![PartView::User { key: m.key@ }],
                Some(ThreadItem::AgentMessage { text, phase, .. }) => header_parts(
                    m.key@,
                    phase,
                    m.streaming,
                ) + seq![PartView::Markdown(text@)] + tool_parts(m, options),
                Some(item) => if is_history_tool_spec(item) {
                    tool_parts(m, options)
                } else {
                    Seq::empty()
                },
                None => seq![PartView::Markdown(m.rendered_body@)],
            }
        },
    }
}

/// The parts of the rows, in order.
pub open spec fn document_spec(msgs: Seq<HistoryMessage>, rows: Seq<HistoryRow>) -> Seq<PartView>
    decreases rows.len(),
{
    if rows.len() == 0 {
        Seq::empty()
    } else {
        document_spec(msgs, rows.drop_last()) + row_parts(msgs, rows.last())
    }
}

/// Whether every message row names a message of `msgs`.
pub open spec fn rows_in(msgs: Seq<HistoryMessage>, rows: Seq<HistoryRow>) -> bool {
    forall|i: int|
        0 <= i < rows.len() ==> match #[trigger] rows[i] {
            HistoryRow::Message { index, .. } => index < msgs.len(),
            HistoryRow::Summary { .. } => true,
        }
}

fn push_tools(parts: &mut Vec<DocumentPart>, m: &HistoryMessage, options: MessageRenderOptions)
    ensures
        parts_view(final(parts)@) == parts_view(old(parts)@) + tool_parts(*m, options),
{
    let ghost before = parts_view(parts@);
    if !options.hide_tools && m.has_tools {
        parts.push(
            DocumentPart::Tools {
                key: m.key.clone(),
                collapse: options.collapse_tools,
                active_tail: options.active_tool_tail,
            },
        );
    }
    assert(parts_view(parts@) =~= before + tool_parts(*m, options));
}

/// The transcript document of the rows of the history of `messages`.
pub fn document_from_rows(messages: &[HistoryMessage], rows: &[HistoryRow]) -> (parts: Vec<
    DocumentPart,
>)
    requires
        rows_in(messages@, rows@),
    ensures
        parts_view(parts@) == document_spec(messages@, rows@),
{
    let mut parts: Vec<DocumentPart> = Vec::new();
    let mut r: usize = 0;
    while r < rows.len()
        invariant
            0 <= r <= rows@.len(),
            rows_in(messages@, rows@),
            parts_view(parts@) == document_spec(messages@, rows@.take(r as int)),
        decreases rows@.len() - r,
    {
        let ghost before = parts_view(parts@);
        let row = rows[r];
        assert(rows@.take(r + 1).drop_last() =~= rows@.take(r as int));
        assert(rows@.take(r + 1).last() == row);
        match row {
            HistoryRow::Summary { turn_id, duration, expanded } => {
                parts.push(DocumentPart::WorkedSummary { turn_id, duration, expanded });
                assert(parts_view(parts@) =~= before + row_parts(messages@, row));
            },
            HistoryRow::Message { index, options } => {
                assert(index < messages@.len());
                let m = &messages[index];
                match &m.item {
                    Some(ThreadItem::UserMessage { .. }) => {
                        parts.push(DocumentPart::User { key: m.key.clone() });
                        assert(parts_view(parts@) =~= before + row_parts(messages@, row));
                    },
                    Some(ThreadItem::AgentMessage { text, phase, .. }) => {
                        let label: Option<&'static str> = match phase {
                            Some(MessagePhase::Commentary) => None,
                            _ => if m.streaming {
                                Some("Codex is working")
                            } else {
                                Some("Codex")
                            },
                        };
                        if let Some(label) = label {
                            parts.push(DocumentPart::AssistantHeader { key: m.key.clone(), label });
                        }
                        assert(parts_view(parts@) =~= before + header_parts(
                            m.key@,
                            *phase,
                            m.streaming,
                        ));
                        let ghost with_header = parts_view(parts@);
                        parts.push(DocumentPart::Markdown(text.clone()));
                        assert(parts_view(parts@) =~= with_header + seq![
                            PartView::Markdown(text@),
                        ]);
                        push_tools(&mut parts, m, options);
                        assert(parts_view(parts@) =~= before + row_parts(messages@, row));
                    },
                    Some(item) => {
                        if is_history_tool(item) {
                            push_tools(&mut parts, m, options);
                        }
                        assert(parts_view(parts@) =~= before + row_parts(messages@, row));
                    },
                    None => {
                        parts.push(DocumentPart::Markdown(m.rendered_body.clone()));
                        assert(parts_view(parts@) =~= before + row_parts(messages@, row));
                    },
                }
            },
        }
        r = r + 1;
    }
    assert(rows@.take(r as int) =~= rows@);
    parts
}

/// The rows that the history builds name only its messages.
pub proof fn lemma_rows_in(msgs: Seq<HistoryMessage>, expanded: Seq<u64>, index: int)
    requires
        0 <= index,
    ensures
        rows_in(msgs, rows_spec(msgs, expanded, index)),
    decreases msgs.len() - index,
{
    if index < msgs.len() {
        let next = next_turn_spec(msgs, index);
        lemma_first_user_bounds(msgs, index + 1);
        let fold = if is_user_spec(msgs[index]) {
            fold_spec(msgs, index, next)
        } else {
            None
        };
        match fold {
            Some(f) => {
                lemma_last_closing_bounds(msgs, index + 1, next);
                lemma_rows_in(msgs, expanded, next);
                let head = folded_rows(msgs, expanded, index, next, f);
                let rest = rows_spec(msgs, expanded, next);
                assert(rows_in(msgs, head));
                assert(rows_spec(msgs, expanded, index) == head + rest);
                assert forall|i: int| 0 <= i < head.len() + rest.len() implies match #[trigger] (
                head + rest)[i] {
                    HistoryRow::Message { index, .. } => index < msgs.len(),
                    HistoryRow::Summary { .. } => true,
                } by {
                    if i >= head.len() {
                        assert((head + rest)[i] == rest[i - head.len()]);
                    } else {
                        assert((head + rest)[i] == head[i]);
                    }
                }
            },
            None => {
                lemma_rows_in(msgs, expanded, index + 1);
                let rest = rows_spec(msgs, expanded, index + 1);
                let head = seq![
                    HistoryRow::Message {
                        index: index as usize,
                        options: MessageRenderOptions {
                            collapse_tools: true,
                            hide_tools: false,
                            active_tool_tail: is_tail_spec(msgs, index),
                        },
                    },
                ];
                assert forall|i: int| 0 <= i < head.len() + rest.len() implies match #[trigger] (
                head + rest)[i] {
                    HistoryRow::Message { index, .. } => index < msgs.len(),
                    HistoryRow::Summary { .. } => true,
                } by {
                    if i >= head.len() {
                        assert((head + rest)[i] == rest[i - head.len()]);
                    } else {
                        assert((head + rest)[i] == head[i]);
                    }
                }
            },
        }
    }
}

/// The messages that the rows show, in order.
pub open spec fn shown_messages(rows: Seq<HistoryRow>) -> Seq<int>
    decreases rows.len(),
{
    if rows.len() == 0 {
        Seq::empty()
    } else {
        shown_messages(rows.drop_last()) + match rows.last() {
            HistoryRow::Message { index, .. } => seq![index as int],
            HistoryRow::Summary { .. } => Seq::empty(),
        }
    }
}

proof fn lemma_shown_concat(a: Seq<HistoryRow>, b: Seq<HistoryRow>)
    ensures
        shown_messages(a + b) == shown_messages(a) + shown_messages(b),
    decreases b.len(),
{
    if b.len() == 0 {
        assert(a + b =~= a);
        assert(shown_messages(a) + shown_messages(b) =~= shown_messages(a));
    } else {
        assert((a + b).drop_last() =~= a + b.drop_last());
        assert((a + b).last() == b.last());
        lemma_shown_concat(a, b.drop_last());
        let tail = match b.last() {
            HistoryRow::Message { index, .. } => seq![index as int],
            HistoryRow::Summary { .. } => Seq::<int>::empty(),
        };
        assert(shown_messages(a) + shown_messages(b.drop_last()) + tail =~= shown_messages(a) + (
        shown_messages(b.drop_last()) + tail));
    }
}

proof fn lemma_shown_range(lo: int, hi: int)
    requires
        0 <= lo <= hi,
        hi <= usize::MAX + 1,
    ensures
        shown_messages(Seq::new((hi - lo) as nat, |k: int| message_row(lo + k))) =~= Seq::new(
            (hi - lo) as nat,
            |k: int| lo + k,
        ),
    decreases hi - lo,
{
    let rows = Seq::new((hi - lo) as nat, |k: int| message_row(lo + k));
    if hi > lo {
        lemma_shown_range(lo, hi - 1);
        assert(rows.drop_last() =~= Seq::new((hi - 1 - lo) as nat, |k: int| message_row(lo + k)));
        assert(rows.last() == message_row(hi - 1));
    }
}

/// Whether every turn's user message is expanded.
pub open spec fn all_turns_expanded(msgs: Seq<HistoryMessage>, expanded: Seq<u64>) -> bool {
    forall|j: int| 0 <= j < msgs.len() && is_user_spec(#[trigger] msgs[j]) ==> expanded.contains(
        msgs[j].id,
    )
}

/// Law: with every turn expanded, the history shows each message once, in
/// order: folding hides messages only while a turn is folded.
pub proof fn law_expanded_history_shows_every_message(
    msgs: Seq<HistoryMessage>,
    expanded: Seq<u64>,
    index: int,
)
    requires
        0 <= index <= msgs.len(),
        msgs.len() <= usize::MAX,
        all_turns_expanded(msgs, expanded),
    ensures
        shown_messages(rows_spec(msgs, expanded, index)) =~= Seq::new(
            (msgs.len() - index) as nat,
            |k: int| index + k,
        ),
    decreases msgs.len() - index,
{
    if index == msgs.len() {
        assert(shown_messages(rows_spec(msgs, expanded, index)) =~= Seq::<int>::empty());
    } else {
        let next = next_turn_spec(msgs, index);
        lemma_first_user_bounds(msgs, index + 1);
        let fold = if is_user_spec(msgs[index]) {
            fold_spec(msgs, index, next)
        } else {
            None
        };
        match fold {
            Some(f) => {
                law_expanded_history_shows_every_message(msgs, expanded, next);
                assert(expanded.contains(msgs[index].id));
                let body = Seq::new((next - index - 1) as nat, |i: int| message_row(index + 1 + i));
                let head = seq![
                    message_row(index),
                    HistoryRow::Summary {
                        turn_id: msgs[index].id,
                        duration: f.1,
                        expanded: true,
                    },
                ];
                assert(folded_rows(msgs, expanded, index, next, f) == head + body);
                lemma_shown_concat(head + body, rows_spec(msgs, expanded, next));
                lemma_shown_concat(head, body);
                lemma_shown_range(index + 1, next);
                assert(head.drop_last() =~= seq![message_row(index)]);
                assert(seq![message_row(index)].drop_last() =~= Seq::<HistoryRow>::empty());
                assert((index as usize) as int == index);
                assert(shown_messages(Seq::<HistoryRow>::empty()) =~= Seq::<int>::empty());
                assert(shown_messages(seq![message_row(index)]) =~= Seq::<int>::empty() + seq![
                    index,
                ]);
                assert(shown_messages(head) =~= seq![index]);
            },
            None => {
                law_expanded_history_shows_every_message(msgs, expanded, index + 1);
                let head = seq![
                    HistoryRow::Message {
                        index: index as usize,
                        options: MessageRenderOptions {
                            collapse_tools: true,
                            hide_tools: false,
                            active_tool_tail: is_tail_spec(msgs, index),
                        },
                    },
                ];
                lemma_shown_concat(head, rows_spec(msgs, expanded, index + 1));
                assert(head.drop_last() =~= Seq::<HistoryRow>::empty());
                assert((index as usize) as int == index);
                assert(shown_messages(Seq::<HistoryRow>::empty()) =~= Seq::<int>::empty());
                assert(shown_messages(head) =~= Seq::<int>::empty() + seq![index]);
            },
        }
    }
}

} // verus!
