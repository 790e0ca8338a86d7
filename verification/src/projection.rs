//! Projection of a chat onto its transcript: which blocks and markdown the
//! turns, items and pending state of a chat become, in order.
use vstd::prelude::*;
use vstd::string::StringExecFns;
use crate::items::{MessagePhase, ThreadItem, Turn, TurnStatus, UserInput};
use crate::text::{
    contains_string, is_blank, blank, join, join_strings, trim_end, trim_end_spec,
};
use crate::tools::{is_tool_item, is_tool_item_spec, tools_done_in, tools_done_spec};
use crate::transcript::{
    BlockView, HistoryBlock, Push, SnapshotView, TranscriptSnapshot, TurnDuration,
    UserMessageDelivery, apply_push, apply_pushes, lemma_apply_pushes_concat,
};

verus! {

// ---------------------------------------------------------------------------
// Tool groups
// ---------------------------------------------------------------------------

/// Whether the item is reasoning that finished without any text.
pub open spec fn is_completed_empty_reasoning_spec(item: ThreadItem, streaming: bool) -> bool {
    match item {
        ThreadItem::Reasoning { summary, content, .. } => !streaming && all_empty(
            summary.deep_view(),
        ) && all_empty(content.deep_view()),
        _ => false,
    }
}

/// Whether every part is empty.
pub open spec fn all_empty(parts: Seq<Seq<char>>) -> bool {
    forall|i: int| 0 <= i < parts.len() ==> (#[trigger] parts[i]).len() == 0
}

/// Whether every string of `parts` is empty.
fn all_strings_empty(parts: &Vec<String>) -> (r: bool)
    ensures
        r == all_empty(parts.deep_view()),
{
    let mut i: usize = 0;
    while i < parts.len()
        invariant
            0 <= i <= parts@.len(),
            forall|j: int| 0 <= j < i ==> (#[trigger] parts.deep_view()[j]).len() == 0,
        decreases parts@.len() - i,
    {
        assert(parts.deep_view()[i as int] == parts@[i as int]@);
        if !parts[i].as_str().is_empty() {
            return false;
        }
        i = i + 1;
    }
    true
}

/// Whether the item is reasoning that finished without any text.
pub fn is_completed_empty_reasoning(item: &ThreadItem, streaming: bool) -> (r: bool)
    ensures
        r == is_completed_empty_reasoning_spec(*item, streaming),
{
    match item {
        ThreadItem::Reasoning { summary, content, .. } => !streaming && all_strings_empty(summary)
            && all_strings_empty(content),
        _ => false,
    }
}

/// The end of the run from `i` of tool calls and finished empty reasoning, before `end`.
pub open spec fn run_end(items: Seq<ThreadItem>, streaming: Seq<bool>, i: int, end: int) -> int
    decreases end - i,
{
    if 0 <= i < end && (is_tool_item_spec(items[i]) || is_completed_empty_reasoning_spec(
        items[i],
        streaming[i],
    )) {
        run_end(items, streaming, i + 1, end)
    } else {
        i
    }
}

/// The end of the tool group that starts at `start`: `start` itself when
/// the item there is no tool call, else the end of the run of tool calls
/// and finished empty reasoning from there, before `end`.
pub open spec fn tool_group_end_spec(
    items: Seq<ThreadItem>,
    streaming: Seq<bool>,
    start: int,
    end: int,
) -> int {
    if 0 <= start < end && is_tool_item_spec(items[start]) {
        run_end(items, streaming, start, end)
    } else {
        start
    }
}

/// A run ends at or after where it starts, and not after `end`.
pub proof fn lemma_run_end_bounds(items: Seq<ThreadItem>, streaming: Seq<bool>, i: int, end: int)
    requires
        0 <= i <= end,
    ensures
        i <= run_end(items, streaming, i, end) <= end,
    decreases end - i,
{
    if i < end && (is_tool_item_spec(items[i]) || is_completed_empty_reasoning_spec(
        items[i],
        streaming[i],
    )) {
        lemma_run_end_bounds(items, streaming, i + 1, end);
    }
}

/// A tool group ends after its first item, when it has one.
pub proof fn lemma_tool_group_end_bounds(
    items: Seq<ThreadItem>,
    streaming: Seq<bool>,
    start: int,
    end: int,
)
    requires
        0 <= start <= end,
    ensures
        start <= tool_group_end_spec(items, streaming, start, end) <= end,
        start < end && is_tool_item_spec(items[start]) ==> start < tool_group_end_spec(
            items,
            streaming,
            start,
            end,
        ),
{
    lemma_run_end_bounds(items, streaming, start, end);
    if 0 <= start < end && is_tool_item_spec(items[start]) {
        lemma_run_end_bounds(items, streaming, start + 1, end);
    }
}

/// The end of the tool group that starts at `start`: tool calls grouped
/// with the finished, empty reasoning between them.
pub fn tool_group_end(items: &[ThreadItem], start: usize, streaming: &[bool]) -> (r: usize)
    requires
        streaming@.len() == items@.len(),
    ensures
        r == tool_group_end_spec(items@, streaming@, start as int, items@.len() as int),
{
    if start >= items.len() || !is_tool_item(&items[start]) {
        return start;
    }
    let mut end = start;
    while end < items.len() && (is_tool_item(&items[end]) || is_completed_empty_reasoning(
        &items[end],
        streaming[end],
    ))
        invariant
            start <= end <= items@.len(),
            streaming@.len() == items@.len(),
            run_end(items@, streaming@, start as int, items@.len() as int) == run_end(
                items@,
                streaming@,
                end as int,
                items@.len() as int,
            ),
        decreases items@.len() - end,
    {
        end = end + 1;
    }
    end
}

/// The ids of the tool calls among `items[start..end]`.
pub open spec fn tool_ids(items: Seq<ThreadItem>, start: int, end: int) -> Seq<Seq<char>>
    decreases end - start,
{
    if end <= start {
        Seq::empty()
    } else {
        tool_ids(items, start, end - 1) + if is_tool_item_spec(items[end - 1]) {
            seq![items[end - 1].id_spec()]
        } else {
            Seq::empty()
        }
    }
}

/// The ids of the tool calls among `items[start..end]`.
fn collect_tool_ids(items: &[ThreadItem], start: usize, end: usize) -> (r: Vec<String>)
    requires
        start <= end <= items@.len(),
    ensures
        r.deep_view() == tool_ids(items@, start as int, end as int),
{
    let mut r: Vec<String> = Vec::new();
    let mut i = start;
    assert(r.deep_view() =~= tool_ids(items@, start as int, start as int));
    while i < end
        invariant
            start <= i <= end <= items@.len(),
            r.deep_view() == tool_ids(items@, start as int, i as int),
        decreases end - i,
    {
        let ghost before = r.deep_view();
        if is_tool_item(&items[i]) {
            let id = items[i].id().clone();
            r.push(id);
            assert(r.deep_view() =~= before + seq![items@[i as int].id_spec()]);
        } else {
            assert(r.deep_view() =~= before + Seq::<Seq<char>>::empty());
        }
        i = i + 1;
    }
    r
}

// ---------------------------------------------------------------------------
// Text of items
// ---------------------------------------------------------------------------

/// The text that stands for one part of a user message.
pub open spec fn input_text(input: UserInput) -> Seq<char> {
    match input {
        UserInput::Text { text } => text@,
        UserInput::Image { url } => "[Image: "@ + url@ + "]"@,
        UserInput::LocalImage { path } => "[Image: "@ + path@ + "]"@,
        UserInput::Audio { url } => "[Audio: "@ + url@ + "]"@,
        UserInput::LocalAudio { path } => "[Audio: "@ + path@ + "]"@,
        UserInput::Skill { name, path } => "[Skill: "@ + name@ + " ("@ + path@ + ")]"@,
        UserInput::Mention { name, path } => "[Mention: "@ + name@ + " ("@ + path@ + ")]"@,
    }
}

/// The text of a user message: the text of its parts, one per line.
pub open spec fn user_input_text_spec(content: Seq<UserInput>) -> Seq<char> {
    join(content.map_values(|input: UserInput| input_text(input)), "\n"@)
}

fn bracketed(open: &str, name: &String, path: Option<&String>) -> (r: String)
    ensures
        r@ == match path {
            Some(p) => open@ + name@ + " ("@ + p@ + ")]"@,
            None => open@ + name@ + "]"@,
        },
{
    let mut r = String::from_str(open);
    r.append(name.as_str());
    match path {
        Some(p) => {
            r.append(" (");
            r.append(p.as_str());
            r.append(")]");
        },
        None => {
            r.append("]");
        },
    }
    r
}

/// The text of a user message: the text of its parts, one per line.
pub fn user_input_text(content: &Vec<UserInput>) -> (r: String)
    ensures
        r@ == user_input_text_spec(content@),
{
    let mut parts: Vec<String> = Vec::new();
    let mut i: usize = 0;
    while i < content.len()
        invariant
            0 <= i <= content@.len(),
            parts.deep_view() == content@.take(i as int).map_values(
                |input: UserInput| input_text(input),
            ),
        decreases content@.len() - i,
    {
        let part = match &content[i] {
            UserInput::Text { text } => text.clone(),
            UserInput::Image { url } => bracketed("[Image: ", url, None),
            UserInput::LocalImage { path } => bracketed("[Image: ", path, None),
            UserInput::Audio { url } => bracketed("[Audio: ", url, None),
            UserInput::LocalAudio { path } => bracketed("[Audio: ", path, None),
            UserInput::Skill { name, path } => bracketed("[Skill: ", name, Some(path)),
            UserInput::Mention { name, path } => bracketed("[Mention: ", name, Some(path)),
        };
        assert(part@ == input_text(content@[i as int]));
        let ghost before = parts.deep_view();
        parts.push(part);
        assert(parts.deep_view() =~= before.push(part@));
        assert(parts.deep_view() =~= content@.take(i as int + 1).map_values(
            |input: UserInput| input_text(input),
        ));
        i = i + 1;
    }
    assert(content@.take(content@.len() as int) =~= content@);
    join_strings(&parts, "\n")
}

/// The non-empty parts, in order.
pub open spec fn non_empty(parts: Seq<Seq<char>>) -> Seq<Seq<char>>
    decreases parts.len(),
{
    if parts.len() == 0 {
        Seq::empty()
    } else {
        non_empty(parts.drop_last()) + if parts.last().len() > 0 {
            seq![parts.last()]
        } else {
            Seq::empty()
        }
    }
}

fn non_empty_strings(parts: &Vec<String>) -> (r: Vec<String>)
    ensures
        r.deep_view() == non_empty(parts.deep_view()),
{
    let mut r: Vec<String> = Vec::new();
    let mut i: usize = 0;
    while i < parts.len()
        invariant
            0 <= i <= parts@.len(),
            r.deep_view() == non_empty(parts.deep_view().take(i as int)),
        decreases parts@.len() - i,
    {
        let ghost before = r.deep_view();
        let ghost taken = parts.deep_view().take(i as int + 1);
        assert(taken.drop_last() =~= parts.deep_view().take(i as int));
        assert(taken.last() == parts@[i as int]@);
        if !parts[i].as_str().is_empty() {
            r.push(parts[i].clone());
            assert(r.deep_view() =~= before + seq![parts@[i as int]@]);
        } else {
            assert(r.deep_view() =~= before + Seq::<Seq<char>>::empty());
        }
        i = i + 1;
    }
    assert(parts.deep_view().take(parts@.len() as int) =~= parts.deep_view());
    r
}

/// The text of reasoning: the non-empty summary parts, then the non-empty
/// content parts, each separated by a blank line.
pub open spec fn reasoning_body(summary: Seq<Seq<char>>, content: Seq<Seq<char>>) -> Seq<char> {
    let body = join(non_empty(summary), "\n\n"@);
    let rest = join(non_empty(content), "\n\n"@);
    if rest.len() > 0 {
        if body.len() > 0 {
            body + "\n\n"@ + rest
        } else {
            rest
        }
    } else {
        body
    }
}

fn reasoning_text(summary: &Vec<String>, content: &Vec<String>) -> (r: String)
    ensures
        r@ == reasoning_body(summary.deep_view(), content.deep_view()),
{
    let mut body = join_strings(&non_empty_strings(summary), "\n\n");
    let rest = join_strings(&non_empty_strings(content), "\n\n");
    if !rest.as_str().is_empty() {
        if !body.as_str().is_empty() {
            body.append("\n\n");
        }
        body.append(rest.as_str());
    }
    body
}

// ---------------------------------------------------------------------------
// What items become
// ---------------------------------------------------------------------------

/// Whether a message of this phase is (part of) the final answer.
pub open spec fn is_final_answer_spec(phase: Option<MessagePhase>) -> bool {
    phase == Some(MessagePhase::FinalAnswer) || phase is None
}

/// Whether a message of this phase is (part of) the final answer.
pub fn is_final_answer(phase: Option<MessagePhase>) -> (r: bool)
    ensures
        r == is_final_answer_spec(phase),
{
    match phase {
        Some(MessagePhase::FinalAnswer) | None => true,
        _ => false,
    }
}

/// The tool group block for the tools `tools` under `key`.
pub open spec fn tool_group_block(
    key: Seq<char>,
    tools: Seq<Seq<char>>,
    active_tail: bool,
    groups: Seq<Seq<char>>,
) -> Push {
    Push::Block(
        BlockView::ToolGroup {
            key,
            tools,
            expanded: groups.contains(key),
            collapsible: true,
            active_tail,
        },
    )
}

/// What an agent message becomes: a header unless it is commentary, its
/// text, and the group of the tool calls that followed it.
pub open spec fn agent_pushes(
    item: ThreadItem,
    streaming: bool,
    tools: Seq<Seq<char>>,
    tool_group_at_tail: bool,
    tools_finished: bool,
    groups: Seq<Seq<char>>,
) -> Seq<Push> {
    match item {
        ThreadItem::AgentMessage { id, text, phase } => {
            let header = if phase == Some(MessagePhase::Commentary) {
                Seq::empty()
            } else {
                seq![
                    Push::Block(
                        BlockView::AssistantHeader {
                            key: id@,
                            label: if streaming {
                                "Codex is working"@
                            } else {
                                "Codex"@
                            },
                        },
                    ),
                ]
            };
            header + seq![Push::Markdown(text@)] + if tools.len() > 0 {
                seq![
                    tool_group_block(id@, tools, tool_group_at_tail && !tools_finished, groups),
                ]
            } else {
                Seq::empty()
            }
        },
        _ => Seq::empty(),
    }
}

/// An activity block.
pub open spec fn activity(key: Seq<char>, title: Seq<char>, body: Seq<char>) -> Push {
    Push::Block(BlockView::Activity { key, title, body, running: false })
}

/// What `items[index..end]` of the turn `turn_id` become.
pub open spec fn item_pushes(
    turn_id: Seq<char>,
    previous_turn_id: Option<Seq<char>>,
    items: Seq<ThreadItem>,
    streaming: Seq<bool>,
    groups: Seq<Seq<char>>,
    index: int,
    end: int,
) -> Seq<Push>
    decreases end - index,
{
    if index < 0 || index >= end {
        Seq::empty()
    } else {
        let item = items[index];
        let next = item_pushes(turn_id, previous_turn_id, items, streaming, groups, index + 1, end);
        match item {
            ThreadItem::UserMessage { id, client_id, content } => {
                let body = user_input_text_spec(content@);
                (if body.len() > 0 {
                    seq![
                        Push::Block(
                            BlockView::User {
                                key: match client_id {
                                    Some(c) => c@,
                                    None => id@,
                                },
                                turn_id: Some(turn_id),
                                previous_turn_id,
                                body,
                                delivery: UserMessageDelivery::Sent,
                            },
                        ),
                    ]
                } else {
                    Seq::empty()
                }) + next
            },
            ThreadItem::AgentMessage { .. } => {
                let tools_end = tool_group_end_spec(items, streaming, index + 1, end);
                proof {
                    lemma_tool_group_end_bounds(items, streaming, index + 1, end);
                }
                agent_pushes(
                    item,
                    streaming[index],
                    tool_ids(items, index + 1, tools_end),
                    tools_end == end,
                    tools_done_spec(items, streaming, index + 1, tools_end),
                    groups,
                ) + item_pushes(
                    turn_id,
                    previous_turn_id,
                    items,
                    streaming,
                    groups,
                    tools_end,
                    end,
                )
            },
            ThreadItem::Plan { id, text } => seq![
                Push::Block(BlockView::Plan { key: id@, body: text@, running: streaming[index] }),
            ] + next,
            ThreadItem::Reasoning { id, summary, content } => {
                let body = reasoning_body(summary.deep_view(), content.deep_view());
                (if streaming[index] || body.len() > 0 {
                    seq![
                        Push::Block(
                            BlockView::Reasoning { key: id@, body, running: streaming[index] },
                        ),
                    ]
                } else {
                    Seq::empty()
                }) + next
            },
            ThreadItem::HookPrompt { id, fragments } => seq![
                Push::Block(
                    BlockView::HookPrompt { key: id@, body: join(fragments.deep_view(), "\n"@) },
                ),
            ] + next,
            ThreadItem::SubAgentActivity { id, kind, agent_path } => seq![
                activity(id@, "Sub-agent "@ + kind@, agent_path@),
            ] + next,
            ThreadItem::EnteredReviewMode { id, review } => seq![
                activity(id@, "Entered review mode"@, review@),
            ] + next,
            ThreadItem::ExitedReviewMode { id, review } => seq![
                activity(id@, "Exited review mode"@, review@),
            ] + next,
            ThreadItem::ContextCompaction { id } => seq![
                activity(
                    id@,
                    "Context compacted"@,
                    "Older conversation context was summarized to continue working."@,
                ),
            ] + next,
            ThreadItem::Other { .. } => next,
            _ => {
                let tools_end = tool_group_end_spec(items, streaming, index, end);
                proof {
                    lemma_tool_group_end_bounds(items, streaming, index, end);
                }
                seq![
                    tool_group_block(
                        item.id_spec(),
                        tool_ids(items, index, tools_end),
                        tools_end == end && !tools_done_spec(items, streaming, index, tools_end),
                        groups,
                    ),
                ] + item_pushes(
                    turn_id,
                    previous_turn_id,
                    items,
                    streaming,
                    groups,
                    tools_end,
                    end,
                )
            },
        }
    }
}

/// The tool calls that a push groups: those of a tool group block, else none.
pub open spec fn push_tools(p: Push) -> Seq<Seq<char>> {
    match p {
        Push::Block(BlockView::ToolGroup { tools, .. }) => tools,
        _ => Seq::empty(),
    }
}

/// The tool calls of all the tool groups among `ps`, in order.
pub open spec fn grouped_tools(ps: Seq<Push>) -> Seq<Seq<char>>
    decreases ps.len(),
{
    if ps.len() == 0 {
        Seq::empty()
    } else {
        grouped_tools(ps.drop_last()) + push_tools(ps.last())
    }
}

/// The grouped tool calls of `a + b` are those of `a`, then those of `b`.
pub proof fn lemma_grouped_tools_concat(a: Seq<Push>, b: Seq<Push>)
    ensures
        grouped_tools(a + b) == grouped_tools(a) + grouped_tools(b),
    decreases b.len(),
{
    if b.len() == 0 {
        assert(a + b =~= a);
        assert(grouped_tools(a) + grouped_tools(b) =~= grouped_tools(a));
    } else {
        lemma_grouped_tools_concat(a, b.drop_last());
        assert((a + b).drop_last() =~= a + b.drop_last());
        assert((a + b).last() == b.last());
        assert(grouped_tools(a + b) =~= grouped_tools(a) + grouped_tools(b.drop_last()) + push_tools(
            b.last(),
        ));
    }
}

/// The grouped tool calls of one push are its own.
proof fn lemma_grouped_tools_one(p: Push)
    ensures
        grouped_tools(seq![p]) == push_tools(p),
{
    assert(seq![p].drop_last() =~= Seq::<Push>::empty());
    assert(grouped_tools(Seq::<Push>::empty()) =~= Seq::<Seq<char>>::empty());
    assert(seq![p].last() == p);
    assert(Seq::<Seq<char>>::empty() + push_tools(p) =~= push_tools(p));
}

/// The tool calls of `items[a..c]` are those of `items[a..b]`, then those of `items[b..c]`.
pub proof fn lemma_tool_ids_split(items: Seq<ThreadItem>, a: int, b: int, c: int)
    requires
        a <= b <= c,
    ensures
        tool_ids(items, a, c) == tool_ids(items, a, b) + tool_ids(items, b, c),
    decreases c - b,
{
    if b == c {
        assert(tool_ids(items, a, b) + tool_ids(items, b, c) =~= tool_ids(items, a, b));
    } else {
        lemma_tool_ids_split(items, a, b, c - 1);
        assert(tool_ids(items, a, c) =~= tool_ids(items, a, b) + tool_ids(items, b, c));
    }
}

/// No tool call is lost or repeated: the tool groups among what the items of
/// a turn become hold every tool call of those items exactly once, in the
/// order of the items.
pub proof fn law_tool_calls_grouped_once_in_order(
    turn_id: Seq<char>,
    previous_turn_id: Option<Seq<char>>,
    items: Seq<ThreadItem>,
    streaming: Seq<bool>,
    groups: Seq<Seq<char>>,
    index: int,
    end: int,
)
    requires
        0 <= index <= end <= items.len(),
        streaming.len() == items.len(),
    ensures
        grouped_tools(item_pushes(turn_id, previous_turn_id, items, streaming, groups, index, end))
            == tool_ids(items, index, end),
    decreases end - index,
{
    let ps = item_pushes(turn_id, previous_turn_id, items, streaming, groups, index, end);
    if index == end {
        assert(grouped_tools(ps) =~= tool_ids(items, index, end));
    } else {
        let item = items[index];
        let next = item_pushes(turn_id, previous_turn_id, items, streaming, groups, index + 1, end);
        if is_tool_item_spec(item) {
            let tools_end = tool_group_end_spec(items, streaming, index, end);
            lemma_tool_group_end_bounds(items, streaming, index, end);
            let rest = item_pushes(
                turn_id,
                previous_turn_id,
                items,
                streaming,
                groups,
                tools_end,
                end,
            );
            law_tool_calls_grouped_once_in_order(
                turn_id,
                previous_turn_id,
                items,
                streaming,
                groups,
                tools_end,
                end,
            );
            let block = tool_group_block(
                item.id_spec(),
                tool_ids(items, index, tools_end),
                tools_end == end && !tools_done_spec(items, streaming, index, tools_end),
                groups,
            );
            assert(ps == seq![block] + rest);
            lemma_grouped_tools_concat(seq![block], rest);
            lemma_grouped_tools_one(block);
            lemma_tool_ids_split(items, index, tools_end, end);
        } else {
            lemma_tool_ids_split(items, index, index + 1, end);
            assert(tool_ids(items, index, index + 1) =~= Seq::<Seq<char>>::empty());
            assert(tool_ids(items, index, end) =~= tool_ids(items, index + 1, end));
            match item {
                ThreadItem::AgentMessage { id, text, phase } => {
                    let tools_end = tool_group_end_spec(items, streaming, index + 1, end);
                    lemma_tool_group_end_bounds(items, streaming, index + 1, end);
                    let rest = item_pushes(
                        turn_id,
                        previous_turn_id,
                        items,
                        streaming,
                        groups,
                        tools_end,
                        end,
                    );
                    law_tool_calls_grouped_once_in_order(
                        turn_id,
                        previous_turn_id,
                        items,
                        streaming,
                        groups,
                        tools_end,
                        end,
                    );
                    let tools = tool_ids(items, index + 1, tools_end);
                    let header: Seq<Push> = if phase == Some(MessagePhase::Commentary) {
                        Seq::empty()
                    } else {
                        seq![
                            Push::Block(
                                BlockView::AssistantHeader {
                                    key: id@,
                                    label: if streaming[index] {
                                        "Codex is working"@
                                    } else {
                                        "Codex"@
                                    },
                                },
                            ),
                        ]
                    };
                    let tail: Seq<Push> = if tools.len() > 0 {
                        seq![
                            tool_group_block(
                                id@,
                                tools,
                                tools_end == end && !tools_done_spec(
                                    items,
                                    streaming,
                                    index + 1,
                                    tools_end,
                                ),
                                groups,
                            ),
                        ]
                    } else {
                        Seq::empty()
                    };
                    let md = seq![Push::Markdown(text@)];
                    assert(ps == header + md + tail + rest);
                    lemma_grouped_tools_concat(header + md + tail, rest);
                    lemma_grouped_tools_concat(header + md, tail);
                    lemma_grouped_tools_concat(header, md);
                    lemma_grouped_tools_one(Push::Markdown(text@));
                    if header.len() > 0 {
                        lemma_grouped_tools_one(header[0]);
                        assert(header == seq![header[0]]);
                    } else {
                        assert(header =~= Seq::<Push>::empty());
                    }
                    if tools.len() > 0 {
                        lemma_grouped_tools_one(tail[0]);
                        assert(tail == seq![tail[0]]);
                    } else {
                        assert(tail =~= Seq::<Push>::empty());
                        assert(tools =~= Seq::<Seq<char>>::empty());
                    }
                    lemma_tool_ids_split(items, index + 1, tools_end, end);
                    assert(grouped_tools(ps) =~= tool_ids(items, index, end));
                },
                ThreadItem::Other { .. } => {
                    law_tool_calls_grouped_once_in_order(
                        turn_id,
                        previous_turn_id,
                        items,
                        streaming,
                        groups,
                        index + 1,
                        end,
                    );
                },
                _ => {
                    law_tool_calls_grouped_once_in_order(
                        turn_id,
                        previous_turn_id,
                        items,
                        streaming,
                        groups,
                        index + 1,
                        end,
                    );
                    let first = ps.subrange(0, ps.len() - next.len());
                    assert(ps == first + next);
                    assert(first.len() <= 1);
                    lemma_grouped_tools_concat(first, next);
                    if first.len() == 1 {
                        lemma_grouped_tools_one(first[0]);
                        assert(first == seq![first[0]]);
                        assert(push_tools(first[0]) =~= Seq::<Seq<char>>::empty());
                    } else {
                        assert(first =~= Seq::<Push>::empty());
                    }
                    assert(grouped_tools(ps) =~= tool_ids(items, index, end));
                },
            }
        }
    }
}

/// The key of the block that an item stands under: a user message's client
/// id when it has one, else the item's id.
pub open spec fn item_key(item: ThreadItem) -> Seq<char> {
    match item {
        ThreadItem::UserMessage { client_id: Some(c), .. } => c@,
        _ => item.id_spec(),
    }
}

/// Whether the push is a block under `key`.
pub open spec fn is_block_under(p: Push, key: Seq<char>) -> bool {
    match p {
        Push::Block(b) => b.key() == key,
        _ => false,
    }
}

/// An item that is neither a tool call nor an agent message becomes at most
/// one block, under its own key, and stands before what the items after it
/// become.
pub proof fn law_plain_item_one_block_in_order(
    turn_id: Seq<char>,
    previous_turn_id: Option<Seq<char>>,
    items: Seq<ThreadItem>,
    streaming: Seq<bool>,
    groups: Seq<Seq<char>>,
    index: int,
    end: int,
)
    requires
        0 <= index < end <= items.len(),
        streaming.len() == items.len(),
        !is_tool_item_spec(items[index]),
        !(items[index] is AgentMessage),
    ensures
        ({
            let ps = item_pushes(turn_id, previous_turn_id, items, streaming, groups, index, end);
            let next = item_pushes(
                turn_id,
                previous_turn_id,
                items,
                streaming,
                groups,
                index + 1,
                end,
            );
            exists|own: Seq<Push>|
                {
                    &&& #[trigger] own.len() <= 1
                    &&& ps == own + next
                    &&& own.len() == 1 ==> is_block_under(own[0], item_key(items[index]))
                }
        }),
{
    let ps = item_pushes(turn_id, previous_turn_id, items, streaming, groups, index, end);
    let next = item_pushes(turn_id, previous_turn_id, items, streaming, groups, index + 1, end);
    let own = ps.subrange(0, ps.len() - next.len());
    assert(ps == own + next);
    assert(own.len() <= 1);
    assert(own.len() == 1 ==> is_block_under(own[0], item_key(items[index])));
}

proof fn lemma_one(v: SnapshotView, p: Push)
    ensures
        apply_pushes(v, seq![p]) == apply_push(v, p),
{
    assert(seq![p].drop_last() =~= Seq::<Push>::empty());
    assert(apply_pushes(v, Seq::<Push>::empty()) == v);
    assert(seq![p].last() == p);
}

/// Pushes the markdown and blocks of an agent message and its tool group.
fn append_agent(
    transcript: &mut TranscriptSnapshot,
    item: &ThreadItem,
    streaming: bool,
    tools: Vec<String>,
    tool_group_at_tail: bool,
    tools_finished: bool,
    expanded_tool_groups: &Vec<String>,
)
    ensures
        final(transcript).view() == apply_pushes(
            old(transcript).view(),
            agent_pushes(
                *item,
                streaming,
                tools.deep_view(),
                tool_group_at_tail,
                tools_finished,
                expanded_tool_groups.deep_view(),
            ),
        ),
{
    let ghost v0 = transcript.view();
    let (id, text, phase) = match item {
        ThreadItem::AgentMessage { id, text, phase } => (id, text, phase),
        _ => {
            return;
        },
    };
    let ghost header: Seq<Push> = if *phase == Some(MessagePhase::Commentary) {
        Seq::empty()
    } else {
        seq![
            Push::Block(
                BlockView::AssistantHeader {
                    key: id@,
                    label: if streaming {
                        "Codex is working"@
                    } else {
                        "Codex"@
                    },
                },
            ),
        ]
    };
    let commentary = match phase {
        Some(MessagePhase::Commentary) => true,
        _ => false,
    };
    if !commentary {
        let label = if streaming {
            String::from_str("Codex is working")
        } else {
            String::from_str("Codex")
        };
        let block = HistoryBlock::AssistantHeader { key: id.clone(), label };
        transcript.push_block(block);
        proof {
            lemma_one(v0, header[0]);
        }
    } else {
        assert(apply_pushes(v0, header) == v0);
    }
    let ghost v1 = transcript.view();
    transcript.push_markdown(text.as_str());
    proof {
        lemma_one(v1, Push::Markdown(text@));
        lemma_apply_pushes_concat(v0, header, seq![Push::Markdown(text@)]);
    }
    let ghost v2 = transcript.view();
    let ghost first = header + seq![Push::Markdown(text@)];
    let ghost tools_view = tools.deep_view();
    if tools.len() > 0 {
        let expanded = contains_string(expanded_tool_groups, id.as_str());
        let block = HistoryBlock::ToolGroup {
            key: id.clone(),
            tools,
            expanded,
            collapsible: true,
            active_tail: tool_group_at_tail && !tools_finished,
        };
        transcript.push_block(block);
        proof {
            let last = tool_group_block(
                id@,
                tools_view,
                tool_group_at_tail && !tools_finished,
                expanded_tool_groups.deep_view(),
            );
            lemma_one(v2, last);
            lemma_apply_pushes_concat(v0, first, seq![last]);
        }
    } else {
        proof {
            lemma_apply_pushes_concat(v0, first, Seq::empty());
            assert(first + Seq::<Push>::empty() =~= first);
        }
    }
}

/// Pushes the group of the tool calls in `items[start..end]`.
fn append_tool_group(
    transcript: &mut TranscriptSnapshot,
    key: &String,
    tools: Vec<String>,
    active_tail: bool,
    expanded_tool_groups: &Vec<String>,
)
    ensures
        final(transcript).view() == apply_push(
            old(transcript).view(),
            tool_group_block(key@, tools.deep_view(), active_tail, expanded_tool_groups.deep_view()),
        ),
{
    let expanded = contains_string(expanded_tool_groups, key.as_str());
    transcript.push_block(
        HistoryBlock::ToolGroup { key: key.clone(), tools, expanded, collapsible: true, active_tail },
    );
}

/// Pushes what `items[start..end]` of the turn `turn_id` become: user
/// messages, agent messages with the tool calls that follow them, plans,
/// reasoning, hook prompts, activities, and groups of tool calls.
pub fn append_items(
    transcript: &mut TranscriptSnapshot,
    turn_id: &String,
    previous_turn_id: Option<&String>,
    items: &[ThreadItem],
    streaming: &[bool],
    expanded_tool_groups: &Vec<String>,
)
    requires
        streaming@.len() == items@.len(),
    ensures
        final(transcript).view() == apply_pushes(
            old(transcript).view(),
            item_pushes(
                turn_id@,
                match previous_turn_id {
                    Some(p) => Some(p@),
                    None => None,
                },
                items@,
                streaming@,
                expanded_tool_groups.deep_view(),
                0,
                items@.len() as int,
            ),
        ),
{
    let ghost prev = match previous_turn_id {
        Some(p) => Some(p@),
        None => None,
    };
    let ghost groups = expanded_tool_groups.deep_view();
    let ghost n = items@.len() as int;
    let ghost goal = apply_pushes(
        transcript.view(),
        item_pushes(turn_id@, prev, items@, streaming@, groups, 0, n),
    );
    let mut index: usize = 0;
    while index < items.len()
        invariant
            0 <= index <= items@.len(),
            n == items@.len(),
            streaming@.len() == items@.len(),
            groups == expanded_tool_groups.deep_view(),
            prev == match previous_turn_id {
                Some(p) => Some(p@),
                None => None,
            },
            goal == apply_pushes(
                transcript.view(),
                item_pushes(turn_id@, prev, items@, streaming@, groups, index as int, n),
            ),
        decreases items@.len() - index,
    {
        let ghost v = transcript.view();
        let ghost next = item_pushes(
            turn_id@,
            prev,
            items@,
            streaming@,
            groups,
            index as int + 1,
            n,
        );
        let item = &items[index];
        match item {
            ThreadItem::UserMessage { id, client_id, content } => {
                let body = user_input_text(content);
                let ghost here: Seq<Push> = if body@.len() > 0 {
                    seq![
                        Push::Block(
                            BlockView::User {
                                key: match client_id {
                                    Some(c) => c@,
                                    None => id@,
                                },
                                turn_id: Some(turn_id@),
                                previous_turn_id: prev,
                                body: body@,
                                delivery: UserMessageDelivery::Sent,
                            },
                        ),
                    ]
                } else {
                    Seq::empty()
                };
                if !body.as_str().is_empty() {
                    let key = match client_id {
                        Some(c) => c.clone(),
                        None => id.clone(),
                    };
                    let previous = match previous_turn_id {
                        Some(p) => Some(p.clone()),
                        None => None,
                    };
                    let block = HistoryBlock::User {
                        key,
                        turn_id: Some(turn_id.clone()),
                        previous_turn_id: previous,
                        body,
                        delivery: UserMessageDelivery::Sent,
                    };
                    transcript.push_block(block);
                    proof {
                        lemma_one(v, here[0]);
                    }
                }
                proof {
                    lemma_apply_pushes_concat(v, here, next);
                }
                index = index + 1;
            },
            ThreadItem::AgentMessage { .. } => {
                proof {
                    lemma_tool_group_end_bounds(items@, streaming@, index as int + 1, n);
                }
                let tools_end = tool_group_end(items, index + 1, streaming);
                let tools = collect_tool_ids(items, index + 1, tools_end);
                let finished = tools_done_in(items, streaming, index + 1, tools_end);
                let ghost here = agent_pushes(
                    *item,
                    streaming@[index as int],
                    tools.deep_view(),
                    tools_end == n,
                    finished,
                    groups,
                );
                let ghost rest = item_pushes(
                    turn_id@,
                    prev,
                    items@,
                    streaming@,
                    groups,
                    tools_end as int,
                    n,
                );
                append_agent(
                    transcript,
                    item,
                    streaming[index],
                    tools,
                    tools_end == items.len(),
                    finished,
                    expanded_tool_groups,
                );
                proof {
                    lemma_apply_pushes_concat(v, here, rest);
                }
                index = tools_end;
            },
            ThreadItem::Plan { id, text } => {
                let ghost p = Push::Block(
                    BlockView::Plan { key: id@, body: text@, running: streaming@[index as int] },
                );
                transcript.push_block(
                    HistoryBlock::Plan {
                        key: id.clone(),
                        body: text.clone(),
                        running: streaming[index],
                    },
                );
                proof {
                    lemma_one(v, p);
                    lemma_apply_pushes_concat(v, seq![p], next);
                }
                index = index + 1;
            },
            ThreadItem::Reasoning { id, summary, content } => {
                let body = reasoning_text(summary, content);
                let running = streaming[index];
                let ghost here: Seq<Push> = if running || body@.len() > 0 {
                    seq![Push::Block(BlockView::Reasoning { key: id@, body: body@, running })]
                } else {
                    Seq::empty()
                };
                if running || !body.as_str().is_empty() {
                    transcript.push_block(
                        HistoryBlock::Reasoning { key: id.clone(), body, running },
                    );
                    proof {
                        lemma_one(v, here[0]);
                    }
                }
                proof {
                    lemma_apply_pushes_concat(v, here, next);
                }
                index = index + 1;
            },
            ThreadItem::HookPrompt { id, fragments } => {
                let body = join_strings(fragments, "\n");
                let ghost p = Push::Block(BlockView::HookPrompt { key: id@, body: body@ });
                transcript.push_block(HistoryBlock::HookPrompt { key: id.clone(), body });
                proof {
                    lemma_one(v, p);
                    lemma_apply_pushes_concat(v, seq![p], next);
                }
                index = index + 1;
            },
            ThreadItem::SubAgentActivity { id, kind, agent_path } => {
                let mut title = String::from_str("Sub-agent ");
                title.append(kind.as_str());
                let ghost p = activity(id@, title@, agent_path@);
                transcript.push_block(
                    HistoryBlock::Activity {
                        key: id.clone(),
                        title,
                        body: agent_path.clone(),
                        running: false,
                    },
                );
                proof {
                    lemma_one(v, p);
                    lemma_apply_pushes_concat(v, seq![p], next);
                }
                index = index + 1;
            },
            ThreadItem::EnteredReviewMode { id, review } => {
                let ghost p = activity(id@, "Entered review mode"@, review@);
                transcript.push_block(
                    HistoryBlock::Activity {
                        key: id.clone(),
                        title: String::from_str("Entered review mode"),
                        body: review.clone(),
                        running: false,
                    },
                );
                proof {
                    lemma_one(v, p);
                    lemma_apply_pushes_concat(v, seq![p], next);
                }
                index = index + 1;
            },
            ThreadItem::ExitedReviewMode { id, review } => {
                let ghost p = activity(id@, "Exited review mode"@, review@);
                transcript.push_block(
                    HistoryBlock::Activity {
                        key: id.clone(),
                        title: String::from_str("Exited review mode"),
                        body: review.clone(),
                        running: false,
                    },
                );
                proof {
                    lemma_one(v, p);
                    lemma_apply_pushes_concat(v, seq![p], next);
                }
                index = index + 1;
            },
            ThreadItem::ContextCompaction { id } => {
                let ghost p = activity(
                    id@,
                    "Context compacted"@,
                    "Older conversation context was summarized to continue working."@,
                );
                transcript.push_block(
                    HistoryBlock::Activity {
                        key: id.clone(),
                        title: String::from_str("Context compacted"),
                        body: String::from_str(
                            "Older conversation context was summarized to continue working.",
                        ),
                        running: false,
                    },
                );
                proof {
                    lemma_one(v, p);
                    lemma_apply_pushes_concat(v, seq![p], next);
                }
                index = index + 1;
            },
            ThreadItem::Other { .. } => {
                index = index + 1;
            },
            _ => {
                proof {
                    lemma_tool_group_end_bounds(items@, streaming@, index as int, n);
                }
                let tools_end = tool_group_end(items, index, streaming);
                let tools = collect_tool_ids(items, index, tools_end);
                let finished = tools_done_in(items, streaming, index, tools_end);
                let ghost p = tool_group_block(
                    item.id_spec(),
                    tools.deep_view(),
                    tools_end == n && !finished,
                    groups,
                );
                let ghost rest = item_pushes(
                    turn_id@,
                    prev,
                    items@,
                    streaming@,
                    groups,
                    tools_end as int,
                    n,
                );
                append_tool_group(
                    transcript,
                    item.id(),
                    tools,
                    tools_end == items.len() && !finished,
                    expanded_tool_groups,
                );
                proof {
                    lemma_one(v, p);
                    lemma_apply_pushes_concat(v, seq![p], rest);
                }
                index = tools_end;
            },
        }
    }
}

// ---------------------------------------------------------------------------
// Turns
// ---------------------------------------------------------------------------

/// The number of user messages among `items[..n]`.
pub open spec fn user_count(items: Seq<ThreadItem>, n: int) -> nat
    decreases n,
{
    if n <= 0 {
        0
    } else {
        user_count(items, n - 1) + if items[n - 1] is UserMessage {
            1nat
        } else {
            0
        }
    }
}

/// The first user message at or after `i`, or the length when there is none.
pub open spec fn first_user(items: Seq<ThreadItem>, i: int) -> int
    decreases items.len() - i,
{
    if i < 0 || i >= items.len() {
        items.len() as int
    } else if items[i] is UserMessage {
        i
    } else {
        first_user(items, i + 1)
    }
}

/// Whether the item is an agent message with text that belongs to the final answer.
pub open spec fn is_final_agent(item: ThreadItem) -> bool {
    match item {
        ThreadItem::AgentMessage { text, phase, .. } => !is_blank(text@) && is_final_answer_spec(
            phase,
        ),
        _ => false,
    }
}

/// The last final-answer message among `items[..n]`.
pub open spec fn last_final(items: Seq<ThreadItem>, n: int) -> Option<int>
    decreases n,
{
    if n <= 0 {
        None
    } else if is_final_agent(items[n - 1]) {
        Some(n - 1)
    } else {
        last_final(items, n - 1)
    }
}

/// Whether the item shows work: a tool call or an agent message with text.
pub open spec fn is_progress(item: ThreadItem) -> bool {
    is_tool_item_spec(item) || match item {
        ThreadItem::AgentMessage { text, .. } => !is_blank(text@),
        _ => false,
    }
}

/// No item is still being streamed.
pub open spec fn none_streaming(n: nat) -> Seq<bool> {
    Seq::new(n, |i: int| false)
}

/// Law: text the agent writes counts as work. A completed turn with one
/// user message, no tool calls, and a final answer after it folds when an
/// agent message with text other than the final answer follows the user
/// message, commentary included.
pub proof fn law_agent_text_counts_as_work(turn: Turn, k: int, f: int)
    requires
        turn.status == TurnStatus::Completed,
        user_count(turn.items@, turn.items@.len() as int) == 1,
        last_final(turn.items@, turn.items@.len() as int) == Some(f),
        first_user(turn.items@, 0) < f,
        first_user(turn.items@, 0) < k < turn.items@.len(),
        k != f,
        turn.items@[k] matches ThreadItem::AgentMessage { text, .. } && !is_blank(text@),
        forall|j: int| 0 <= j < turn.items@.len() ==> !is_tool_item_spec(#[trigger] turn.items@[j]),
    ensures
        completed_turn_fold_spec(turn) == Some((first_user(turn.items@, 0), f)),
{
    let items = turn.items@;
    assert(is_progress(items[k]));
    assert(!(exists|j: int| 0 <= j < items.len() && is_tool_item_spec(#[trigger] items[j])));
}

/// Where a completed turn folds: after its only user message, with its last
/// final-answer message shown while folded. A turn folds when it completed,
/// has exactly one user message, a final answer after it, work besides the
/// final answer after it, and no tool call still running.
pub open spec fn completed_turn_fold_spec(turn: Turn) -> Option<(int, int)> {
    let items = turn.items@;
    let n = items.len() as int;
    if turn.status != TurnStatus::Completed || user_count(items, n) != 1 {
        None
    } else {
        let u = first_user(items, 0);
        match last_final(items, n) {
            None => None,
            Some(f) => if f <= u {
                None
            } else if !(exists|k: int| u < k < n && k != f && is_progress(#[trigger] items[k])) {
                None
            } else if (exists|k: int| 0 <= k < n && is_tool_item_spec(#[trigger] items[k]))
                && !tools_done_spec(items, none_streaming(n as nat), 0, n) {
                None
            } else {
                Some((u, f))
            },
        }
    }
}

/// Where a completed turn folds.
#[derive(Clone, Copy, Debug, PartialEq, Eq)]
pub struct TurnFold {
    pub user_index: usize,
    pub final_index: usize,
}

/// Where a completed turn folds, if it does.
pub fn completed_turn_fold(turn: &Turn) -> (r: Option<TurnFold>)
    ensures
        match r {
            Some(fold) => completed_turn_fold_spec(*turn) == Some(
                (fold.user_index as int, fold.final_index as int),
            ),
            None => completed_turn_fold_spec(*turn) is None,
        },
{
    if turn.status != TurnStatus::Completed {
        return None;
    }
    let items = &turn.items;
    let n = items.len();
    let mut count: usize = 0;
    let mut i: usize = 0;
    while i < n
        invariant
            n == items@.len(),
            0 <= i <= n,
            count == user_count(items@, i as int),
            count <= i,
        decreases n - i,
    {
        match &items[i] {
            ThreadItem::UserMessage { .. } => {
                count = count + 1;
            },
            _ => {},
        }
        i = i + 1;
    }
    if count != 1 {
        return None;
    }
    let mut user_index: usize = 0;
    while user_index < n
        invariant
            n == items@.len(),
            0 <= user_index <= n,
            first_user(items@, 0) == first_user(items@, user_index as int),
        ensures
            first_user(items@, 0) == user_index as int,
            user_index <= n,
        decreases n - user_index,
    {
        if let ThreadItem::UserMessage { .. } = &items[user_index] {
            break;
        }
        user_index = user_index + 1;
    }
    let mut j: usize = n;
    let mut found = false;
    while j > 0 && !found
        invariant
            n == items@.len(),
            0 <= j <= n,
            !found ==> last_final(items@, n as int) == last_final(items@, j as int),
            found ==> j < n && last_final(items@, n as int) == Some(j as int),
        decreases j,
    {
        let final_here = match &items[j - 1] {
            ThreadItem::AgentMessage { text, phase, .. } => !blank(text.as_str())
                && is_final_answer(*phase),
            _ => false,
        };
        j = j - 1;
        if final_here {
            found = true;
        }
    }
    if !found {
        return None;
    }
    let final_index = j;
    if final_index <= user_index {
        return None;
    }
    let mut progress = false;
    let mut k: usize = user_index + 1;
    while k < n
        invariant
            n == items@.len(),
            user_index < final_index < n,
            user_index + 1 <= k <= n,
            progress == exists|m: int|
                user_index < m < k && m != final_index && is_progress(#[trigger] items@[m]),
        decreases n - k,
    {
        if k != final_index {
            let here = is_tool_item(&items[k]) || match &items[k] {
                ThreadItem::AgentMessage { text, .. } => !blank(text.as_str()),
                _ => false,
            };
            if here {
                progress = true;
            }
        }
        k = k + 1;
    }
    if !progress {
        return None;
    }
    let mut idle: Vec<bool> = Vec::new();
    let mut m: usize = 0;
    while m < n
        invariant
            0 <= m <= n,
            idle@ =~= none_streaming(m as nat),
        decreases n - m,
    {
        idle.push(false);
        m = m + 1;
    }
    let mut any_tool = false;
    let mut t: usize = 0;
    while t < n
        invariant
            n == items@.len(),
            0 <= t <= n,
            any_tool == exists|x: int| 0 <= x < t && is_tool_item_spec(#[trigger] items@[x]),
        decreases n - t,
    {
        if is_tool_item(&items[t]) {
            any_tool = true;
        }
        t = t + 1;
    }
    if any_tool && !tools_done_in(items.as_slice(), idle.as_slice(), 0, n) {
        return None;
    }
    Some(TurnFold { user_index, final_index })
}

/// `completed - started`, saturated to the range of `i64`.
pub open spec fn saturating_diff(completed: i64, started: i64) -> int {
    let d = completed - started;
    if d > i64::MAX {
        i64::MAX as int
    } else if d < i64::MIN {
        i64::MIN as int
    } else {
        d
    }
}

/// How long a turn took: its reported duration in milliseconds when that is
/// not negative, else the whole seconds from its start to its completion,
/// else nothing.
pub open spec fn turn_duration_spec(turn: Turn) -> TurnDuration {
    if turn.duration_ms is Some && turn.duration_ms->0 >= 0 {
        let ms = turn.duration_ms->0;
        TurnDuration { secs: (ms / 1000) as u64, subsec_millis: (ms % 1000) as u32 }
    } else {
        let secs: u64 = if turn.started_at is Some && turn.completed_at is Some {
            let d = saturating_diff(turn.completed_at->0, turn.started_at->0);
            if d >= 0 {
                d as u64
            } else {
                0
            }
        } else {
            0
        };
        TurnDuration { secs, subsec_millis: 0 }
    }
}

/// How long a turn took.
pub fn turn_duration(turn: &Turn) -> (d: TurnDuration)
    ensures
        d == turn_duration_spec(*turn),
{
    if let Some(ms) = turn.duration_ms {
        if ms >= 0 {
            let ms = ms as u64;
            return TurnDuration { secs: ms / 1000, subsec_millis: (ms % 1000) as u32 };
        }
    }
    let secs: u64 = match (turn.started_at, turn.completed_at) {
        (Some(started), Some(completed)) => {
            let d: i128 = completed as i128 - started as i128;
            let saturated: i64 = if d > i64::MAX as i128 {
                i64::MAX
            } else if d < i64::MIN as i128 {
                i64::MIN
            } else {
                d as i64
            };
            if saturated >= 0 {
                saturated as u64
            } else {
                0
            }
        },
        _ => 0,
    };
    TurnDuration { secs, subsec_millis: 0 }
}

/// What a turn becomes: its items, or, when it folds, the items up to the
/// user message, a summary of the work, and then either the rest of the
/// items (expanded) or only the final answer.
pub open spec fn turn_pushes(
    turn: Turn,
    previous_turn_id: Option<Seq<char>>,
    streaming: Seq<bool>,
    expanded_turns: Seq<Seq<char>>,
    groups: Seq<Seq<char>>,
) -> Seq<Push> {
    let items = turn.items@;
    let n = items.len() as int;
    match completed_turn_fold_spec(turn) {
        None => item_pushes(turn.id@, previous_turn_id, items, streaming, groups, 0, n),
        Some((u, f)) => {
            let expanded = expanded_turns.contains(turn.id@);
            item_pushes(
                turn.id@,
                previous_turn_id,
                items.subrange(0, u + 1),
                streaming.subrange(0, u + 1),
                groups,
                0,
                u + 1,
            ) + seq![
                Push::Block(
                    BlockView::WorkedSummary {
                        turn_id: turn.id@,
                        duration: turn_duration_spec(turn),
                        expanded,
                    },
                ),
            ] + if expanded {
                item_pushes(
                    turn.id@,
                    previous_turn_id,
                    items.subrange(u + 1, n),
                    streaming.subrange(u + 1, n),
                    groups,
                    0,
                    n - (u + 1),
                )
            } else {
                agent_pushes(items[f], streaming[f], Seq::empty(), false, false, groups)
            }
        },
    }
}

/// Pushes what a turn becomes.
pub fn append_turn(
    transcript: &mut TranscriptSnapshot,
    turn: &Turn,
    previous_turn_id: Option<&String>,
    streaming: &[bool],
    expanded_turns: &Vec<String>,
    expanded_tool_groups: &Vec<String>,
)
    requires
        streaming@.len() == turn.items@.len(),
    ensures
        final(transcript).view() == apply_pushes(
            old(transcript).view(),
            turn_pushes(
                *turn,
                match previous_turn_id {
                    Some(p) => Some(p@),
                    None => None,
                },
                streaming@,
                expanded_turns.deep_view(),
                expanded_tool_groups.deep_view(),
            ),
        ),
{
    let ghost v0 = transcript.view();
    let ghost prev = match previous_turn_id {
        Some(p) => Some(p@),
        None => None,
    };
    let ghost groups = expanded_tool_groups.deep_view();
    let fold = match completed_turn_fold(turn) {
        Some(fold) => fold,
        None => {
            append_items(
                transcript,
                &turn.id,
                previous_turn_id,
                turn.items.as_slice(),
                streaming,
                expanded_tool_groups,
            );
            return;
        },
    };
    let n = turn.items.len();
    let u = fold.user_index;
    let f = fold.final_index;
    proof {
        lemma_fold_bounds(*turn);
    }
    let head = vstd::slice::slice_subrange(turn.items.as_slice(), 0, u + 1);
    let head_streaming = vstd::slice::slice_subrange(streaming, 0, u + 1);
    append_items(transcript, &turn.id, previous_turn_id, head, head_streaming, expanded_tool_groups);
    let ghost first = item_pushes(
        turn.id@,
        prev,
        turn.items@.subrange(0, u + 1),
        streaming@.subrange(0, u + 1),
        groups,
        0,
        u + 1,
    );
    let ghost v1 = transcript.view();
    let expanded = contains_string(expanded_turns, turn.id.as_str());
    let duration = turn_duration(turn);
    let ghost summary = Push::Block(
        BlockView::WorkedSummary { turn_id: turn.id@, duration, expanded },
    );
    transcript.push_block(
        HistoryBlock::WorkedSummary { turn_id: turn.id.clone(), duration, expanded },
    );
    proof {
        lemma_one(v1, summary);
        lemma_apply_pushes_concat(v0, first, seq![summary]);
    }
    let ghost v2 = transcript.view();
    let ghost before = first + seq![summary];
    if expanded {
        let tail = vstd::slice::slice_subrange(turn.items.as_slice(), u + 1, n);
        let tail_streaming = vstd::slice::slice_subrange(streaming, u + 1, n);
        append_items(
            transcript,
            &turn.id,
            previous_turn_id,
            tail,
            tail_streaming,
            expanded_tool_groups,
        );
        proof {
            lemma_apply_pushes_concat(
                v0,
                before,
                item_pushes(
                    turn.id@,
                    prev,
                    turn.items@.subrange(u + 1, n as int),
                    streaming@.subrange(u + 1, n as int),
                    groups,
                    0,
                    n - (u + 1),
                ),
            );
        }
    } else {
        let no_tools: Vec<String> = Vec::new();
        assert(no_tools.deep_view() =~= Seq::<Seq<char>>::empty());
        append_agent(
            transcript,
            &turn.items[f],
            streaming[f],
            no_tools,
            false,
            false,
            expanded_tool_groups,
        );
        proof {
            lemma_apply_pushes_concat(
                v0,
                before,
                agent_pushes(
                    turn.items@[f as int],
                    streaming@[f as int],
                    Seq::empty(),
                    false,
                    false,
                    groups,
                ),
            );
        }
    }
}

/// A fold lies inside the turn, the user message before the final answer.
pub proof fn lemma_fold_bounds(turn: Turn)
    ensures
        match completed_turn_fold_spec(turn) {
            Some((u, f)) => 0 <= u < f < turn.items@.len(),
            None => true,
        },
{
    let items = turn.items@;
    lemma_first_user_bounds(items, 0);
    lemma_last_final_bounds(items, items.len() as int);
}

proof fn lemma_first_user_bounds(items: Seq<ThreadItem>, i: int)
    requires
        0 <= i,
    ensures
        i <= first_user(items, i) <= items.len() || i > items.len(),
    decreases items.len() - i,
{
    if i < items.len() && !(items[i] is UserMessage) {
        lemma_first_user_bounds(items, i + 1);
    }
}

proof fn lemma_last_final_bounds(items: Seq<ThreadItem>, n: int)
    ensures
        match last_final(items, n) {
            Some(f) => 0 <= f < n,
            None => true,
        },
    decreases n,
{
    if n > 0 && !is_final_agent(items[n - 1]) {
        lemma_last_final_bounds(items, n - 1);
    }
}

// ---------------------------------------------------------------------------
// The whole chat
// ---------------------------------------------------------------------------

/// Status of a step of a plan.
#[derive(Clone, Copy, Debug, PartialEq, Eq, Structural)]
pub enum TurnPlanStepStatus {
    Pending,
    InProgress,
    Completed,
}

/// A step of a plan.
#[derive(Clone, Debug, PartialEq, Eq)]
pub struct TurnPlanStep {
    pub step: String,
    pub status: TurnPlanStepStatus,
}

/// The plan that the agent reported for a turn.
#[derive(Clone, Debug, PartialEq, Eq)]
pub struct TurnPlan {
    pub explanation: Option<String>,
    pub steps: Vec<TurnPlanStep>,
}

/// A user message that the server has not taken yet.
#[derive(Clone, Debug, PartialEq, Eq)]
pub struct PendingUserMessage {
    pub client_id: String,
    pub content: Vec<UserInput>,
    /// Whether sending it failed.
    pub failed: bool,
}

/// A notice shown in the history.
#[derive(Clone, Debug, PartialEq, Eq)]
pub struct HistoryNotice {
    pub id: String,
    pub body: String,
}

/// What the transcript of a chat is built from. `streaming[t][i]` tells
/// whether item `i` of turn `t` is still being streamed, and `turn_plans[t]`
/// is the plan reported for turn `t`; approvals and input requests are
/// given by their ids.
pub struct ChatTranscriptSource {
    pub turns: Vec<Turn>,
    pub streaming: Vec<Vec<bool>>,
    pub turn_plans: Vec<Option<TurnPlan>>,
    pub pending_user_message: Option<PendingUserMessage>,
    pub notices: Vec<HistoryNotice>,
    pub pending_approvals: Vec<String>,
    pub pending_inputs: Vec<String>,
}

impl ChatTranscriptSource {
    /// There is a streaming flag for every item and a plan slot for every turn.
    pub open spec fn wf(&self) -> bool {
        &&& self.streaming@.len() == self.turns@.len()
        &&& self.turn_plans@.len() == self.turns@.len()
        &&& forall|t: int|
            0 <= t < self.turns@.len() ==> (#[trigger] self.streaming@[t])@.len()
                == self.turns@[t].items@.len()
    }
}

/// The marker of a plan step's status.
pub open spec fn step_marker(status: TurnPlanStepStatus) -> Seq<char> {
    match status {
        TurnPlanStepStatus::Pending => "\u{25cb}"@,
        TurnPlanStepStatus::InProgress => "\u{25c9}"@,
        TurnPlanStepStatus::Completed => "\u{25cf}"@,
    }
}

/// One line per step of `steps[..n]`: its marker and its text.
pub open spec fn steps_text(steps: Seq<TurnPlanStep>, n: int) -> Seq<char>
    decreases n,
{
    if n <= 0 {
        Seq::empty()
    } else {
        steps_text(steps, n - 1) + step_marker(steps[n - 1].status) + " "@ + steps[n - 1].step@
            + "\n"@
    }
}

/// The text of a plan: its explanation and a blank line, then its steps,
/// without trailing whitespace.
pub open spec fn plan_body(plan: TurnPlan) -> Seq<char> {
    trim_end_spec(
        match plan.explanation {
            Some(e) => e@ + "\n\n"@,
            None => Seq::empty(),
        } + steps_text(plan.steps@, plan.steps@.len() as int),
    )
}

/// Whether a step of the plan is in progress.
pub open spec fn plan_running(plan: TurnPlan) -> bool {
    exists|i: int|
        0 <= i < plan.steps@.len() && (#[trigger] plan.steps@[i]).status
            == TurnPlanStepStatus::InProgress
}

/// The plan block of a turn whose items hold no plan of their own.
pub open spec fn plan_pushes(turn: Turn, plan: Option<TurnPlan>) -> Seq<Push> {
    if !(exists|i: int| 0 <= i < turn.items@.len() && (#[trigger] turn.items@[i]) is Plan)
        && plan is Some {
        seq![
            Push::Block(
                BlockView::Plan {
                    key: "turn-plan-"@ + turn.id@,
                    body: plan_body(plan->0),
                    running: plan_running(plan->0),
                },
            ),
        ]
    } else {
        Seq::empty()
    }
}

/// What the first `n` turns become, each with its plan.
pub open spec fn turns_pushes(
    chat: ChatTranscriptSource,
    expanded_turns: Seq<Seq<char>>,
    groups: Seq<Seq<char>>,
    n: int,
) -> Seq<Push>
    decreases n,
{
    if n <= 0 {
        Seq::empty()
    } else {
        let t = n - 1;
        turns_pushes(chat, expanded_turns, groups, t) + turn_pushes(
            chat.turns@[t],
            if t > 0 {
                Some(chat.turns@[t - 1].id@)
            } else {
                None
            },
            chat.streaming@[t]@,
            expanded_turns,
            groups,
        ) + plan_pushes(chat.turns@[t], chat.turn_plans@[t])
    }
}

/// The block of the pending user message, when it has text.
pub open spec fn pending_pushes(pending: Option<PendingUserMessage>) -> Seq<Push> {
    match pending {
        Some(message) => {
            let body = user_input_text_spec(message.content@);
            if body.len() > 0 {
                seq![
                    Push::Block(
                        BlockView::User {
                            key: message.client_id@,
                            turn_id: None,
                            previous_turn_id: None,
                            body,
                            delivery: if message.failed {
                                UserMessageDelivery::Failed
                            } else {
                                UserMessageDelivery::Sending
                            },
                        },
                    ),
                ]
            } else {
                Seq::empty()
            }
        },
        None => Seq::empty(),
    }
}

/// What the transcript of a chat is made of: its turns with their plans,
/// the pending user message, the notices, the pending approvals and the
/// pending input requests.
pub open spec fn transcript_pushes(
    chat: ChatTranscriptSource,
    expanded_turns: Seq<Seq<char>>,
    groups: Seq<Seq<char>>,
) -> Seq<Push> {
    turns_pushes(chat, expanded_turns, groups, chat.turns@.len() as int) + pending_pushes(
        chat.pending_user_message,
    ) + chat.notices@.map_values(
        |n: HistoryNotice| Push::Block(BlockView::Notice { key: n.id@, body: n.body@ }),
    ) + chat.pending_approvals@.map_values(
        |a: String| Push::Block(BlockView::Approval { key: a@ }),
    ) + chat.pending_inputs@.map_values(
        |r: String| Push::Block(BlockView::InputRequest { key: r@ }),
    )
}

/// The text of a plan.
fn plan_text(plan: &TurnPlan) -> (r: String)
    ensures
        r@ == plan_body(*plan),
{
    let mut body = String::new();
    if let Some(explanation) = &plan.explanation {
        body.append(explanation.as_str());
        body.append("\n\n");
    }
    let ghost head = body@;
    let mut i: usize = 0;
    while i < plan.steps.len()
        invariant
            0 <= i <= plan.steps@.len(),
            body@ == head + steps_text(plan.steps@, i as int),
        decreases plan.steps@.len() - i,
    {
        let step = &plan.steps[i];
        let marker = match step.status {
            TurnPlanStepStatus::Pending => "\u{25cb}",
            TurnPlanStepStatus::InProgress => "\u{25c9}",
            TurnPlanStepStatus::Completed => "\u{25cf}",
        };
        body.append(marker);
        body.append(" ");
        body.append(step.step.as_str());
        body.append("\n");
        i = i + 1;
    }
    proof {
        assert(head == match plan.explanation {
            Some(e) => e@ + "\n\n"@,
            None => Seq::<char>::empty(),
        });
    }
    trim_end(body.as_str())
}

/// Whether a step of the plan is in progress.
fn plan_has_running_step(plan: &TurnPlan) -> (r: bool)
    ensures
        r == plan_running(*plan),
{
    let mut i: usize = 0;
    while i < plan.steps.len()
        invariant
            0 <= i <= plan.steps@.len(),
            forall|j: int|
                0 <= j < i ==> (#[trigger] plan.steps@[j]).status
                    != TurnPlanStepStatus::InProgress,
        decreases plan.steps@.len() - i,
    {
        if plan.steps[i].status == TurnPlanStepStatus::InProgress {
            return true;
        }
        i = i + 1;
    }
    false
}

/// Whether the items hold a plan.
fn has_plan_item(items: &Vec<ThreadItem>) -> (r: bool)
    ensures
        r == exists|i: int| 0 <= i < items@.len() && (#[trigger] items@[i]) is Plan,
{
    let mut i: usize = 0;
    while i < items.len()
        invariant
            0 <= i <= items@.len(),
            forall|j: int| 0 <= j < i ==> !((#[trigger] items@[j]) is Plan),
        decreases items@.len() - i,
    {
        if let ThreadItem::Plan { .. } = &items[i] {
            return true;
        }
        i = i + 1;
    }
    false
}

/// Builds the transcript of a chat: its turns (folded where they completed,
/// unless expanded), the plans of turns whose items hold none, the pending
/// user message, notices, pending approvals and pending input requests.
pub fn build_transcript(
    chat: &ChatTranscriptSource,
    expanded_turns: &Vec<String>,
    expanded_tool_groups: &Vec<String>,
) -> (t: TranscriptSnapshot)
    requires
        chat.wf(),
    ensures
        t.view() == apply_pushes(
            SnapshotView { markdown: Seq::empty(), blocks: Seq::empty() },
            transcript_pushes(*chat, expanded_turns.deep_view(), expanded_tool_groups.deep_view()),
        ),
{
    let mut transcript = TranscriptSnapshot::new();
    let ghost v0 = transcript.view();
    let ghost et = expanded_turns.deep_view();
    let ghost groups = expanded_tool_groups.deep_view();
    let mut t: usize = 0;
    while t < chat.turns.len()
        invariant
            chat.wf(),
            0 <= t <= chat.turns@.len(),
            et == expanded_turns.deep_view(),
            groups == expanded_tool_groups.deep_view(),
            transcript.view() == apply_pushes(v0, turns_pushes(*chat, et, groups, t as int)),
        decreases chat.turns@.len() - t,
    {
        let ghost v = transcript.view();
        let turn = &chat.turns[t];
        let previous = if t > 0 {
            Some(&chat.turns[t - 1].id)
        } else {
            None
        };
        let ghost prev = if t > 0 {
            Some(chat.turns@[t - 1].id@)
        } else {
            None
        };
        let ghost tp = turn_pushes(*turn, prev, chat.streaming@[t as int]@, et, groups);
        append_turn(
            &mut transcript,
            turn,
            previous,
            chat.streaming[t].as_slice(),
            expanded_turns,
            expanded_tool_groups,
        );
        let ghost v1 = transcript.view();
        let ghost pp = plan_pushes(*turn, chat.turn_plans@[t as int]);
        if !has_plan_item(&turn.items) {
            if let Some(plan) = &chat.turn_plans[t] {
                let mut key = String::from_str("turn-plan-");
                key.append(turn.id.as_str());
                let body = plan_text(plan);
                let running = plan_has_running_step(plan);
                transcript.push_block(HistoryBlock::Plan { key, body, running });
                proof {
                    lemma_one(v1, pp[0]);
                }
            }
        }
        proof {
            lemma_apply_pushes_concat(v0, turns_pushes(*chat, et, groups, t as int), tp);
            lemma_apply_pushes_concat(v0, turns_pushes(*chat, et, groups, t as int) + tp, pp);
        }
        t = t + 1;
    }
    let ghost turns_done = turns_pushes(*chat, et, groups, chat.turns@.len() as int);
    let ghost v1 = transcript.view();
    let ghost pending = pending_pushes(chat.pending_user_message);
    if let Some(message) = &chat.pending_user_message {
        let body = user_input_text(&message.content);
        if !body.as_str().is_empty() {
            let delivery = if message.failed {
                UserMessageDelivery::Failed
            } else {
                UserMessageDelivery::Sending
            };
            transcript.push_block(
                HistoryBlock::User {
                    key: message.client_id.clone(),
                    turn_id: None,
                    previous_turn_id: None,
                    body,
                    delivery,
                },
            );
            proof {
                lemma_one(v1, pending[0]);
            }
        }
    }
    proof {
        lemma_apply_pushes_concat(v0, turns_done, pending);
    }
    let ghost done = turns_done + pending;
    let ghost notices = chat.notices@.map_values(
        |n: HistoryNotice| Push::Block(BlockView::Notice { key: n.id@, body: n.body@ }),
    );
    let mut i: usize = 0;
    while i < chat.notices.len()
        invariant
            0 <= i <= chat.notices@.len(),
            notices == chat.notices@.map_values(
                |n: HistoryNotice| Push::Block(BlockView::Notice { key: n.id@, body: n.body@ }),
            ),
            transcript.view() == apply_pushes(v0, done + notices.take(i as int)),
        decreases chat.notices@.len() - i,
    {
        let ghost v = transcript.view();
        let notice = &chat.notices[i];
        transcript.push_block(
            HistoryBlock::Notice { key: notice.id.clone(), body: notice.body.clone() },
        );
        proof {
            lemma_one(v, notices[i as int]);
            lemma_apply_pushes_concat(v0, done + notices.take(i as int), seq![notices[i as int]]);
            assert(done + notices.take(i as int) + seq![notices[i as int]] =~= done + notices.take(
                i as int + 1,
            ));
        }
        i = i + 1;
    }
    assert(notices.take(chat.notices@.len() as int) =~= notices);
    let ghost done = done + notices;
    let ghost approvals = chat.pending_approvals@.map_values(
        |a: String| Push::Block(BlockView::Approval { key: a@ }),
    );
    let mut i: usize = 0;
    while i < chat.pending_approvals.len()
        invariant
            0 <= i <= chat.pending_approvals@.len(),
            approvals == chat.pending_approvals@.map_values(
                |a: String| Push::Block(BlockView::Approval { key: a@ }),
            ),
            transcript.view() == apply_pushes(v0, done + approvals.take(i as int)),
        decreases chat.pending_approvals@.len() - i,
    {
        let ghost v = transcript.view();
        transcript.push_block(HistoryBlock::Approval { key: chat.pending_approvals[i].clone() });
        proof {
            lemma_one(v, approvals[i as int]);
            lemma_apply_pushes_concat(v0, done + approvals.take(i as int), seq![approvals[i as int]]);
            assert(done + approvals.take(i as int) + seq![approvals[i as int]] =~= done
                + approvals.take(i as int + 1));
        }
        i = i + 1;
    }
    assert(approvals.take(chat.pending_approvals@.len() as int) =~= approvals);
    let ghost done = done + approvals;
    let ghost inputs = chat.pending_inputs@.map_values(
        |r: String| Push::Block(BlockView::InputRequest { key: r@ }),
    );
    let mut i: usize = 0;
    while i < chat.pending_inputs.len()
        invariant
            0 <= i <= chat.pending_inputs@.len(),
            inputs == chat.pending_inputs@.map_values(
                |r: String| Push::Block(BlockView::InputRequest { key: r@ }),
            ),
            transcript.view() == apply_pushes(v0, done + inputs.take(i as int)),
        decreases chat.pending_inputs@.len() - i,
    {
        let ghost v = transcript.view();
        transcript.push_block(HistoryBlock::InputRequest { key: chat.pending_inputs[i].clone() });
        proof {
            lemma_one(v, inputs[i as int]);
            lemma_apply_pushes_concat(v0, done + inputs.take(i as int), seq![inputs[i as int]]);
            assert(done + inputs.take(i as int) + seq![inputs[i as int]] =~= done + inputs.take(
                i as int + 1,
            ));
        }
        i = i + 1;
    }
    assert(inputs.take(chat.pending_inputs@.len() as int) =~= inputs);
    transcript
}

} // verus!
