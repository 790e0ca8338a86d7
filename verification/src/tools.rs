//! Tool calls among the items of a turn: which items are tool calls, and
//! how far each has got.
use vstd::prelude::*;
use crate::items::{
    CollabAgentToolCallStatus, CommandExecutionStatus, DynamicToolCallStatus, McpToolCallStatus,
    PatchApplyStatus, ThreadItem,
};
use crate::list_update::ToolStatus;
use crate::text::{eq_ignore_ascii_case, eq_ignore_ascii_case_spec};

verus! {

/// Whether the item is a tool call.
pub open spec fn is_tool_item_spec(item: ThreadItem) -> bool {
    ||| item is CommandExecution
    ||| item is FileChange
    ||| item is McpToolCall
    ||| item is DynamicToolCall
    ||| item is WebSearch
    ||| item is ImageView
    ||| item is CollabAgentToolCall
    ||| item is Sleep
    ||| item is ImageGeneration
}

/// Whether the item is a tool call.
pub fn is_tool_item(item: &ThreadItem) -> (r: bool)
    ensures
        r == is_tool_item_spec(*item),
{
    match item {
        ThreadItem::CommandExecution { .. } | ThreadItem::FileChange { .. }
        | ThreadItem::McpToolCall { .. } | ThreadItem::DynamicToolCall { .. }
        | ThreadItem::WebSearch { .. } | ThreadItem::ImageView { .. }
        | ThreadItem::CollabAgentToolCall { .. } | ThreadItem::Sleep { .. }
        | ThreadItem::ImageGeneration { .. } => true,
        _ => false,
    }
}

/// The status of a tool call; `streaming` tells whether the item is still
/// being streamed, for the calls that carry no status of their own.
pub open spec fn tool_status_spec(item: ThreadItem, streaming: bool) -> ToolStatus {
    match item {
        ThreadItem::CommandExecution { status, .. } => match status {
            CommandExecutionStatus::InProgress => ToolStatus::Running,
            CommandExecutionStatus::Completed => ToolStatus::Succeeded,
            _ => ToolStatus::Failed,
        },
        ThreadItem::FileChange { status, .. } => match status {
            PatchApplyStatus::InProgress => ToolStatus::Running,
            PatchApplyStatus::Completed => ToolStatus::Succeeded,
            _ => ToolStatus::Failed,
        },
        ThreadItem::McpToolCall { status, .. } => match status {
            McpToolCallStatus::InProgress => ToolStatus::Running,
            McpToolCallStatus::Completed => ToolStatus::Succeeded,
            McpToolCallStatus::Failed => ToolStatus::Failed,
        },
        ThreadItem::DynamicToolCall { status, success, .. } => match status {
            DynamicToolCallStatus::InProgress => ToolStatus::Running,
            DynamicToolCallStatus::Completed => if success != Some(false) {
                ToolStatus::Succeeded
            } else {
                ToolStatus::Failed
            },
            DynamicToolCallStatus::Failed => ToolStatus::Failed,
        },
        ThreadItem::WebSearch { .. } | ThreadItem::ImageView { .. } | ThreadItem::Sleep { .. } =>
            if streaming {
            ToolStatus::Running
        } else {
            ToolStatus::Succeeded
        },
        ThreadItem::CollabAgentToolCall { status, .. } => match status {
            CollabAgentToolCallStatus::InProgress => ToolStatus::Running,
            CollabAgentToolCallStatus::Completed => ToolStatus::Succeeded,
            CollabAgentToolCallStatus::Failed => ToolStatus::Failed,
        },
        ThreadItem::ImageGeneration { status, .. } => if streaming || eq_ignore_ascii_case_spec(
            status@,
            "in_progress"@,
        ) {
            ToolStatus::Running
        } else if eq_ignore_ascii_case_spec(status@, "failed"@) || eq_ignore_ascii_case_spec(
            status@,
            "error"@,
        ) {
            ToolStatus::Failed
        } else {
            ToolStatus::Succeeded
        },
        _ => ToolStatus::Failed,
    }
}

/// The status of a tool call.
pub fn tool_status(item: &ThreadItem, streaming: bool) -> (r: ToolStatus)
    ensures
        r == tool_status_spec(*item, streaming),
{
    match item {
        ThreadItem::CommandExecution { status, .. } => match status {
            CommandExecutionStatus::InProgress => ToolStatus::Running,
            CommandExecutionStatus::Completed => ToolStatus::Succeeded,
            _ => ToolStatus::Failed,
        },
        ThreadItem::FileChange { status, .. } => match status {
            PatchApplyStatus::InProgress => ToolStatus::Running,
            PatchApplyStatus::Completed => ToolStatus::Succeeded,
            _ => ToolStatus::Failed,
        },
        ThreadItem::McpToolCall { status, .. } => match status {
            McpToolCallStatus::InProgress => ToolStatus::Running,
            McpToolCallStatus::Completed => ToolStatus::Succeeded,
            McpToolCallStatus::Failed => ToolStatus::Failed,
        },
        ThreadItem::DynamicToolCall { status, success, .. } => match status {
            DynamicToolCallStatus::InProgress => ToolStatus::Running,
            DynamicToolCallStatus::Completed => {
                let failed = match success {
                    Some(ok) => !*ok,
                    None => false,
                };
                if !failed {
                    ToolStatus::Succeeded
                } else {
                    ToolStatus::Failed
                }
            },
            DynamicToolCallStatus::Failed => ToolStatus::Failed,
        },
        ThreadItem::WebSearch { .. } | ThreadItem::ImageView { .. } | ThreadItem::Sleep { .. } => {
            if streaming {
                ToolStatus::Running
            } else {
                ToolStatus::Succeeded
            }
        },
        ThreadItem::CollabAgentToolCall { status, .. } => match status {
            CollabAgentToolCallStatus::InProgress => ToolStatus::Running,
            CollabAgentToolCallStatus::Completed => ToolStatus::Succeeded,
            CollabAgentToolCallStatus::Failed => ToolStatus::Failed,
        },
        ThreadItem::ImageGeneration { status, .. } => {
            if streaming || eq_ignore_ascii_case(status.as_str(), "in_progress") {
                ToolStatus::Running
            } else if eq_ignore_ascii_case(status.as_str(), "failed") || eq_ignore_ascii_case(
                status.as_str(),
                "error",
            ) {
                ToolStatus::Failed
            } else {
                ToolStatus::Succeeded
            }
        },
        _ => ToolStatus::Failed,
    }
}

/// Whether the items in `start..end` hold a tool call and every tool call
/// among them has finished.
pub open spec fn tools_done_spec(
    items: Seq<ThreadItem>,
    streaming: Seq<bool>,
    start: int,
    end: int,
) -> bool {
    &&& exists|i: int| start <= i < end && is_tool_item_spec(#[trigger] items[i])
    &&& forall|i: int|
        start <= i < end && is_tool_item_spec(#[trigger] items[i]) ==> tool_status_spec(
            items[i],
            streaming[i],
        ) != ToolStatus::Running
}

/// Whether the items in `start..end` hold a tool call and every tool call
/// among them has finished; `streaming[i]` tells whether item `i` is still
/// being streamed.
pub fn tools_done_in(items: &[ThreadItem], streaming: &[bool], start: usize, end: usize) -> (r:
    bool)
    requires
        start <= end <= items@.len(),
        streaming@.len() == items@.len(),
    ensures
        r == tools_done_spec(items@, streaming@, start as int, end as int),
{
    let mut any = false;
    let mut i = start;
    while i < end
        invariant
            start <= i <= end <= items@.len(),
            streaming@.len() == items@.len(),
            any == exists|j: int| start <= j < i && is_tool_item_spec(#[trigger] items@[j]),
            forall|j: int|
                start <= j < i && is_tool_item_spec(#[trigger] items@[j]) ==> tool_status_spec(
                    items@[j],
                    streaming@[j],
                ) != ToolStatus::Running,
        decreases end - i,
    {
        if is_tool_item(&items[i]) {
            any = true;
            if !tool_status(&items[i], streaming[i]).done() {
                return false;
            }
        }
        i = i + 1;
    }
    any
}

/// Whether `tools` is not empty and every call in it has finished.
pub fn tools_done(tools: &[ThreadItem], streaming: &[bool]) -> (r: bool)
    requires
        streaming@.len() == tools@.len(),
    ensures
        r == tools_done_spec(tools@, streaming@, 0, tools@.len() as int),
{
    tools_done_in(tools, streaming, 0, tools.len())
}

/// The noun for `count` tool calls.
pub fn pluralize(count: usize, singular: &'static str) -> (r: &'static str)
    ensures
        r@ == if count == 1 {
            singular@
        } else {
            "tool calls"@
        },
{
    if count == 1 {
        singular
    } else {
        "tool calls"
    }
}

} // verus!
