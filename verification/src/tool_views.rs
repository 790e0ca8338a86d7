//! What the transcript shows of each tool call: its title, its detail
//! lines and the lines it adds and removes.
use vstd::prelude::*;
use vstd::string::StringExecFns;
use crate::items::{CollabAgentTool, FileUpdateChange, PatchChangeKind, ThreadItem};
use crate::list_update::ToolStatus;
use crate::text::{
    chars_of, decimal, is_whitespace, is_whitespace_spec, join, join_strings, push_char,
    push_decimal, push_signed_decimal, signed_decimal, string_of,
};
use crate::thread_mapping::{DiffStats, diff_stats, diff_stats_spec};
use crate::tools::pluralize;

verus! {

// ---------------------------------------------------------------------------
// Words
// ---------------------------------------------------------------------------

/// The words of `s[i..]` after the word `current` begun before `i`: the
/// maximal runs of characters that are not whitespace.
pub open spec fn words_from(s: Seq<char>, i: int, current: Seq<char>) -> Seq<Seq<char>>
    decreases s.len() - i,
{
    if i < 0 || i >= s.len() {
        if current.len() > 0 {
            seq![current]
        } else {
            Seq::empty()
        }
    } else if is_whitespace_spec(s[i]) {
        (if current.len() > 0 {
            seq![current]
        } else {
            Seq::empty()
        }) + words_from(s, i + 1, Seq::empty())
    } else {
        words_from(s, i + 1, current.push(s[i]))
    }
}

/// `value` on one line: its words separated by single spaces.
pub open spec fn single_line_spec(value: Seq<char>) -> Seq<char> {
    join(words_from(value, 0, Seq::empty()), " "@)
}

/// `value` on one line: its words separated by single spaces.
pub fn single_line(value: &str) -> (r: String)
    ensures
        r@ == single_line_spec(value@),
{
    let chars = chars_of(value);
    let mut words: Vec<String> = Vec::new();
    let mut current: Vec<char> = Vec::new();
    let mut i: usize = 0;
    while i < chars.len()
        invariant
            0 <= i <= chars@.len(),
            chars@ == value@,
            words_from(chars@, 0, Seq::empty()) == words.deep_view() + words_from(
                chars@,
                i as int,
                current@,
            ),
        decreases chars@.len() - i,
    {
        let c = chars[i];
        let ghost before = words.deep_view();
        if is_whitespace(c) {
            if current.len() > 0 {
                let word = string_of(&current);
                words.push(word);
                assert(words.deep_view() =~= before + seq![current@]);
                assert(before + seq![current@] + words_from(chars@, i as int + 1, Seq::empty())
                    =~= before + (seq![current@] + words_from(chars@, i as int + 1, Seq::empty())));
            } else {
                assert(before + (Seq::<Seq<char>>::empty() + words_from(
                    chars@,
                    i as int + 1,
                    Seq::empty(),
                )) =~= before + words_from(chars@, i as int + 1, Seq::empty()));
            }
            current = Vec::new();
            assert(current@ =~= Seq::<char>::empty());
        } else {
            current.push(c);
        }
        i = i + 1;
    }
    if current.len() > 0 {
        let ghost before = words.deep_view();
        let word = string_of(&current);
        words.push(word);
        assert(words.deep_view() =~= before + seq![current@]);
    } else {
        assert(words.deep_view() + Seq::<Seq<char>>::empty() =~= words.deep_view());
    }
    join_strings(&words, " ")
}

// ---------------------------------------------------------------------------
// File changes
// ---------------------------------------------------------------------------

/// The verb for a file change: its kind, in the progressive while running.
pub open spec fn file_change_action_spec(kind: PatchChangeKind, running: bool) -> Seq<char> {
    match kind {
        PatchChangeKind::Add => if running {
            "Adding"@
        } else {
            "Added"@
        },
        PatchChangeKind::Delete => if running {
            "Deleting"@
        } else {
            "Deleted"@
        },
        PatchChangeKind::Update { move_path: None } => if running {
            "Editing"@
        } else {
            "Edited"@
        },
        PatchChangeKind::Update { move_path: Some(_) } => if running {
            "Moving"@
        } else {
            "Moved"@
        },
    }
}

/// The verb for a file change.
pub fn file_change_action(kind: &PatchChangeKind, status: ToolStatus) -> (r: &'static str)
    ensures
        r@ == file_change_action_spec(*kind, status == ToolStatus::Running),
{
    let running = match status {
        ToolStatus::Running => true,
        _ => false,
    };
    match kind {
        PatchChangeKind::Add => if running {
            "Adding"
        } else {
            "Added"
        },
        PatchChangeKind::Delete => if running {
            "Deleting"
        } else {
            "Deleted"
        },
        PatchChangeKind::Update { move_path: None } => if running {
            "Editing"
        } else {
            "Edited"
        },
        PatchChangeKind::Update { move_path: Some(_) } => if running {
            "Moving"
        } else {
            "Moved"
        },
    }
}

/// The path shown for a change: with its destination when it moves the file.
pub open spec fn change_path_text(change: FileUpdateChange) -> Seq<char> {
    match change.kind {
        PatchChangeKind::Update { move_path: Some(m) } => change.path@ + " \u{2192} "@ + m@,
        _ => change.path@,
    }
}

/// Whether every change of `changes` has the same verb as the first.
pub open spec fn all_same_action(changes: Seq<FileUpdateChange>, running: bool) -> bool {
    forall|i: int|
        0 <= i < changes.len() ==> file_change_action_spec(#[trigger] changes[i].kind, running)
            == file_change_action_spec(changes[0].kind, running)
}

/// The title of a file change: the verb and path of a single change, the
/// verb and count of changes that share a verb, else a general verb and
/// the count.
pub open spec fn file_change_title_spec(changes: Seq<FileUpdateChange>, running: bool) -> Seq<char> {
    if changes.len() == 0 {
        "Preparing file edits"@
    } else {
        let action = file_change_action_spec(changes[0].kind, running);
        if changes.len() == 1 {
            action + " "@ + change_path_text(changes[0])
        } else if all_same_action(changes, running) {
            action + " "@ + decimal(changes.len()) + " files"@
        } else {
            (if running {
                "Changing"@
            } else {
                "Changed"@
            }) + " "@ + decimal(changes.len()) + " files"@
        }
    }
}

/// The lines added by the first `n` changes.
pub open spec fn total_additions(changes: Seq<FileUpdateChange>, n: int) -> nat
    decreases n,
{
    if n <= 0 {
        0
    } else {
        total_additions(changes, n - 1) + diff_stats_spec(changes[n - 1].diff@).0
    }
}

/// The lines removed by the first `n` changes.
pub open spec fn total_deletions(changes: Seq<FileUpdateChange>, n: int) -> nat
    decreases n,
{
    if n <= 0 {
        0
    } else {
        total_deletions(changes, n - 1) + diff_stats_spec(changes[n - 1].diff@).1
    }
}

/// The totals fit in a `usize`.
pub open spec fn totals_fit(changes: Seq<FileUpdateChange>) -> bool {
    total_additions(changes, changes.len() as int) <= usize::MAX && total_deletions(
        changes,
        changes.len() as int,
    ) <= usize::MAX
}

proof fn lemma_totals_grow(changes: Seq<FileUpdateChange>, k: int, n: int)
    requires
        0 <= k <= n <= changes.len(),
    ensures
        total_additions(changes, k) <= total_additions(changes, n),
        total_deletions(changes, k) <= total_deletions(changes, n),
    decreases n - k,
{
    if k < n {
        lemma_totals_grow(changes, k, n - 1);
    }
}

/// The lines added and removed by all the changes.
fn change_totals(changes: &Vec<FileUpdateChange>) -> (r: DiffStats)
    requires
        totals_fit(changes@),
    ensures
        r.additions == total_additions(changes@, changes@.len() as int),
        r.deletions == total_deletions(changes@, changes@.len() as int),
{
    let mut additions: usize = 0;
    let mut deletions: usize = 0;
    let mut i: usize = 0;
    while i < changes.len()
        invariant
            0 <= i <= changes@.len(),
            totals_fit(changes@),
            additions == total_additions(changes@, i as int),
            deletions == total_deletions(changes@, i as int),
        decreases changes@.len() - i,
    {
        let stats = diff_stats(changes[i].diff.as_str());
        proof {
            lemma_totals_grow(changes@, i as int + 1, changes@.len() as int);
        }
        additions = additions + stats.additions;
        deletions = deletions + stats.deletions;
        i = i + 1;
    }
    DiffStats { additions, deletions }
}

/// The title of a file change.
fn file_change_title(changes: &Vec<FileUpdateChange>, status: ToolStatus) -> (r: String)
    ensures
        r@ == file_change_title_spec(changes@, status == ToolStatus::Running),
{
    let ghost running = status == ToolStatus::Running;
    let n = changes.len();
    if n == 0 {
        return String::from_str("Preparing file edits");
    }
    let action = file_change_action(&changes[0].kind, status);
    if n == 1 {
        let mut title = String::from_str(action);
        title.append(" ");
        title.append(changes[0].path.as_str());
        if let PatchChangeKind::Update { move_path: Some(m) } = &changes[0].kind {
            title.append(" \u{2192} ");
            title.append(m.as_str());
        }
        return title;
    }
    let mut same = true;
    let mut i: usize = 0;
    while i < n
        invariant
            0 <= i <= n,
            n == changes@.len(),
            action@ == file_change_action_spec(changes@[0].kind, running),
            running == (status == ToolStatus::Running),
            same == forall|j: int|
                0 <= j < i ==> file_change_action_spec(#[trigger] changes@[j].kind, running)
                    == file_change_action_spec(changes@[0].kind, running),
        decreases n - i,
    {
        let other = file_change_action(&changes[i].kind, status);
        if !crate::text::str_eq(other, action) {
            same = false;
        }
        i = i + 1;
    }
    let mut title = if same {
        String::from_str(action)
    } else if let ToolStatus::Running = status {
        String::from_str("Changing")
    } else {
        String::from_str("Changed")
    };
    title.append(" ");
    push_decimal(&mut title, n as u64);
    title.append(" files");
    title
}

/// What the transcript shows of a file-change call.
pub struct FileChangeToolView {
    pub title: String,
    pub change_labels: Vec<String>,
    pub show_detail: bool,
    pub additions: usize,
    pub deletions: usize,
}

/// What the transcript shows of a file-change call: its title, the paths of
/// its changes, and the lines they add and remove; with no changes yet, the
/// detail shows only while there is progress.
pub fn file_change_tool_view(
    changes: &Vec<FileUpdateChange>,
    status: ToolStatus,
    has_progress: bool,
) -> (r: FileChangeToolView)
    requires
        totals_fit(changes@),
    ensures
        r.title@ == file_change_title_spec(changes@, status == ToolStatus::Running),
        r.change_labels.deep_view() == changes@.map_values(|c: FileUpdateChange| c.path@),
        r.show_detail == (changes@.len() > 0 || has_progress),
        r.additions == total_additions(changes@, changes@.len() as int),
        r.deletions == total_deletions(changes@, changes@.len() as int),
{
    let title = file_change_title(changes, status);
    let totals = change_totals(changes);
    let mut labels: Vec<String> = Vec::new();
    let mut i: usize = 0;
    while i < changes.len()
        invariant
            0 <= i <= changes@.len(),
            labels.deep_view() == changes@.take(i as int).map_values(
                |c: FileUpdateChange| c.path@,
            ),
        decreases changes@.len() - i,
    {
        let ghost before = labels.deep_view();
        labels.push(changes[i].path.clone());
        assert(labels.deep_view() =~= before.push(changes@[i as int].path@));
        assert(labels.deep_view() =~= changes@.take(i as int + 1).map_values(
            |c: FileUpdateChange| c.path@,
        ));
        i = i + 1;
    }
    assert(changes@.take(changes@.len() as int) =~= changes@);
    FileChangeToolView {
        title,
        change_labels: labels,
        show_detail: changes.len() > 0 || has_progress,
        additions: totals.additions,
        deletions: totals.deletions,
    }
}

// ---------------------------------------------------------------------------
// Tool call summaries
// ---------------------------------------------------------------------------

/// The icon family of a tool call.
#[derive(Clone, Copy, Debug, PartialEq, Eq, Structural)]
pub enum ToolKind {
    Command,
    File,
    Mcp,
    Dynamic,
}

/// What a tool call's summary chip shows: its kind, its text, and the
/// lines it adds and removes when it changes any.
pub struct ToolCallContent {
    pub kind: ToolKind,
    pub content: String,
    pub diff: Option<DiffStats>,
}

/// The verb of a call, by whether it runs.
pub open spec fn call_verb(running: bool, ongoing: Seq<char>, done: Seq<char>) -> Seq<char> {
    if running {
        ongoing
    } else {
        done
    }
}

/// The summary of a tool call: a command with its one-line text, a file
/// change with its title and line counts, an MCP call as `server.tool`, a
/// dynamic call with its namespace when it has one.
pub open spec fn tool_call_content_spec(tool: ThreadItem, running: bool) -> (ToolKind, Seq<char>, Option<(nat, nat)>) {
    match tool {
        ThreadItem::CommandExecution { command, .. } => (
            ToolKind::Command,
            call_verb(running, "Running"@, "Ran"@) + " "@ + single_line_spec(command@),
            None,
        ),
        ThreadItem::FileChange { changes, .. } => {
            let additions = total_additions(changes@, changes@.len() as int);
            let deletions = total_deletions(changes@, changes@.len() as int);
            (
                ToolKind::File,
                file_change_title_spec(changes@, running),
                if changes@.len() > 0 && (additions > 0 || deletions > 0) {
                    Some((additions, deletions))
                } else {
                    None
                },
            )
        },
        ThreadItem::McpToolCall { server, tool, .. } => (
            ToolKind::Mcp,
            call_verb(running, "Calling"@, "Called"@) + " "@ + server@ + "."@ + tool@,
            None,
        ),
        ThreadItem::DynamicToolCall { namespace, tool, .. } => (
            ToolKind::Dynamic,
            call_verb(running, "Calling"@, "Called"@) + " "@ + match namespace {
                Some(ns) => ns@ + "."@ + tool@,
                None => tool@,
            },
            None,
        ),
        _ => (ToolKind::Dynamic, "Tool call"@, None),
    }
}

/// Whether the item's line totals fit in a `usize`.
pub open spec fn content_fits(tool: ThreadItem) -> bool {
    match tool {
        ThreadItem::FileChange { changes, .. } => totals_fit(changes@),
        _ => true,
    }
}

/// The summary of a tool call.
pub fn tool_call_content(tool: &ThreadItem, status: ToolStatus) -> (r: ToolCallContent)
    requires
        content_fits(*tool),
    ensures
        (r.kind, r.content@, match r.diff {
            Some(d) => Some((d.additions as nat, d.deletions as nat)),
            None => None,
        }) == tool_call_content_spec(*tool, status == ToolStatus::Running),
{
    let running = match status {
        ToolStatus::Running => true,
        _ => false,
    };
    match tool {
        ThreadItem::CommandExecution { command, .. } => {
            let mut content = String::from_str(if running { "Running" } else { "Ran" });
            content.append(" ");
            content.append(single_line(command.as_str()).as_str());
            ToolCallContent { kind: ToolKind::Command, content, diff: None }
        },
        ThreadItem::FileChange { changes, .. } => {
            let content = file_change_title(changes, status);
            let diff = if changes.len() > 0 {
                let totals = change_totals(changes);
                if totals.additions > 0 || totals.deletions > 0 {
                    Some(totals)
                } else {
                    None
                }
            } else {
                None
            };
            ToolCallContent { kind: ToolKind::File, content, diff }
        },
        ThreadItem::McpToolCall { server, tool, .. } => {
            let mut content = String::from_str(if running { "Calling" } else { "Called" });
            content.append(" ");
            content.append(server.as_str());
            content.append(".");
            content.append(tool.as_str());
            ToolCallContent { kind: ToolKind::Mcp, content, diff: None }
        },
        ThreadItem::DynamicToolCall { namespace, tool, .. } => {
            let mut content = String::from_str(if running { "Calling" } else { "Called" });
            content.append(" ");
            if let Some(ns) = namespace {
                content.append(ns.as_str());
                content.append(".");
            }
            content.append(tool.as_str());
            ToolCallContent { kind: ToolKind::Dynamic, content, diff: None }
        },
        _ => ToolCallContent {
            kind: ToolKind::Dynamic,
            content: String::from_str("Tool call"),
            diff: None,
        },
    }
}

// ---------------------------------------------------------------------------
// Details
// ---------------------------------------------------------------------------

/// A tool's detail followed by its progress lines, a blank line between;
/// `None` when both are empty or missing.
pub open spec fn append_progress_spec(
    detail: Option<Seq<char>>,
    progress: Option<Seq<Seq<char>>>,
) -> Option<Seq<char>> {
    let first: Seq<Seq<char>> = match detail {
        Some(d) => if d.len() > 0 {
            seq![d]
        } else {
            Seq::empty()
        },
        None => Seq::empty(),
    };
    let second: Seq<Seq<char>> = match progress {
        Some(lines) => {
            let text = join(lines, "\n"@);
            if text.len() > 0 {
                seq![text]
            } else {
                Seq::empty()
            }
        },
        None => Seq::empty(),
    };
    let parts = first + second;
    if parts.len() == 0 {
        None
    } else {
        Some(join(parts, "\n\n"@))
    }
}

/// A tool's detail followed by its progress lines.
pub fn append_progress(detail: Option<String>, progress: Option<&Vec<String>>) -> (r: Option<
    String,
>)
    ensures
        match r {
            Some(t) => append_progress_spec(
                match detail {
                    Some(d) => Some(d@),
                    None => None,
                },
                match progress {
                    Some(p) => Some(p.deep_view()),
                    None => None,
                },
            ) == Some(t@),
            None => append_progress_spec(
                match detail {
                    Some(d) => Some(d@),
                    None => None,
                },
                match progress {
                    Some(p) => Some(p.deep_view()),
                    None => None,
                },
            ) is None,
        },
{
    let ghost d_view = match &detail {
        Some(d) => Some(d@),
        None => None,
    };
    let mut parts: Vec<String> = Vec::new();
    if let Some(d) = detail {
        if !d.as_str().is_empty() {
            parts.push(d);
        }
    }
    let ghost first = parts.deep_view();
    if let Some(lines) = progress {
        let text = join_strings(lines, "\n");
        if !text.as_str().is_empty() {
            parts.push(text);
        }
    }
    proof {
        let expected_first: Seq<Seq<char>> = match d_view {
            Some(d) => if d.len() > 0 {
                seq![d]
            } else {
                Seq::empty()
            },
            None => Seq::empty(),
        };
        assert(first =~= expected_first);
        let expected_second: Seq<Seq<char>> = match progress {
            Some(lines) => {
                let text = join(lines.deep_view(), "\n"@);
                if text.len() > 0 {
                    seq![text]
                } else {
                    Seq::empty()
                }
            },
            None => Seq::empty(),
        };
        assert(parts.deep_view() =~= expected_first + expected_second);
    }
    if parts.len() == 0 {
        None
    } else {
        Some(join_strings(&parts, "\n\n"))
    }
}

/// The title of a call that hands work to another agent, by what it does
/// and how far it got.
pub open spec fn collaboration_title_spec(tool: CollabAgentTool, status: ToolStatus) -> Seq<char> {
    match status {
        ToolStatus::Running => match tool {
            CollabAgentTool::SpawnAgent => "Spawning agent"@,
            CollabAgentTool::SendInput => "Sending input to agent"@,
            CollabAgentTool::ResumeAgent => "Resuming agent"@,
            CollabAgentTool::Wait => "Waiting for agents"@,
            CollabAgentTool::CloseAgent => "Closing agent"@,
        },
        ToolStatus::Succeeded => match tool {
            CollabAgentTool::SpawnAgent => "Spawned agent"@,
            CollabAgentTool::SendInput => "Sent input to agent"@,
            CollabAgentTool::ResumeAgent => "Resumed agent"@,
            CollabAgentTool::Wait => "Waited for agents"@,
            CollabAgentTool::CloseAgent => "Closed agent"@,
        },
        ToolStatus::Failed => match tool {
            CollabAgentTool::SpawnAgent => "Failed to spawn agent"@,
            CollabAgentTool::SendInput => "Failed to send input to agent"@,
            CollabAgentTool::ResumeAgent => "Failed to resume agent"@,
            CollabAgentTool::Wait => "Failed while waiting for agents"@,
            CollabAgentTool::CloseAgent => "Failed to close agent"@,
        },
    }
}

/// The title of a call that hands work to another agent.
pub fn collaboration_title(tool: CollabAgentTool, status: ToolStatus) -> (r: &'static str)
    ensures
        r@ == collaboration_title_spec(tool, status),
{
    match status {
        ToolStatus::Running => match tool {
            CollabAgentTool::SpawnAgent => "Spawning agent",
            CollabAgentTool::SendInput => "Sending input to agent",
            CollabAgentTool::ResumeAgent => "Resuming agent",
            CollabAgentTool::Wait => "Waiting for agents",
            CollabAgentTool::CloseAgent => "Closing agent",
        },
        ToolStatus::Succeeded => match tool {
            CollabAgentTool::SpawnAgent => "Spawned agent",
            CollabAgentTool::SendInput => "Sent input to agent",
            CollabAgentTool::ResumeAgent => "Resumed agent",
            CollabAgentTool::Wait => "Waited for agents",
            CollabAgentTool::CloseAgent => "Closed agent",
        },
        ToolStatus::Failed => match tool {
            CollabAgentTool::SpawnAgent => "Failed to spawn agent",
            CollabAgentTool::SendInput => "Failed to send input to agent",
            CollabAgentTool::ResumeAgent => "Failed to resume agent",
            CollabAgentTool::Wait => "Failed while waiting for agents",
            CollabAgentTool::CloseAgent => "Failed to close agent",
        },
    }
}

/// The title of an image generation by how far it got.
pub open spec fn image_generation_title(status: ToolStatus) -> Seq<char> {
    match status {
        ToolStatus::Running => "Generating image"@,
        ToolStatus::Succeeded => "Generated image"@,
        ToolStatus::Failed => "Image generation failed"@,
    }
}

/// The detail lines of an image generation: its revised prompt, where it
/// was saved, and whether its background is transparent.
pub open spec fn image_generation_details(
    revised_prompt: Option<Seq<char>>,
    saved_path: Option<Seq<char>>,
    transparent_background: Option<bool>,
) -> Seq<Seq<char>> {
    (match revised_prompt {
        Some(p) => seq![p],
        None => Seq::empty(),
    }) + (match saved_path {
        Some(p) => seq!["saved to: "@ + p],
        None => Seq::empty(),
    }) + if transparent_background == Some(true) {
        seq!["transparent background"@]
    } else {
        Seq::empty()
    }
}

/// The title and detail of an image generation.
pub fn image_generation_view(
    status: ToolStatus,
    revised_prompt: &Option<String>,
    saved_path: &Option<String>,
    transparent_background: Option<bool>,
    progress: Option<&Vec<String>>,
) -> (r: (&'static str, Option<String>))
    ensures
        r.0@ == image_generation_title(status),
        match r.1 {
            Some(t) => append_progress_spec(
                if image_generation_details(
                    match revised_prompt {
                        Some(p) => Some(p@),
                        None => None,
                    },
                    match saved_path {
                        Some(p) => Some(p@),
                        None => None,
                    },
                    transparent_background,
                ).len() > 0 {
                    Some(
                        join(
                            image_generation_details(
                                match revised_prompt {
                                    Some(p) => Some(p@),
                                    None => None,
                                },
                                match saved_path {
                                    Some(p) => Some(p@),
                                    None => None,
                                },
                                transparent_background,
                            ),
                            "\n"@,
                        ),
                    )
                } else {
                    None
                },
                match progress {
                    Some(p) => Some(p.deep_view()),
                    None => None,
                },
            ) == Some(t@),
            None => append_progress_spec(
                if image_generation_details(
                    match revised_prompt {
                        Some(p) => Some(p@),
                        None => None,
                    },
                    match saved_path {
                        Some(p) => Some(p@),
                        None => None,
                    },
                    transparent_background,
                ).len() > 0 {
                    Some(
                        join(
                            image_generation_details(
                                match revised_prompt {
                                    Some(p) => Some(p@),
                                    None => None,
                                },
                                match saved_path {
                                    Some(p) => Some(p@),
                                    None => None,
                                },
                                transparent_background,
                            ),
                            "\n"@,
                        ),
                    )
                } else {
                    None
                },
                match progress {
                    Some(p) => Some(p.deep_view()),
                    None => None,
                },
            ) is None,
        },
{
    let title = match status {
        ToolStatus::Running => "Generating image",
        ToolStatus::Succeeded => "Generated image",
        ToolStatus::Failed => "Image generation failed",
    };
    let mut details: Vec<String> = Vec::new();
    if let Some(p) = revised_prompt {
        details.push(p.clone());
    }
    let ghost after_prompt = details.deep_view();
    if let Some(p) = saved_path {
        let mut line = String::from_str("saved to: ");
        line.append(p.as_str());
        details.push(line);
    }
    let ghost after_path = details.deep_view();
    let transparent = match transparent_background {
        Some(t) => t,
        None => false,
    };
    if transparent {
        details.push(String::from_str("transparent background"));
    }
    proof {
        let rp = match revised_prompt {
            Some(p) => Some(p@),
            None => None,
        };
        let sp = match saved_path {
            Some(p) => Some(p@),
            None => None,
        };
        assert(details.deep_view() =~= image_generation_details(rp, sp, transparent_background));
    }
    let detail = if details.len() > 0 {
        Some(join_strings(&details, "\n"))
    } else {
        None
    };
    (title, append_progress(detail, progress))
}

/// A duration as the worked summary shows it: whole minutes and two-digit
/// seconds, or only seconds under a minute.
pub open spec fn format_duration_spec(secs: u64) -> Seq<char> {
    let minutes = secs / 60;
    let seconds = secs % 60;
    if minutes > 0 {
        decimal(minutes as nat) + "m "@ + (if seconds < 10 {
            seq!['0']
        } else {
            Seq::empty()
        }) + decimal(seconds as nat) + "s"@
    } else {
        decimal(seconds as nat) + "s"@
    }
}

/// A duration as the worked summary shows it.
pub fn format_duration(secs: u64) -> (r: String)
    ensures
        r@ == format_duration_spec(secs),
{
    let minutes = secs / 60;
    let seconds = secs % 60;
    let mut r = String::new();
    if minutes > 0 {
        push_decimal(&mut r, minutes);
        r.append("m ");
        if seconds < 10 {
            push_char(&mut r, '0');
        }
        push_decimal(&mut r, seconds);
        r.append("s");
        proof {
            if seconds < 10 {
                assert(r@ =~= decimal(minutes as nat) + "m "@ + seq!['0'] + decimal(seconds as nat)
                    + "s"@);
            } else {
                assert(r@ =~= decimal(minutes as nat) + "m "@ + Seq::<char>::empty() + decimal(
                    seconds as nat,
                ) + "s"@);
            }
        }
    } else {
        push_decimal(&mut r, seconds);
        r.append("s");
    }
    r
}

/// What the transcript shows of a command call.
pub struct CommandToolView {
    pub title: String,
    pub before_output: Vec<String>,
    pub after_output: Vec<String>,
}

/// The lines shown after a command's output: its exit code and duration
/// when known, then its progress lines after a blank line.
pub open spec fn command_after_output(
    exit_code: Option<i32>,
    duration_ms: Option<i64>,
    progress: Option<Seq<Seq<char>>>,
) -> Seq<Seq<char>> {
    let known = (match exit_code {
        Some(c) => seq!["exit code: "@ + signed_decimal(c as int)],
        None => Seq::empty(),
    }) + match duration_ms {
        Some(d) => seq!["duration: "@ + signed_decimal(d as int) + " ms"@],
        None => Seq::empty(),
    };
    match progress {
        Some(lines) => if lines.len() > 0 {
            known + (if known.len() > 0 {
                seq![Seq::empty()]
            } else {
                Seq::empty()
            }) + lines
        } else {
            known
        },
        None => known,
    }
}

/// What the transcript shows of a command call: its title, its working
/// directory before the output, and its exit code, duration and progress
/// after it.
pub fn command_tool_view(
    command: &str,
    cwd: &str,
    exit_code: Option<i32>,
    duration_ms: Option<i64>,
    status: ToolStatus,
    progress: Option<&Vec<String>>,
) -> (r: CommandToolView)
    ensures
        r.title@ == call_verb(status == ToolStatus::Running, "Running"@, "Ran"@) + " "@
            + single_line_spec(command@),
        r.before_output.deep_view() == seq!["cwd: "@ + cwd@],
        r.after_output.deep_view() == command_after_output(
            exit_code,
            duration_ms,
            match progress {
                Some(p) => Some(p.deep_view()),
                None => None,
            },
        ),
{
    let running = match status {
        ToolStatus::Running => true,
        _ => false,
    };
    let mut title = String::from_str(if running { "Running" } else { "Ran" });
    title.append(" ");
    title.append(single_line(command).as_str());
    let mut before: Vec<String> = Vec::new();
    let mut line = String::from_str("cwd: ");
    line.append(cwd);
    before.push(line);
    assert(before.deep_view() =~= seq!["cwd: "@ + cwd@]);
    let mut after: Vec<String> = Vec::new();
    if let Some(code) = exit_code {
        let mut text = String::from_str("exit code: ");
        push_signed_decimal(&mut text, code as i64);
        after.push(text);
    }
    let ghost with_code = after.deep_view();
    if let Some(ms) = duration_ms {
        let mut text = String::from_str("duration: ");
        push_signed_decimal(&mut text, ms);
        text.append(" ms");
        after.push(text);
    }
    let ghost known = after.deep_view();
    proof {
        assert(known =~= (match exit_code {
            Some(c) => seq!["exit code: "@ + signed_decimal(c as int)],
            None => Seq::<Seq<char>>::empty(),
        }) + match duration_ms {
            Some(d) => seq!["duration: "@ + signed_decimal(d as int) + " ms"@],
            None => Seq::<Seq<char>>::empty(),
        });
    }
    if let Some(lines) = progress {
        if lines.len() > 0 {
            if after.len() > 0 {
                after.push(String::new());
            }
            let ghost with_blank = after.deep_view();
            let mut i: usize = 0;
            while i < lines.len()
                invariant
                    0 <= i <= lines@.len(),
                    after.deep_view() == with_blank + lines.deep_view().take(i as int),
                decreases lines@.len() - i,
            {
                let ghost prior = after.deep_view();
                let next = lines[i].clone();
                assert(next@ == lines.deep_view()[i as int]);
                after.push(next);
                assert(after.deep_view() =~= prior.push(lines.deep_view()[i as int]));
                assert(after.deep_view() =~= with_blank + lines.deep_view().take(i as int + 1));
                i = i + 1;
            }
            assert(lines.deep_view().take(lines@.len() as int) =~= lines.deep_view());
            proof {
                if known.len() > 0 {
                    assert(with_blank =~= known + seq![Seq::<char>::empty()]);
                } else {
                    assert(with_blank =~= known + Seq::<Seq<char>>::empty());
                }
            }
        }
    }
    CommandToolView { title, before_output: before, after_output: after }
}

/// A sleep's duration in whole units: `N ms` under a second and `N s` for a
/// whole number of seconds. A longer duration with a fraction of a second is
/// shown in seconds with one decimal, which this does not write: `None`.
pub open spec fn whole_duration_spec(duration_ms: u64) -> Option<Seq<char>> {
    if duration_ms < 1000 {
        Some(decimal(duration_ms as nat) + " ms"@)
    } else if duration_ms % 1000 == 0 {
        Some(decimal((duration_ms / 1000) as nat) + " s"@)
    } else {
        None
    }
}

/// A sleep's duration in whole milliseconds or whole seconds; `None` when it
/// needs a decimal of a second.
pub fn whole_duration_ms(duration_ms: u64) -> (r: Option<String>)
    ensures
        match r {
            Some(text) => whole_duration_spec(duration_ms) == Some(text@),
            None => whole_duration_spec(duration_ms) is None,
        },
{
    let mut text = String::new();
    if duration_ms < 1000 {
        push_decimal(&mut text, duration_ms);
        text.append(" ms");
    } else if duration_ms % 1000 == 0 {
        push_decimal(&mut text, duration_ms / 1000);
        text.append(" s");
    } else {
        return None;
    }
    Some(text)
}

/// The title of a sleep: `Waiting` while it runs, `Waited` after, and the
/// duration.
pub fn sleep_title(status: ToolStatus, duration: &str) -> (r: String)
    ensures
        r@ == (if status == ToolStatus::Running {
            "Waiting "@
        } else {
            "Waited "@
        }) + duration@,
{
    let mut title = String::from_str(
        if status == ToolStatus::Running {
            "Waiting "
        } else {
            "Waited "
        },
    );
    title.append(duration);
    title
}

/// The number of statuses in `statuses[..n]` equal to `status`.
pub open spec fn count_status(statuses: Seq<ToolStatus>, status: ToolStatus, n: int) -> nat
    decreases n,
{
    if n <= 0 {
        0
    } else {
        count_status(statuses, status, n - 1) + if statuses[n - 1] == status {
            1nat
        } else {
            0nat
        }
    }
}

/// The header of a group of tool calls.
pub struct ToolGroupHeader {
    /// `Running N tool calls` while any runs, `Ran N tool calls` after.
    pub title: String,
    /// `N failed` when some failed.
    pub failed: Option<String>,
    /// `N active` while some run.
    pub active: Option<String>,
    /// Whether the reader can fold and unfold the group.
    pub can_toggle: bool,
    /// Whether the group shows its tool calls.
    pub open: bool,
}

/// The header of a group of tool calls with `statuses`, none when the group
/// is empty. A group folds only when it is collapsible and is not the
/// running tail of the turn; it is open when it cannot fold or is expanded.
pub fn tool_group_header(
    statuses: &[ToolStatus],
    collapsible: bool,
    active_tail: bool,
    expanded: bool,
) -> (r: Option<ToolGroupHeader>)
    ensures
        statuses@.len() == 0 ==> r is None,
        statuses@.len() > 0 ==> (r matches Some(h) && {
            let n = statuses@.len();
            let running = count_status(statuses@, ToolStatus::Running, n as int);
            let failed = count_status(statuses@, ToolStatus::Failed, n as int);
            &&& h.title@ == (if running > 0 {
                "Running "@
            } else {
                "Ran "@
            }) + decimal(n) + " "@ + (if n == 1 {
                "tool call"@
            } else {
                "tool calls"@
            })
            &&& match h.failed {
                Some(f) => failed > 0 && f@ == decimal(failed) + " failed"@,
                None => failed == 0,
            }
            &&& match h.active {
                Some(a) => running > 0 && a@ == decimal(running) + " active"@,
                None => running == 0,
            }
            &&& h.can_toggle == (collapsible && !active_tail)
            &&& h.open == (!h.can_toggle || expanded)
        }),
{
    let n = statuses.len();
    if n == 0 {
        return None;
    }
    let mut running: usize = 0;
    let mut failed: usize = 0;
    let mut i: usize = 0;
    while i < n
        invariant
            n == statuses@.len(),
            0 <= i <= n,
            running == count_status(statuses@, ToolStatus::Running, i as int),
            failed == count_status(statuses@, ToolStatus::Failed, i as int),
            running <= i,
            failed <= i,
        decreases n - i,
    {
        if statuses[i] == ToolStatus::Running {
            running = running + 1;
        }
        if statuses[i] == ToolStatus::Failed {
            failed = failed + 1;
        }
        i = i + 1;
    }
    let mut title = String::from_str(
        if running > 0 {
            "Running "
        } else {
            "Ran "
        },
    );
    push_decimal(&mut title, n as u64);
    title.append(" ");
    title.append(pluralize(n, "tool call"));
    let failed_text = if failed > 0 {
        let mut f = String::new();
        push_decimal(&mut f, failed as u64);
        f.append(" failed");
        Some(f)
    } else {
        None
    };
    let active_text = if running > 0 {
        let mut a = String::new();
        push_decimal(&mut a, running as u64);
        a.append(" active");
        Some(a)
    } else {
        None
    };
    let can_toggle = collapsible && !active_tail;
    Some(
        ToolGroupHeader {
            title,
            failed: failed_text,
            active: active_text,
            can_toggle,
            open: !can_toggle || expanded,
        },
    )
}

/// The line counts a file change shows after it: `+` the added and `-` the
/// deleted lines.
pub fn diff_labels(stats: DiffStats) -> (r: (String, String))
    ensures
        r.0@ == "+"@ + decimal(stats.additions as nat),
        r.1@ == "-"@ + decimal(stats.deletions as nat),
{
    let mut added = String::from_str("+");
    push_decimal(&mut added, stats.additions as u64);
    let mut deleted = String::from_str("-");
    push_decimal(&mut deleted, stats.deletions as u64);
    (added, deleted)
}

/// The title of an image view: `Viewed` and the image's path.
pub fn image_view_title(path: &str) -> (r: String)
    ensures
        r@ == "Viewed "@ + path@,
{
    let mut title = String::from_str("Viewed ");
    title.append(path);
    title
}

} // verus!
