//! Turning threads reported by the app server into chats: titles, project
//! names, messages and the tool calls attached to them.
use vstd::prelude::*;
use vstd::string::StringExecFns;
use crate::items::{
    CommandExecutionStatus, DynamicToolCallStatus, FileUpdateChange, McpToolCallStatus,
    MessagePhase, PatchApplyStatus, PatchChangeKind, Thread, ThreadItem, ThreadStatus, Turn,
    UserInput,
};
use crate::transcript::opt_view;
use crate::text::{chars_of, join, join_strings, trim, trim_spec, substring};

verus! {

/// The title of a thread: its name unless blank, else its trimmed preview
/// unless empty, else a default.
pub open spec fn thread_title_spec(name: Option<Seq<char>>, preview: Seq<char>) -> Seq<char> {
    match name {
        Some(n) if trim_spec(n).len() > 0 => n,
        _ => if trim_spec(preview).len() > 0 {
            trim_spec(preview)
        } else {
            "Untitled Codex thread"@
        },
    }
}

/// The title of a thread.
pub fn thread_title(name: Option<&str>, preview: &str) -> (r: String)
    ensures
        r@ == thread_title_spec(
            match name {
                Some(n) => Some(n@),
                None => None,
            },
            preview@,
        ),
{
    if let Some(n) = name {
        if !trim(n).as_str().is_empty() {
            return String::from_str(n);
        }
    }
    let trimmed = trim(preview);
    if !trimmed.as_str().is_empty() {
        trimmed
    } else {
        String::from_str("Untitled Codex thread")
    }
}

/// The path components of `path` that name something: the pieces between
/// slashes that are neither empty nor `.`, the last `n` characters
/// excluded.
pub open spec fn last_piece_start(path: Seq<char>, end: int) -> int
    decreases end,
{
    if end <= 0 {
        0
    } else if path[end - 1] == '/' {
        end
    } else {
        last_piece_start(path, end - 1)
    }
}

/// The final component of a Unix path, as `Path::file_name` gives it: the
/// last piece between slashes that is neither empty nor `.`, unless that
/// piece is `..`; `None` when there is no such piece.
pub open spec fn file_name_spec(path: Seq<char>, end: int) -> Option<Seq<char>>
    decreases end,
{
    if end <= 0 {
        None
    } else {
        let start = last_piece_start(path, end);
        let piece = path.subrange(start, end);
        if piece.len() == 0 || piece == seq!['.'] {
            if start > 0 {
                proof {
                    lemma_last_piece_start_le(path, end);
                }
                file_name_spec(path, start - 1)
            } else {
                None
            }
        } else if piece == seq!['.', '.'] {
            None
        } else {
            Some(piece)
        }
    }
}

pub proof fn lemma_last_piece_start_le(path: Seq<char>, end: int)
    requires
        end >= 0,
    ensures
        0 <= last_piece_start(path, end) <= end,
    decreases end,
{
    if end > 0 && path[end - 1] != '/' {
        lemma_last_piece_start_le(path, end - 1);
    }
}

proof fn lemma_last_piece_start_bounds(path: Seq<char>, end: int)
    requires
        0 <= end <= path.len(),
    ensures
        0 <= last_piece_start(path, end) <= end,
        last_piece_start(path, end) > 0 ==> path[last_piece_start(path, end) - 1] == '/',
        forall|i: int| last_piece_start(path, end) <= i < end ==> path[i] != '/',
    decreases end,
{
    if end > 0 && path[end - 1] != '/' {
        lemma_last_piece_start_bounds(path, end - 1);
    }
}

/// The name of a project: the final component of its path, or the whole
/// path when it has none.
pub open spec fn project_name_spec(path: Seq<char>) -> Seq<char> {
    match file_name_spec(path, path.len() as int) {
        Some(name) => name,
        None => path,
    }
}

/// The name of a project: the final component of its path, or the whole
/// path when it has none.
pub fn project_name_from_path(path: &str) -> (r: String)
    ensures
        r@ == project_name_spec(path@),
{
    let chars = chars_of(path);
    let mut end = chars.len();
    loop
        invariant
            chars@ == path@,
            0 <= end <= chars@.len(),
            file_name_spec(chars@, chars@.len() as int) == file_name_spec(chars@, end as int),
        decreases end,
    {
        if end == 0 {
            return String::from_str(path);
        }
        let mut start = end;
        while start > 0 && chars[start - 1] != '/'
            invariant
                0 <= start <= end <= chars@.len(),
                last_piece_start(chars@, end as int) == last_piece_start(chars@, start as int),
            decreases start,
        {
            start = start - 1;
        }
        let len = end - start;
        if len == 0 || (len == 1 && chars[start] == '.') {
            proof {
                let piece = chars@.subrange(start as int, end as int);
                if len == 1 {
                    assert(piece =~= seq!['.']);
                } else {
                    assert(piece.len() == 0);
                }
            }
            if start == 0 {
                return String::from_str(path);
            }
            end = start - 1;
        } else if len == 2 && chars[start] == '.' && chars[start + 1] == '.' {
            assert(chars@.subrange(start as int, end as int) =~= seq!['.', '.']);
            return String::from_str(path);
        } else {
            proof {
                let piece = chars@.subrange(start as int, end as int);
                if len == 1 {
                    assert(piece[0] == chars@[start as int]);
                    assert(piece != seq!['.']);
                }
                if len == 2 {
                    assert(piece[0] == chars@[start as int]);
                    assert(piece[1] == chars@[start + 1]);
                    assert(piece != seq!['.', '.']);
                }
                if piece == seq!['.'] {
                    assert(piece.len() == 1);
                }
                if piece == seq!['.', '.'] {
                    assert(piece.len() == 2);
                }
            }
            return substring(&chars, start, end);
        }
    }
}

/// Whether a turn sent from the composer starts a new thread: when a new
/// chat is open, or no thread is active.
pub fn should_start_thread_for_turn(new_chat_open: bool, active_thread_id: Option<&str>) -> (r:
    bool)
    ensures
        r == (new_chat_open || active_thread_id is None),
{
    new_chat_open || active_thread_id.is_none()
}

/// The label of a thread's status.
pub fn thread_status_label(status: ThreadStatus) -> (r: &'static str)
    ensures
        r@ == status_label_spec(status),
{
    match status {
        ThreadStatus::NotLoaded => "not loaded",
        ThreadStatus::Idle => "idle",
        ThreadStatus::SystemError => "system error",
        ThreadStatus::Active => "active",
    }
}

/// Whether a tool call shown in a chat is running or done.
#[derive(Clone, Copy, Debug, PartialEq, Eq, Structural)]
pub enum ChatToolStatus {
    Running,
    Done,
}

/// A command is running while it is in progress.
pub fn tool_status_from_command(status: CommandExecutionStatus) -> (r: ChatToolStatus)
    ensures
        r == if status == CommandExecutionStatus::InProgress {
            ChatToolStatus::Running
        } else {
            ChatToolStatus::Done
        },
{
    match status {
        CommandExecutionStatus::InProgress => ChatToolStatus::Running,
        _ => ChatToolStatus::Done,
    }
}

/// An MCP call is running while it is in progress.
pub fn tool_status_from_mcp(status: McpToolCallStatus) -> (r: ChatToolStatus)
    ensures
        r == if status == McpToolCallStatus::InProgress {
            ChatToolStatus::Running
        } else {
            ChatToolStatus::Done
        },
{
    match status {
        McpToolCallStatus::InProgress => ChatToolStatus::Running,
        _ => ChatToolStatus::Done,
    }
}

/// A dynamic tool call is running while it is in progress.
pub fn tool_status_from_dynamic(status: DynamicToolCallStatus) -> (r: ChatToolStatus)
    ensures
        r == if status == DynamicToolCallStatus::InProgress {
            ChatToolStatus::Running
        } else {
            ChatToolStatus::Done
        },
{
    match status {
        DynamicToolCallStatus::InProgress => ChatToolStatus::Running,
        _ => ChatToolStatus::Done,
    }
}

/// A patch is being applied while it is in progress.
pub fn tool_status_from_patch(status: PatchApplyStatus) -> (r: ChatToolStatus)
    ensures
        r == if status == PatchApplyStatus::InProgress {
            ChatToolStatus::Running
        } else {
            ChatToolStatus::Done
        },
{
    match status {
        PatchApplyStatus::InProgress => ChatToolStatus::Running,
        _ => ChatToolStatus::Done,
    }
}

/// The lines of `s` as `str::lines` splits them on `\n` (a line may keep a
/// trailing `\r`, and an empty last piece is kept as an empty line; neither
/// changes which lines count as added or removed).
pub open spec fn split_lines(s: Seq<char>) -> Seq<Seq<char>>
    decreases s.len(),
{
    if s.len() == 0 {
        seq![Seq::empty()]
    } else {
        let rest = split_lines(s.drop_last());
        if s.last() == '\n' {
            rest.push(Seq::empty())
        } else {
            rest.update(rest.len() - 1, rest.last().push(s.last()))
        }
    }
}

/// Whether a line of a diff is a file header rather than an added or removed line.
pub open spec fn is_diff_header(line: Seq<char>) -> bool {
    line.len() >= 3 && ((line[0] == '+' && line[1] == '+' && line[2] == '+') || (line[0] == '-'
        && line[1] == '-' && line[2] == '-'))
}

/// Whether a line of a diff adds a line.
pub open spec fn is_addition(line: Seq<char>) -> bool {
    !is_diff_header(line) && line.len() > 0 && line[0] == '+'
}

/// Whether a line of a diff removes a line.
pub open spec fn is_deletion(line: Seq<char>) -> bool {
    !is_diff_header(line) && line.len() > 0 && line[0] == '-'
}

/// The number of lines among `lines[..n]` that satisfy `f`.
pub open spec fn count_lines(lines: Seq<Seq<char>>, n: int, additions: bool) -> nat
    decreases n,
{
    if n <= 0 {
        0
    } else {
        count_lines(lines, n - 1, additions) + if (additions && is_addition(lines[n - 1])) || (
        !additions && is_deletion(lines[n - 1])) {
            1nat
        } else {
            0
        }
    }
}

/// The lines added and removed by a diff, file headers not counted.
#[derive(Clone, Copy, Debug, PartialEq, Eq, Structural)]
pub struct DiffStats {
    pub additions: usize,
    pub deletions: usize,
}

/// The lines added and removed by a diff, file headers not counted.
pub open spec fn diff_stats_spec(diff: Seq<char>) -> (nat, nat) {
    let lines = split_lines(diff);
    (count_lines(lines, lines.len() as int, true), count_lines(lines, lines.len() as int, false))
}

/// How a line of the diff counts: one addition, one deletion, or neither.
fn classify_line(line: &Vec<char>) -> (r: (bool, bool))
    ensures
        r.0 == is_addition(line@),
        r.1 == is_deletion(line@),
{
    let n = line.len();
    let header = n >= 3 && ((line[0] == '+' && line[1] == '+' && line[2] == '+') || (line[0]
        == '-' && line[1] == '-' && line[2] == '-'));
    if header || n == 0 {
        (false, false)
    } else {
        (line[0] == '+', line[0] == '-')
    }
}

/// The lines added and removed by a diff, file headers not counted.
pub fn diff_stats(diff: &str) -> (r: DiffStats)
    ensures
        (r.additions as nat, r.deletions as nat) == diff_stats_spec(diff@),
{
    let chars = chars_of(diff);
    let n = chars.len();
    let mut additions: usize = 0;
    let mut deletions: usize = 0;
    let mut line: Vec<char> = Vec::new();
    let mut i: usize = 0;
    assert(chars@.take(0) =~= Seq::<char>::empty());
    while i < n
        invariant
            n == chars@.len(),
            chars@ == diff@,
            0 <= i <= n,
            split_lines(chars@.take(i as int)).len() >= 1,
            split_lines(chars@.take(i as int)).last() == line@,
            additions == count_lines(
                split_lines(chars@.take(i as int)),
                split_lines(chars@.take(i as int)).len() - 1,
                true,
            ),
            deletions == count_lines(
                split_lines(chars@.take(i as int)),
                split_lines(chars@.take(i as int)).len() - 1,
                false,
            ),
            additions + deletions + line@.len() <= i,
        decreases n - i,
    {
        let ghost before = split_lines(chars@.take(i as int));
        let c = chars[i];
        assert(chars@.take(i as int + 1).drop_last() =~= chars@.take(i as int));
        if c == '\n' {
            let (add, del) = classify_line(&line);
            if add {
                additions = additions + 1;
            }
            if del {
                deletions = deletions + 1;
            }
            line = Vec::new();
            proof {
                let after = split_lines(chars@.take(i as int + 1));
                assert(after == before.push(Seq::empty()));
                lemma_count_lines_prefix(after, before, before.len() as int);
                assert(after[before.len() - 1] == before.last());
            }
        } else {
            line.push(c);
            proof {
                let after = split_lines(chars@.take(i as int + 1));
                assert(after == before.update(before.len() - 1, before.last().push(c)));
                lemma_count_lines_prefix(after, before, before.len() - 1);
            }
        }
        i = i + 1;
    }
    let (add, del) = classify_line(&line);
    if add {
        additions = additions + 1;
    }
    if del {
        deletions = deletions + 1;
    }
    assert(chars@.take(n as int) =~= chars@);
    DiffStats { additions, deletions }
}

/// A line after a newline is the last line of the split.
proof fn lemma_split_lines_after_newline(d: Seq<char>, l: Seq<char>)
    requires
        !l.contains('\n'),
    ensures
        split_lines(d + seq!['\n'] + l) == split_lines(d).push(l),
    decreases l.len(),
{
    let s = d + seq!['\n'] + l;
    if l.len() == 0 {
        assert(s.drop_last() =~= d);
        assert(s.last() == '\n');
        assert(l =~= Seq::<char>::empty());
    } else {
        let init = l.drop_last();
        assert(!init.contains('\n')) by {
            if init.contains('\n') {
                let k = choose|k: int| 0 <= k < init.len() && init[k] == '\n';
                assert(l[k] == '\n');
            }
        }
        lemma_split_lines_after_newline(d, init);
        assert(s.drop_last() =~= d + seq!['\n'] + init);
        assert(s.last() == l.last());
        assert(l.last() != '\n') by {
            assert(l[l.len() - 1] == l.last());
        }
        assert(split_lines(s) =~= split_lines(d).push(l)) by {
            assert(init.push(l.last()) =~= l);
        }
    }
}

/// Text without a newline is one line.
proof fn lemma_split_lines_one(l: Seq<char>)
    requires
        !l.contains('\n'),
    ensures
        split_lines(l) == seq![l],
    decreases l.len(),
{
    if l.len() > 0 {
        let init = l.drop_last();
        assert(!init.contains('\n')) by {
            if init.contains('\n') {
                let k = choose|k: int| 0 <= k < init.len() && init[k] == '\n';
                assert(l[k] == '\n');
            }
        }
        lemma_split_lines_one(init);
        assert(l.last() != '\n') by {
            assert(l[l.len() - 1] == l.last());
        }
        assert(init.push(l.last()) =~= l);
        assert(split_lines(l) =~= seq![l]);
    } else {
        assert(l =~= Seq::<char>::empty());
    }
}

/// Whether a line of text adds a line to the file: it starts with `+` and is
/// not a `+++` header.
pub open spec fn adds_a_line(l: Seq<char>) -> bool {
    l.len() > 0 && l[0] == '+' && !(l.len() >= 3 && l[1] == '+' && l[2] == '+')
}

/// Whether a line of text removes a line from the file: it starts with `-`
/// and is not a `---` header.
pub open spec fn removes_a_line(l: Seq<char>) -> bool {
    l.len() > 0 && l[0] == '-' && !(l.len() >= 3 && l[1] == '-' && l[2] == '-')
}

/// Law: every line of a diff is counted, the last one too whether or not a
/// newline ends it: a diff of one line counts that line, and a line added
/// after a newline adds exactly its own count to the diff's.
pub proof fn law_every_diff_line_counts(d: Seq<char>, l: Seq<char>)
    requires
        !l.contains('\n'),
    ensures
        diff_stats_spec(l) == ((if adds_a_line(l) {
            1nat
        } else {
            0nat
        }), (if removes_a_line(l) {
            1nat
        } else {
            0nat
        })),
        diff_stats_spec(d + seq!['\n'] + l).0 == diff_stats_spec(d).0 + if adds_a_line(l) {
            1nat
        } else {
            0nat
        },
        diff_stats_spec(d + seq!['\n'] + l).1 == diff_stats_spec(d).1 + if removes_a_line(l) {
            1nat
        } else {
            0nat
        },
{
    lemma_split_lines_one(l);
    let one = seq![l];
    assert(count_lines(one, 0, true) == 0);
    assert(count_lines(one, 0, false) == 0);
    lemma_split_lines_after_newline(d, l);
    let before = split_lines(d);
    let after = before.push(l);
    lemma_count_lines_prefix(after, before, before.len() as int);
    assert(after[before.len() as int] == l);
}

/// Counting only reads the first `k` lines.
proof fn lemma_count_lines_prefix(a: Seq<Seq<char>>, b: Seq<Seq<char>>, k: int)
    requires
        0 <= k <= a.len(),
        k <= b.len(),
        forall|i: int| 0 <= i < k ==> a[i] == b[i],
    ensures
        count_lines(a, k, true) == count_lines(b, k, true),
        count_lines(a, k, false) == count_lines(b, k, false),
    decreases k,
{
    if k > 0 {
        lemma_count_lines_prefix(a, b, k - 1);
    }
}

/// How a file is changed, with the destination of a move as text.
#[derive(Clone, Debug, PartialEq, Eq)]
pub enum FileChangeKind {
    Add,
    Delete,
    Update { move_path: Option<String> },
}

/// One changed file with its line counts.
#[derive(Clone, Debug, PartialEq, Eq)]
pub struct FileChangeSummary {
    pub path: String,
    pub kind: FileChangeKind,
    pub additions: usize,
    pub deletions: usize,
}

/// The kind of a file change.
pub fn file_change_kind(kind: PatchChangeKind) -> (r: FileChangeKind)
    ensures
        r == match kind {
            PatchChangeKind::Add => FileChangeKind::Add,
            PatchChangeKind::Delete => FileChangeKind::Delete,
            PatchChangeKind::Update { move_path } => FileChangeKind::Update { move_path },
        },
{
    match kind {
        PatchChangeKind::Add => FileChangeKind::Add,
        PatchChangeKind::Delete => FileChangeKind::Delete,
        PatchChangeKind::Update { move_path } => FileChangeKind::Update { move_path },
    }
}

/// Every change with its path, kind and line counts.
pub fn summarize_file_changes(changes: Vec<FileUpdateChange>) -> (r: Vec<FileChangeSummary>)
    ensures
        r@.len() == changes@.len(),
        forall|i: int|
            0 <= i < changes@.len() ==> {
                let c = #[trigger] changes@[i];
                let s = r@[i];
                &&& s.path == c.path
                &&& s.kind == match c.kind {
                    PatchChangeKind::Add => FileChangeKind::Add,
                    PatchChangeKind::Delete => FileChangeKind::Delete,
                    PatchChangeKind::Update { move_path } => FileChangeKind::Update { move_path },
                }
                &&& (s.additions as nat, s.deletions as nat) == diff_stats_spec(c.diff@)
            },
{
    let mut r: Vec<FileChangeSummary> = Vec::new();
    let ghost all = changes@;
    let mut rest = changes;
    let total = rest.len();
    let mut taken: usize = 0;
    while rest.len() > 0
        invariant
            rest@.len() + taken == all.len(),
            total == all.len(),
            r@.len() == taken,
            rest@ == all.skip(taken as int),
            forall|i: int|
                0 <= i < taken ==> {
                    let c = #[trigger] all[i];
                    let s = r@[i];
                    &&& s.path == c.path
                    &&& s.kind == match c.kind {
                        PatchChangeKind::Add => FileChangeKind::Add,
                        PatchChangeKind::Delete => FileChangeKind::Delete,
                        PatchChangeKind::Update { move_path } => FileChangeKind::Update {
                            move_path,
                        },
                    }
                    &&& (s.additions as nat, s.deletions as nat) == diff_stats_spec(c.diff@)
                },
        decreases rest@.len(),
    {
        let change = rest.remove(0);
        assert(change == all[taken as int]);
        assert(rest@ =~= all.skip(taken as int + 1));
        let stats = diff_stats(change.diff.as_str());
        r.push(
            FileChangeSummary {
                path: change.path,
                kind: file_change_kind(change.kind),
                additions: stats.additions,
                deletions: stats.deletions,
            },
        );
        taken = taken + 1;
    }
    r
}

/// Which part of an answer a message is.
#[derive(Clone, Copy, Debug, PartialEq, Eq, Structural)]
pub enum AssistantPhase {
    Commentary,
    FinalAnswer,
}

/// Commentary stays commentary; a message without a phase is final.
pub fn assistant_phase(phase: Option<MessagePhase>) -> (r: AssistantPhase)
    ensures
        r == if phase == Some(MessagePhase::Commentary) {
            AssistantPhase::Commentary
        } else {
            AssistantPhase::FinalAnswer
        },
{
    match phase {
        Some(MessagePhase::Commentary) => AssistantPhase::Commentary,
        _ => AssistantPhase::FinalAnswer,
    }
}

/// The text parts of a user message, one per line; other parts are left out.
pub open spec fn text_parts(content: Seq<UserInput>, n: int) -> Seq<Seq<char>>
    decreases n,
{
    if n <= 0 {
        Seq::empty()
    } else {
        text_parts(content, n - 1) + match content[n - 1] {
            UserInput::Text { text } => seq![text@],
            _ => Seq::empty(),
        }
    }
}

/// The text parts of a user message, one per line.
pub fn user_input_text(content: &Vec<UserInput>) -> (r: String)
    ensures
        r@ == join(text_parts(content@, content@.len() as int), "\n"@),
{
    let mut parts: Vec<String> = Vec::new();
    let mut i: usize = 0;
    while i < content.len()
        invariant
            0 <= i <= content@.len(),
            parts.deep_view() == text_parts(content@, i as int),
        decreases content@.len() - i,
    {
        let ghost before = parts.deep_view();
        match &content[i] {
            UserInput::Text { text } => {
                parts.push(text.clone());
                assert(parts.deep_view() =~= before + seq![text@]);
            },
            _ => {
                assert(parts.deep_view() =~= before + Seq::<Seq<char>>::empty());
            },
        }
        i = i + 1;
    }
    join_strings(&parts, "\n")
}

/// A tool call attached to an assistant message of a chat.
#[derive(Clone, Debug, PartialEq, Eq)]
pub enum ToolCall {
    Command { id: String, command: String, cwd: String, status: ChatToolStatus },
    FileChange { id: String, changes: Vec<FileChangeSummary>, status: ChatToolStatus },
    Mcp { id: String, server: String, tool: String, status: ChatToolStatus },
    Dynamic { id: String, namespace: Option<String>, tool: String, status: ChatToolStatus },
}

/// Whether an assistant message is still being streamed.
#[derive(Clone, Copy, Debug, PartialEq, Eq, Structural)]
pub enum StreamState {
    Streaming,
    Complete,
}

/// A message of a chat.
#[derive(Clone, Debug, PartialEq, Eq)]
pub enum Message {
    User(String),
    Assistant {
        id: String,
        body: String,
        state: StreamState,
        phase: AssistantPhase,
        tools: Vec<ToolCall>,
    },
    Notice(String),
}

/// A changed file as values.
pub struct FileChangeView {
    pub path: Seq<char>,
    pub kind: Option<Option<Seq<char>>>,
    pub additions: nat,
    pub deletions: nat,
}

/// A tool call as values.
pub enum ToolCallView {
    Command { id: Seq<char>, command: Seq<char>, cwd: Seq<char>, status: ChatToolStatus },
    FileChange { id: Seq<char>, changes: Seq<FileChangeView>, status: ChatToolStatus },
    Mcp { id: Seq<char>, server: Seq<char>, tool: Seq<char>, status: ChatToolStatus },
    Dynamic {
        id: Seq<char>,
        namespace: Option<Seq<char>>,
        tool: Seq<char>,
        status: ChatToolStatus,
    },
}

/// A message as values.
pub enum MessageView {
    User(Seq<char>),
    Assistant {
        id: Seq<char>,
        body: Seq<char>,
        state: StreamState,
        phase: AssistantPhase,
        tools: Seq<ToolCallView>,
    },
    Notice(Seq<char>),
}

/// A change kind as values: `None` for an added file, `Some(None)` for a
/// deleted one, and for an updated one `Some(Some(..))` of `update`, with
/// `:` and the new path when the file moved.
pub open spec fn kind_view(kind: FileChangeKind) -> Option<Option<Seq<char>>> {
    match kind {
        FileChangeKind::Add => None,
        FileChangeKind::Delete => Some(None),
        FileChangeKind::Update { move_path } => Some(
            Some(
                match move_path {
                    Some(p) => "update:"@ + p@,
                    None => "update"@,
                },
            ),
        ),
    }
}

impl FileChangeSummary {
    /// The change as values.
    pub open spec fn view(self) -> FileChangeView {
        FileChangeView {
            path: self.path@,
            kind: kind_view(self.kind),
            additions: self.additions as nat,
            deletions: self.deletions as nat,
        }
    }
}

impl ToolCall {
    /// The tool call as values.
    pub open spec fn view(self) -> ToolCallView {
        match self {
            ToolCall::Command { id, command, cwd, status } => ToolCallView::Command {
                id: id@,
                command: command@,
                cwd: cwd@,
                status,
            },
            ToolCall::FileChange { id, changes, status } => ToolCallView::FileChange {
                id: id@,
                changes: changes@.map_values(|c: FileChangeSummary| c.view()),
                status,
            },
            ToolCall::Mcp { id, server, tool, status } => ToolCallView::Mcp {
                id: id@,
                server: server@,
                tool: tool@,
                status,
            },
            ToolCall::Dynamic { id, namespace, tool, status } => ToolCallView::Dynamic {
                id: id@,
                namespace: match namespace {
                    Some(n) => Some(n@),
                    None => None,
                },
                tool: tool@,
                status,
            },
        }
    }
}

impl ToolCallView {
    /// The id of the tool call.
    pub open spec fn id(self) -> Seq<char> {
        match self {
            ToolCallView::Command { id, .. } => id,
            ToolCallView::FileChange { id, .. } => id,
            ToolCallView::Mcp { id, .. } => id,
            ToolCallView::Dynamic { id, .. } => id,
        }
    }
}

impl Message {
    /// The message as values.
    pub open spec fn view(self) -> MessageView {
        match self {
            Message::User(text) => MessageView::User(text@),
            Message::Assistant { id, body, state, phase, tools } => MessageView::Assistant {
                id: id@,
                body: body@,
                state,
                phase,
                tools: tools@.map_values(|t: ToolCall| t.view()),
            },
            Message::Notice(text) => MessageView::Notice(text@),
        }
    }
}

/// The messages as values.
pub open spec fn messages_view(messages: Seq<Message>) -> Seq<MessageView> {
    messages.map_values(|m: Message| m.view())
}

/// The last assistant message among `messages[..n]`, or -1.
pub open spec fn last_assistant(messages: Seq<MessageView>, n: int) -> int
    decreases n,
{
    if n <= 0 {
        -1
    } else if messages[n - 1] is Assistant {
        n - 1
    } else {
        last_assistant(messages, n - 1)
    }
}

/// The messages with `tool` attached to the last assistant message, or to a
/// new commentary message made for it when there is none.
pub open spec fn push_tool_spec(messages: Seq<MessageView>, tool: ToolCallView) -> Seq<MessageView> {
    let i = last_assistant(messages, messages.len() as int);
    if i >= 0 {
        match messages[i] {
            MessageView::Assistant { id, body, state, phase, tools } => messages.update(
                i,
                MessageView::Assistant { id, body, state, phase, tools: tools.push(tool) },
            ),
            _ => messages,
        }
    } else {
        messages.push(
            MessageView::Assistant {
                id: "tool-group-"@ + tool.id(),
                body: Seq::empty(),
                state: StreamState::Complete,
                phase: AssistantPhase::Commentary,
                tools: seq![tool],
            },
        )
    }
}

proof fn lemma_last_assistant_bounds(messages: Seq<MessageView>, n: int)
    requires
        0 <= n <= messages.len(),
    ensures
        -1 <= last_assistant(messages, n) < n,
        last_assistant(messages, n) >= 0 ==> messages[last_assistant(messages, n)] is Assistant,
    decreases n,
{
    if n > 0 && !(messages[n - 1] is Assistant) {
        lemma_last_assistant_bounds(messages, n - 1);
    }
}

/// Attaches `tool` to the last assistant message, or to a new commentary
/// message made for it when there is none.
pub fn push_tool_to_messages(messages: &mut Vec<Message>, tool: ToolCall)
    ensures
        messages_view(final(messages)@) == push_tool_spec(messages_view(old(messages)@), tool.view()),
{
    let ghost old_view = messages_view(messages@);
    let ghost tv = tool.view();
    let mut i = messages.len();
    while i > 0
        invariant
            i <= messages@.len(),
            old_view == messages_view(messages@),
            last_assistant(old_view, messages@.len() as int) == last_assistant(old_view, i as int),
        ensures
            i <= messages@.len(),
            last_assistant(old_view, messages@.len() as int) == last_assistant(old_view, i as int),
            i > 0 ==> old_view[i - 1] is Assistant,
        decreases i,
    {
        if let Message::Assistant { .. } = &messages[i - 1] {
            assert(old_view[i - 1] == messages@[i - 1].view());
            break;
        }
        assert(old_view[i - 1] == messages@[i - 1].view());
        i = i - 1;
    }
    proof {
        lemma_last_assistant_bounds(old_view, messages@.len() as int);
    }
    if i > 0 {
        let index = i - 1;
        proof {
            assert(old_view[index as int] is Assistant);
            assert(last_assistant(old_view, i as int) == index);
        }
        let message = messages.remove(index);
        match message {
            Message::Assistant { id, body, state, phase, mut tools } => {
                let ghost old_tools = tools@;
                tools.push(tool);
                messages.insert(index, Message::Assistant { id, body, state, phase, tools });
                proof {
                    assert(tools@.map_values(|t: ToolCall| t.view()) =~= old_tools.map_values(
                        |t: ToolCall| t.view(),
                    ).push(tv));
                    assert(messages_view(messages@) =~= push_tool_spec(old_view, tv));
                }
            },
            _ => {
                messages.insert(index, message);
                assert(false);
            },
        }
    } else {
        let mut id = String::from_str("tool-group-");
        let tool_id = match &tool {
            ToolCall::Command { id, .. } => id.clone(),
            ToolCall::FileChange { id, .. } => id.clone(),
            ToolCall::Mcp { id, .. } => id.clone(),
            ToolCall::Dynamic { id, .. } => id.clone(),
        };
        id.append(tool_id.as_str());
        let mut tools: Vec<ToolCall> = Vec::new();
        tools.push(tool);
        messages.push(
            Message::Assistant {
                id,
                body: String::new(),
                state: StreamState::Complete,
                phase: AssistantPhase::Commentary,
                tools,
            },
        );
        proof {
            assert(tools@.map_values(|t: ToolCall| t.view()) =~= seq![tv]);
            assert(messages_view(messages@) =~= push_tool_spec(old_view, tv));
        }
    }
}

/// The tool call that an item becomes in a chat, if it is one of the calls
/// that chats show.
pub open spec fn item_tool_view(item: ThreadItem) -> Option<ToolCallView> {
    match item {
        ThreadItem::CommandExecution { id, command, cwd, status, .. } => Some(
            ToolCallView::Command {
                id: id@,
                command: command@,
                cwd: cwd@,
                status: if status == CommandExecutionStatus::InProgress {
                    ChatToolStatus::Running
                } else {
                    ChatToolStatus::Done
                },
            },
        ),
        ThreadItem::FileChange { id, changes, status } => Some(
            ToolCallView::FileChange {
                id: id@,
                changes: changes@.map_values(
                    |c: FileUpdateChange|
                        FileChangeView {
                            path: c.path@,
                            kind: kind_view(
                                match c.kind {
                                    PatchChangeKind::Add => FileChangeKind::Add,
                                    PatchChangeKind::Delete => FileChangeKind::Delete,
                                    PatchChangeKind::Update { move_path } =>
                                    FileChangeKind::Update { move_path },
                                },
                            ),
                            additions: diff_stats_spec(c.diff@).0,
                            deletions: diff_stats_spec(c.diff@).1,
                        },
                ),
                status: if status == PatchApplyStatus::InProgress {
                    ChatToolStatus::Running
                } else {
                    ChatToolStatus::Done
                },
            },
        ),
        ThreadItem::McpToolCall { id, server, tool, status } => Some(
            ToolCallView::Mcp {
                id: id@,
                server: server@,
                tool: tool@,
                status: if status == McpToolCallStatus::InProgress {
                    ChatToolStatus::Running
                } else {
                    ChatToolStatus::Done
                },
            },
        ),
        ThreadItem::DynamicToolCall { id, namespace, tool, status, .. } => Some(
            ToolCallView::Dynamic {
                id: id@,
                namespace: match namespace {
                    Some(n) => Some(n@),
                    None => None,
                },
                tool: tool@,
                status: if status == DynamicToolCallStatus::InProgress {
                    ChatToolStatus::Running
                } else {
                    ChatToolStatus::Done
                },
            },
        ),
        _ => None,
    }
}

/// The messages of a chat after one more item of its thread: a user message
/// with text, an assistant message, or a tool call attached to the last
/// assistant message; other items add nothing.
pub open spec fn append_item_spec(messages: Seq<MessageView>, item: ThreadItem) -> Seq<MessageView> {
    match item {
        ThreadItem::UserMessage { content, .. } => {
            let text = join(text_parts(content@, content@.len() as int), "\n"@);
            if text.len() > 0 {
                messages.push(MessageView::User(text))
            } else {
                messages
            }
        },
        ThreadItem::AgentMessage { id, text, phase } => messages.push(
            MessageView::Assistant {
                id: id@,
                body: text@,
                state: StreamState::Complete,
                phase: if phase == Some(MessagePhase::Commentary) {
                    AssistantPhase::Commentary
                } else {
                    AssistantPhase::FinalAnswer
                },
                tools: Seq::empty(),
            },
        ),
        _ => match item_tool_view(item) {
            Some(tool) => push_tool_spec(messages, tool),
            None => messages,
        },
    }
}

/// Adds what one item of a thread becomes to the messages of its chat.
pub fn append_thread_item(messages: &mut Vec<Message>, item: ThreadItem)
    ensures
        messages_view(final(messages)@) == append_item_spec(messages_view(old(messages)@), item),
{
    let ghost old_view = messages_view(messages@);
    let ghost it = item;
    match item {
        ThreadItem::UserMessage { content, .. } => {
            let text = user_input_text(&content);
            if !text.as_str().is_empty() {
                messages.push(Message::User(text));
                assert(messages_view(messages@) =~= old_view.push(MessageView::User(text@)));
            }
        },
        ThreadItem::AgentMessage { id, text, phase } => {
            let tools: Vec<ToolCall> = Vec::new();
            let phase = assistant_phase(phase);
            messages.push(
                Message::Assistant {
                    id,
                    body: text,
                    state: StreamState::Complete,
                    phase,
                    tools,
                },
            );
            proof {
                assert(tools@.map_values(|t: ToolCall| t.view()) =~= Seq::<ToolCallView>::empty());
                assert(messages_view(messages@) =~= append_item_spec(old_view, it));
            }
        },
        ThreadItem::CommandExecution { id, command, cwd, status, .. } => {
            let status = tool_status_from_command(status);
            push_tool_to_messages(messages, ToolCall::Command { id, command, cwd, status });
        },
        ThreadItem::FileChange { id, changes, status } => {
            let ghost all = changes@;
            let changes = summarize_file_changes(changes);
            let status = tool_status_from_patch(status);
            let tool = ToolCall::FileChange { id, changes, status };
            proof {
                assert(changes@.map_values(|c: FileChangeSummary| c.view()) =~= all.map_values(
                    |c: FileUpdateChange|
                        FileChangeView {
                            path: c.path@,
                            kind: kind_view(
                                match c.kind {
                                    PatchChangeKind::Add => FileChangeKind::Add,
                                    PatchChangeKind::Delete => FileChangeKind::Delete,
                                    PatchChangeKind::Update { move_path } =>
                                    FileChangeKind::Update { move_path },
                                },
                            ),
                            additions: diff_stats_spec(c.diff@).0,
                            deletions: diff_stats_spec(c.diff@).1,
                        },
                ));
                assert(tool.view() == item_tool_view(it)->0);
            }
            push_tool_to_messages(messages, tool);
        },
        ThreadItem::McpToolCall { id, server, tool, status } => {
            let status = tool_status_from_mcp(status);
            push_tool_to_messages(messages, ToolCall::Mcp { id, server, tool, status });
        },
        ThreadItem::DynamicToolCall { id, namespace, tool, status, .. } => {
            let status = tool_status_from_dynamic(status);
            push_tool_to_messages(messages, ToolCall::Dynamic { id, namespace, tool, status });
        },
        _ => {},
    }
}

/// A chat made from a thread: its id, title, subtitle and messages.
pub struct ChatSummary {
    pub id: String,
    pub title: String,
    pub subtitle: String,
    pub messages: Vec<Message>,
}

/// The items of the first `n` turns, in order.
pub open spec fn items_of_turns(turns: Seq<Turn>, n: int) -> Seq<ThreadItem>
    decreases n,
{
    if n <= 0 {
        Seq::empty()
    } else {
        items_of_turns(turns, n - 1) + turns[n - 1].items@
    }
}

/// The messages after the first `k` items, starting from `messages`.
pub open spec fn fold_items(messages: Seq<MessageView>, items: Seq<ThreadItem>, k: int) -> Seq<MessageView>
    decreases k,
{
    if k <= 0 {
        messages
    } else {
        append_item_spec(fold_items(messages, items, k - 1), items[k - 1])
    }
}

/// The subtitle of a chat: the thread's status and its working directory.
pub open spec fn subtitle_spec(status: ThreadStatus, cwd: Seq<char>) -> Seq<char> {
    status_label_spec(status) + " - "@ + cwd
}

/// The label of a thread's status.
pub open spec fn status_label_spec(status: ThreadStatus) -> Seq<char> {
    match status {
        ThreadStatus::NotLoaded => "not loaded"@,
        ThreadStatus::Idle => "idle"@,
        ThreadStatus::SystemError => "system error"@,
        ThreadStatus::Active => "active"@,
    }
}

/// The chat of a thread: titled by its name or preview, with its status and
/// directory as subtitle, and the messages that its items become.
pub fn chat_from_thread(thread: Thread) -> (chat: ChatSummary)
    ensures
        chat.id@ == thread.id@,
        chat.title@ == thread_title_spec(opt_view(thread.name), thread.preview@),
        chat.subtitle@ == subtitle_spec(thread.status, thread.cwd@),
        messages_view(chat.messages@) == fold_items(
            Seq::empty(),
            items_of_turns(thread.turns@, thread.turns@.len() as int),
            items_of_turns(thread.turns@, thread.turns@.len() as int).len() as int,
        ),
{
    let title = match &thread.name {
        Some(name) => thread_title(Some(name.as_str()), thread.preview.as_str()),
        None => thread_title(None, thread.preview.as_str()),
    };
    let mut subtitle = String::from_str(thread_status_label(thread.status));
    subtitle.append(" - ");
    subtitle.append(thread.cwd.as_str());
    let ghost all_turns = thread.turns@;
    let ghost all_items = items_of_turns(all_turns, all_turns.len() as int);
    let mut messages: Vec<Message> = Vec::new();
    assert(messages_view(messages@) =~= Seq::<MessageView>::empty());
    let mut turns = thread.turns;
    let mut t: usize = 0;
    let total = turns.len();
    while turns.len() > 0
        invariant
            turns@ == all_turns.skip(t as int),
            total == all_turns.len(),
            t <= total,
            messages_view(messages@) == fold_items(
                Seq::empty(),
                items_of_turns(all_turns, t as int),
                items_of_turns(all_turns, t as int).len() as int,
            ),
        decreases turns@.len(),
    {
        let turn = turns.remove(0);
        assert(turn == all_turns[t as int]);
        let ghost done = items_of_turns(all_turns, t as int);
        let ghost turn_items = turn.items@;
        let mut items = turn.items;
        let mut i: usize = 0;
        let count = items.len();
        proof {
            lemma_fold_items_prefix(done + turn_items, done, done.len() as int);
        }
        while items.len() > 0
            invariant
                items@ == turn_items.skip(i as int),
                count == turn_items.len(),
                i <= count,
                messages_view(messages@) == fold_items(
                    Seq::empty(),
                    done + turn_items,
                    done.len() + i,
                ),
            decreases items@.len(),
        {
            let item = items.remove(0);
            assert(item == turn_items[i as int]);
            assert((done + turn_items)[done.len() + i] == item);
            append_thread_item(&mut messages, item);
            i = i + 1;
        }
        proof {
            assert(items_of_turns(all_turns, t as int + 1) == done + turn_items);
            lemma_fold_items_prefix(done + turn_items, done, done.len() as int);
        }
        t = t + 1;
    }
    proof {
        assert(all_turns.skip(t as int).len() == 0);
    }
    ChatSummary { id: thread.id, title, subtitle, messages }
}

/// Folding only reads the first `k` items.
proof fn lemma_fold_items_prefix(a: Seq<ThreadItem>, b: Seq<ThreadItem>, k: int)
    requires
        0 <= k <= a.len(),
        k <= b.len(),
        forall|i: int| 0 <= i < k ==> a[i] == b[i],
    ensures
        fold_items(Seq::empty(), a, k) == fold_items(Seq::empty(), b, k),
    decreases k,
{
    if k > 0 {
        lemma_fold_items_prefix(a, b, k - 1);
    }
}

/// A chat as values.
pub struct ChatView {
    pub id: Seq<char>,
    pub title: Seq<char>,
    pub subtitle: Seq<char>,
    pub messages: Seq<MessageView>,
}

impl ChatSummary {
    /// The chat as values.
    pub open spec fn view(self) -> ChatView {
        ChatView {
            id: self.id@,
            title: self.title@,
            subtitle: self.subtitle@,
            messages: messages_view(self.messages@),
        }
    }
}

/// The chat that `chat_from_thread` makes of `thread`.
pub open spec fn thread_chat_spec(thread: Thread) -> ChatView {
    let items = items_of_turns(thread.turns@, thread.turns@.len() as int);
    ChatView {
        id: thread.id@,
        title: thread_title_spec(opt_view(thread.name), thread.preview@),
        subtitle: subtitle_spec(thread.status, thread.cwd@),
        messages: fold_items(Seq::empty(), items, items.len() as int),
    }
}

/// The chat that stands in a project without threads: the `empty` chat,
/// which says that no threads were returned for the workspace.
pub open spec fn empty_chat_spec() -> ChatView {
    ChatView {
        id: "empty"@,
        title: "No Codex threads"@,
        subtitle: "Click New to start one in this workspace"@,
        messages: seq![
            MessageView::Notice("No persisted Codex threads were returned for this workspace."@),
        ],
    }
}

/// The chat that stands in a project without threads.
pub fn empty_chat() -> (chat: ChatSummary)
    ensures
        chat.view() == empty_chat_spec(),
{
    let notice = Message::Notice(
        String::from_str("No persisted Codex threads were returned for this workspace."),
    );
    let chat = ChatSummary {
        id: String::from_str("empty"),
        title: String::from_str("No Codex threads"),
        subtitle: String::from_str("Click New to start one in this workspace"),
        messages: vec![notice],
    };
    assert(chat.view().messages =~= empty_chat_spec().messages);
    chat
}

} // verus!
