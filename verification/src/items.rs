//! The items of a thread, as plain values: what the views read of the items
//! that the app server reports.
use vstd::prelude::*;

verus! {

/// How a file is changed by a patch.
#[derive(Clone, Debug, PartialEq, Eq)]
pub enum PatchChangeKind {
    Add,
    Delete,
    Update { move_path: Option<String> },
}

/// One file of a patch, with its unified diff.
#[derive(Clone, Debug, PartialEq, Eq)]
pub struct FileUpdateChange {
    pub path: String,
    pub kind: PatchChangeKind,
    pub diff: String,
}

/// Status of a shell command run by the agent.
#[derive(Clone, Copy, Debug, PartialEq, Eq, Structural)]
pub enum CommandExecutionStatus {
    InProgress,
    Completed,
    Failed,
    Declined,
}

/// Status of a patch applied by the agent.
#[derive(Clone, Copy, Debug, PartialEq, Eq, Structural)]
pub enum PatchApplyStatus {
    InProgress,
    Completed,
    Failed,
    Declined,
}

/// Status of a call to an MCP server's tool.
#[derive(Clone, Copy, Debug, PartialEq, Eq, Structural)]
pub enum McpToolCallStatus {
    InProgress,
    Completed,
    Failed,
}

/// Status of a call to a tool that the client provides.
#[derive(Clone, Copy, Debug, PartialEq, Eq, Structural)]
pub enum DynamicToolCallStatus {
    InProgress,
    Completed,
    Failed,
}

/// Status of a call that hands work to another agent.
#[derive(Clone, Copy, Debug, PartialEq, Eq, Structural)]
pub enum CollabAgentToolCallStatus {
    InProgress,
    Completed,
    Failed,
}

/// What a call to another agent does.
#[derive(Clone, Copy, Debug, PartialEq, Eq, Structural)]
pub enum CollabAgentTool {
    SpawnAgent,
    SendInput,
    ResumeAgent,
    Wait,
    CloseAgent,
}

/// Which part of an answer an agent message is.
#[derive(Clone, Copy, Debug, PartialEq, Eq, Structural)]
pub enum MessagePhase {
    Commentary,
    FinalAnswer,
}

/// One part of what the user sent.
#[derive(Clone, Debug, PartialEq, Eq)]
pub enum UserInput {
    Text { text: String },
    Image { url: String },
    LocalImage { path: String },
    Audio { url: String },
    LocalAudio { path: String },
    Skill { name: String, path: String },
    Mention { name: String, path: String },
}

/// One item of a turn.
#[derive(Clone, Debug, PartialEq, Eq)]
pub enum ThreadItem {
    UserMessage { id: String, client_id: Option<String>, content: Vec<UserInput> },
    AgentMessage { id: String, text: String, phase: Option<MessagePhase> },
    Plan { id: String, text: String },
    Reasoning { id: String, summary: Vec<String>, content: Vec<String> },
    HookPrompt { id: String, fragments: Vec<String> },
    /// `kind` is the name of the sub-agent activity's kind.
    SubAgentActivity { id: String, kind: String, agent_path: String },
    EnteredReviewMode { id: String, review: String },
    ExitedReviewMode { id: String, review: String },
    ContextCompaction { id: String },
    CommandExecution {
        id: String,
        command: String,
        cwd: String,
        status: CommandExecutionStatus,
        exit_code: Option<i32>,
        duration_ms: Option<i64>,
    },
    FileChange { id: String, changes: Vec<FileUpdateChange>, status: PatchApplyStatus },
    McpToolCall { id: String, server: String, tool: String, status: McpToolCallStatus },
    DynamicToolCall {
        id: String,
        namespace: Option<String>,
        tool: String,
        status: DynamicToolCallStatus,
        success: Option<bool>,
    },
    WebSearch { id: String, query: String },
    ImageView { id: String, path: String },
    CollabAgentToolCall { id: String, tool: CollabAgentTool, status: CollabAgentToolCallStatus },
    Sleep { id: String, duration_ms: u64 },
    ImageGeneration {
        id: String,
        status: String,
        revised_prompt: Option<String>,
        saved_path: Option<String>,
        transparent_background: Option<bool>,
    },
    /// An item that the views do not show.
    Other { id: String },
}

impl ThreadItem {
    /// The item's id.
    pub open spec fn id_spec(&self) -> Seq<char> {
        match self {
            ThreadItem::UserMessage { id, .. } => id@,
            ThreadItem::AgentMessage { id, .. } => id@,
            ThreadItem::Plan { id, .. } => id@,
            ThreadItem::Reasoning { id, .. } => id@,
            ThreadItem::HookPrompt { id, .. } => id@,
            ThreadItem::SubAgentActivity { id, .. } => id@,
            ThreadItem::EnteredReviewMode { id, .. } => id@,
            ThreadItem::ExitedReviewMode { id, .. } => id@,
            ThreadItem::ContextCompaction { id } => id@,
            ThreadItem::CommandExecution { id, .. } => id@,
            ThreadItem::FileChange { id, .. } => id@,
            ThreadItem::McpToolCall { id, .. } => id@,
            ThreadItem::DynamicToolCall { id, .. } => id@,
            ThreadItem::WebSearch { id, .. } => id@,
            ThreadItem::ImageView { id, .. } => id@,
            ThreadItem::CollabAgentToolCall { id, .. } => id@,
            ThreadItem::Sleep { id, .. } => id@,
            ThreadItem::ImageGeneration { id, .. } => id@,
            ThreadItem::Other { id } => id@,
        }
    }

    /// The item's id.
    pub fn id(&self) -> (r: &String)
        ensures
            r@ == self.id_spec(),
    {
        match self {
            ThreadItem::UserMessage { id, .. } => id,
            ThreadItem::AgentMessage { id, .. } => id,
            ThreadItem::Plan { id, .. } => id,
            ThreadItem::Reasoning { id, .. } => id,
            ThreadItem::HookPrompt { id, .. } => id,
            ThreadItem::SubAgentActivity { id, .. } => id,
            ThreadItem::EnteredReviewMode { id, .. } => id,
            ThreadItem::ExitedReviewMode { id, .. } => id,
            ThreadItem::ContextCompaction { id } => id,
            ThreadItem::CommandExecution { id, .. } => id,
            ThreadItem::FileChange { id, .. } => id,
            ThreadItem::McpToolCall { id, .. } => id,
            ThreadItem::DynamicToolCall { id, .. } => id,
            ThreadItem::WebSearch { id, .. } => id,
            ThreadItem::ImageView { id, .. } => id,
            ThreadItem::CollabAgentToolCall { id, .. } => id,
            ThreadItem::Sleep { id, .. } => id,
            ThreadItem::ImageGeneration { id, .. } => id,
            ThreadItem::Other { id } => id,
        }
    }
}

/// Status of a turn.
#[derive(Clone, Copy, Debug, PartialEq, Eq, Structural)]
pub enum TurnStatus {
    Completed,
    Interrupted,
    Failed,
    InProgress,
}

/// A turn of a thread: what the user sent and what the agent did in reply.
#[derive(Clone, Debug, PartialEq, Eq)]
pub struct Turn {
    pub id: String,
    pub items: Vec<ThreadItem>,
    pub status: TurnStatus,
    pub duration_ms: Option<i64>,
    pub started_at: Option<i64>,
    pub completed_at: Option<i64>,
}

/// Status of a thread.
#[derive(Clone, Copy, Debug, PartialEq, Eq, Structural)]
pub enum ThreadStatus {
    NotLoaded,
    Idle,
    SystemError,
    Active,
}

/// A thread as the app server reports it.
#[derive(Clone, Debug, PartialEq, Eq)]
pub struct Thread {
    pub id: String,
    pub name: Option<String>,
    pub preview: String,
    pub status: ThreadStatus,
    pub cwd: String,
    pub updated_at: i64,
    pub turns: Vec<Turn>,
}

} // verus!
