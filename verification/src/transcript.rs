//! The transcript of a chat as one markdown document. Blocks that the view
//! draws itself stand in the markdown as self-closing tags that carry the
//! block's id; the blocks are kept beside the markdown under that id.
use vstd::prelude::*;
use vstd::string::StringExecFns;
use crate::text::{
    chars_of, find, find_from, hex_digits, is_whitespace_spec, leading_blank, matches_at,
    push_hex_digits, str_eq, substring, trim_spec,
};

verus! {

/// The tag name of a block marker.
pub const BLOCK_TAG: &'static str = "CodexTranscriptBlock";

/// What `BuildHasher::hash_one` of `BuildHasherDefault<DefaultHasher>` gives
/// for the pair `(kind, key)`.
pub uninterp spec fn block_hash(kind: Seq<char>, key: Seq<char>) -> u64;

/// Hashes `kind` and then `key` with a `DefaultHasher` made by
/// `DefaultHasher::new()`, through `BuildHasher::hash_one` on the pair. The
/// contract only names the result: the hasher's keys are fixed, not seeded
/// per process, so the same strings give the same hash.
#[verifier::external_body]
fn hash_kind_and_key(kind: &str, key: &str) -> (h: u64)
    ensures
        h == block_hash(kind@, key@),
{
    let build = std::hash::BuildHasherDefault::<std::collections::hash_map::DefaultHasher>::default();
    std::hash::BuildHasher::hash_one(&build, (kind, key))
}

/// The id text of the block of `kind` with `key`: `block-` and sixteen
/// lowercase hexadecimal digits of the hash.
pub open spec fn block_id_text(kind: Seq<char>, key: Seq<char>) -> Seq<char> {
    "block-"@ + hex_digits(block_hash(kind, key) as nat, 16)
}

/// The id of a transcript block.
#[derive(Clone, Debug, PartialEq, Eq, Hash)]
pub struct BlockId(String);

impl View for BlockId {
    type V = Seq<char>;

    closed spec fn view(&self) -> Seq<char> {
        self.0@
    }
}

impl BlockId {
    /// The id of the block of `kind` with `key`.
    pub fn new(kind: &str, key: &str) -> (id: Self)
        ensures
            id@ == block_id_text(kind@, key@),
    {
        let h = hash_kind_and_key(kind, key);
        let mut text = String::from_str("block-");
        push_hex_digits(&mut text, h, 16);
        BlockId(text)
    }

    /// The id read back from a block marker.
    pub fn from_marker(value: String) -> (id: Self)
        ensures
            id@ == value@,
    {
        BlockId(value)
    }

    /// The id of the tool group with `key`.
    pub fn tool_group(key: &str) -> (id: Self)
        ensures
            id@ == block_id_text("tools"@, key@),
    {
        Self::new("tools", key)
    }

    /// The id's text.
    pub fn as_str(&self) -> (r: &str)
        ensures
            r@ == self@,
    {
        self.0.as_str()
    }

    /// The id's text, as `Display` writes it.
    pub fn as_string(&self) -> (r: String)
        ensures
            r@ == self@,
    {
        self.0.clone()
    }
}

/// How far a user message has got.
#[derive(Clone, Copy, Debug, PartialEq, Eq, Structural)]
pub enum UserMessageDelivery {
    Sending,
    Failed,
    Sent,
}

impl UserMessageDelivery {
    /// How far the message shows as got: still sending while its bubble
    /// flies from the composer, else as far as it got.
    pub fn shown(self, animating: bool) -> (r: UserMessageDelivery)
        ensures
            r == if animating {
                UserMessageDelivery::Sending
            } else {
                self
            },
    {
        if animating {
            UserMessageDelivery::Sending
        } else {
            self
        }
    }

    /// What the footer of the message says: `Sending…` while it is sent,
    /// `Not sent` when sending failed, nothing once it is sent.
    pub fn label(self) -> (r: Option<&'static str>)
        ensures
            match self {
                UserMessageDelivery::Sending => r matches Some(l) && l@ == "Sending\u{2026}"@,
                UserMessageDelivery::Failed => r matches Some(l) && l@ == "Not sent"@,
                UserMessageDelivery::Sent => r is None,
            },
    {
        match self {
            UserMessageDelivery::Sending => Some("Sending\u{2026}"),
            UserMessageDelivery::Failed => Some("Not sent"),
            UserMessageDelivery::Sent => None,
        }
    }
}

/// How long a turn took.
#[derive(Clone, Copy, Debug, PartialEq, Eq, Structural)]
pub struct TurnDuration {
    pub secs: u64,
    pub subsec_millis: u32,
}

/// A block of the transcript that the view draws itself.
#[derive(Clone, Debug, PartialEq, Eq)]
pub enum HistoryBlock {
    User {
        key: String,
        turn_id: Option<String>,
        previous_turn_id: Option<String>,
        body: String,
        delivery: UserMessageDelivery,
    },
    AssistantHeader { key: String, label: String },
    Plan { key: String, body: String, running: bool },
    Reasoning { key: String, body: String, running: bool },
    HookPrompt { key: String, body: String },
    Activity { key: String, title: String, body: String, running: bool },
    /// `tools` holds the ids of the tool items of the group.
    ToolGroup {
        key: String,
        tools: Vec<String>,
        expanded: bool,
        collapsible: bool,
        active_tail: bool,
    },
    WorkedSummary { turn_id: String, duration: TurnDuration, expanded: bool },
    Notice { key: String, body: String },
    Approval { key: String },
    InputRequest { key: String },
}

/// A transcript block with its text as characters.
pub enum BlockView {
    User {
        key: Seq<char>,
        turn_id: Option<Seq<char>>,
        previous_turn_id: Option<Seq<char>>,
        body: Seq<char>,
        delivery: UserMessageDelivery,
    },
    AssistantHeader { key: Seq<char>, label: Seq<char> },
    Plan { key: Seq<char>, body: Seq<char>, running: bool },
    Reasoning { key: Seq<char>, body: Seq<char>, running: bool },
    HookPrompt { key: Seq<char>, body: Seq<char> },
    Activity { key: Seq<char>, title: Seq<char>, body: Seq<char>, running: bool },
    ToolGroup {
        key: Seq<char>,
        tools: Seq<Seq<char>>,
        expanded: bool,
        collapsible: bool,
        active_tail: bool,
    },
    WorkedSummary { turn_id: Seq<char>, duration: TurnDuration, expanded: bool },
    Notice { key: Seq<char>, body: Seq<char> },
    Approval { key: Seq<char> },
    InputRequest { key: Seq<char> },
}

/// An optional string as characters.
pub open spec fn opt_view(o: Option<String>) -> Option<Seq<char>> {
    match o {
        Some(s) => Some(s@),
        None => None,
    }
}

impl BlockView {
    /// The kind of the block, which its id is made from.
    pub open spec fn kind(self) -> Seq<char> {
        match self {
            BlockView::User { .. } => "user"@,
            BlockView::AssistantHeader { .. } => "assistant-header"@,
            BlockView::Plan { .. } => "plan"@,
            BlockView::Reasoning { .. } => "reasoning"@,
            BlockView::HookPrompt { .. } => "hook-prompt"@,
            BlockView::Activity { .. } => "activity"@,
            BlockView::ToolGroup { .. } => "tools"@,
            BlockView::WorkedSummary { .. } => "worked-summary"@,
            BlockView::Notice { .. } => "notice"@,
            BlockView::Approval { .. } => "approval"@,
            BlockView::InputRequest { .. } => "input-request"@,
        }
    }

    /// The key of the block, which its id is made from.
    pub open spec fn key(self) -> Seq<char> {
        match self {
            BlockView::User { key, .. } => key,
            BlockView::AssistantHeader { key, .. } => key,
            BlockView::Plan { key, .. } => key,
            BlockView::Reasoning { key, .. } => key,
            BlockView::HookPrompt { key, .. } => key,
            BlockView::Activity { key, .. } => key,
            BlockView::ToolGroup { key, .. } => key,
            BlockView::WorkedSummary { turn_id, .. } => turn_id,
            BlockView::Notice { key, .. } => key,
            BlockView::Approval { key } => key,
            BlockView::InputRequest { key } => key,
        }
    }

    /// The id text of the block.
    pub open spec fn id(self) -> Seq<char> {
        block_id_text(self.kind(), self.key())
    }
}

impl HistoryBlock {
    /// The block with its text as characters.
    pub open spec fn view(self) -> BlockView {
        match self {
            HistoryBlock::User { key, turn_id, previous_turn_id, body, delivery } => BlockView::User {
                key: key@,
                turn_id: opt_view(turn_id),
                previous_turn_id: opt_view(previous_turn_id),
                body: body@,
                delivery,
            },
            HistoryBlock::AssistantHeader { key, label } => BlockView::AssistantHeader {
                key: key@,
                label: label@,
            },
            HistoryBlock::Plan { key, body, running } => BlockView::Plan {
                key: key@,
                body: body@,
                running,
            },
            HistoryBlock::Reasoning { key, body, running } => BlockView::Reasoning {
                key: key@,
                body: body@,
                running,
            },
            HistoryBlock::HookPrompt { key, body } => BlockView::HookPrompt {
                key: key@,
                body: body@,
            },
            HistoryBlock::Activity { key, title, body, running } => BlockView::Activity {
                key: key@,
                title: title@,
                body: body@,
                running,
            },
            HistoryBlock::ToolGroup { key, tools, expanded, collapsible, active_tail } =>
            BlockView::ToolGroup {
                key: key@,
                tools: tools.deep_view(),
                expanded,
                collapsible,
                active_tail,
            },
            HistoryBlock::WorkedSummary { turn_id, duration, expanded } =>
            BlockView::WorkedSummary { turn_id: turn_id@, duration, expanded },
            HistoryBlock::Notice { key, body } => BlockView::Notice { key: key@, body: body@ },
            HistoryBlock::Approval { key } => BlockView::Approval { key: key@ },
            HistoryBlock::InputRequest { key } => BlockView::InputRequest { key: key@ },
        }
    }

    /// The id of the block: made from its kind and key alone.
    pub fn id(&self) -> (id: BlockId)
        ensures
            id@ == self.view().id(),
    {
        match self {
            HistoryBlock::User { key, .. } => BlockId::new("user", key.as_str()),
            HistoryBlock::AssistantHeader { key, .. } => BlockId::new(
                "assistant-header",
                key.as_str(),
            ),
            HistoryBlock::Plan { key, .. } => BlockId::new("plan", key.as_str()),
            HistoryBlock::Reasoning { key, .. } => BlockId::new("reasoning", key.as_str()),
            HistoryBlock::HookPrompt { key, .. } => BlockId::new("hook-prompt", key.as_str()),
            HistoryBlock::Activity { key, .. } => BlockId::new("activity", key.as_str()),
            HistoryBlock::ToolGroup { key, .. } => BlockId::tool_group(key.as_str()),
            HistoryBlock::WorkedSummary { turn_id, .. } => BlockId::new(
                "worked-summary",
                turn_id.as_str(),
            ),
            HistoryBlock::Notice { key, .. } => BlockId::new("notice", key.as_str()),
            HistoryBlock::Approval { key } => BlockId::new("approval", key.as_str()),
            HistoryBlock::InputRequest { key } => BlockId::new("input-request", key.as_str()),
        }
    }
}

/// What is pushed onto a transcript: markdown or a block.
pub enum Push {
    Markdown(Seq<char>),
    Block(BlockView),
}

/// A transcript as values: its markdown and its blocks under their ids, in
/// the order in which each id was first pushed.
pub struct SnapshotView {
    pub markdown: Seq<char>,
    pub blocks: Seq<(Seq<char>, BlockView)>,
}

/// The separator written before anything pushed after the first thing.
pub open spec fn separator(markdown: Seq<char>) -> Seq<char> {
    if markdown.len() == 0 {
        Seq::empty()
    } else {
        "\n\n"@
    }
}

/// The marker that stands for the block with id `id` in the markdown.
pub open spec fn marker(id: Seq<char>) -> Seq<char> {
    "<"@ + BLOCK_TAG@ + " id=\""@ + id + "\" />"@
}

/// The first position of an entry with id `id`, if any.
pub open spec fn entry_index(blocks: Seq<(Seq<char>, BlockView)>, id: Seq<char>, from: int) -> int
    decreases blocks.len() - from,
{
    if from < 0 || from >= blocks.len() {
        -1
    } else if blocks[from].0 == id {
        from
    } else {
        entry_index(blocks, id, from + 1)
    }
}

/// The blocks with `block` under `id`: in place of an entry with that id, or appended.
pub open spec fn insert_block(
    blocks: Seq<(Seq<char>, BlockView)>,
    id: Seq<char>,
    block: BlockView,
) -> Seq<(Seq<char>, BlockView)> {
    let i = entry_index(blocks, id, 0);
    if i >= 0 {
        blocks.update(i, (id, block))
    } else {
        blocks.push((id, block))
    }
}

/// The transcript after one push.
pub open spec fn apply_push(v: SnapshotView, p: Push) -> SnapshotView {
    match p {
        Push::Markdown(text) => if text.len() == 0 {
            v
        } else {
            SnapshotView { markdown: v.markdown + separator(v.markdown) + text, blocks: v.blocks }
        },
        Push::Block(block) => SnapshotView {
            markdown: v.markdown + separator(v.markdown) + marker(block.id()),
            blocks: insert_block(v.blocks, block.id(), block),
        },
    }
}

/// The transcript after the pushes, in order.
pub open spec fn apply_pushes(v: SnapshotView, ps: Seq<Push>) -> SnapshotView
    decreases ps.len(),
{
    if ps.len() == 0 {
        v
    } else {
        apply_push(apply_pushes(v, ps.drop_last()), ps.last())
    }
}

/// Pushing `a` and then `b` is pushing `a + b`.
pub proof fn lemma_apply_pushes_concat(v: SnapshotView, a: Seq<Push>, b: Seq<Push>)
    ensures
        apply_pushes(v, a + b) == apply_pushes(apply_pushes(v, a), b),
    decreases b.len(),
{
    if b.len() == 0 {
        assert(a + b =~= a);
    } else {
        assert((a + b).drop_last() =~= a + b.drop_last());
        assert((a + b).last() == b.last());
        lemma_apply_pushes_concat(v, a, b.drop_last());
    }
}

/// A transcript: markdown with block markers, and the blocks under their ids.
pub struct TranscriptSnapshot {
    pub markdown: String,
    pub blocks: Vec<(BlockId, HistoryBlock)>,
}

impl TranscriptSnapshot {
    /// The transcript as values.
    pub open spec fn view(&self) -> SnapshotView {
        SnapshotView {
            markdown: self.markdown@,
            blocks: self.blocks@.map_values(|e: (BlockId, HistoryBlock)| (e.0@, e.1.view())),
        }
    }

    /// An empty transcript.
    pub fn new() -> (t: Self)
        ensures
            t.view() == (SnapshotView { markdown: Seq::empty(), blocks: Seq::empty() }),
    {
        let t = TranscriptSnapshot { markdown: String::new(), blocks: Vec::new() };
        assert(t.view().blocks =~= Seq::<(Seq<char>, BlockView)>::empty());
        t
    }

    /// Appends `markdown` after a blank line; nothing when it is empty.
    pub fn push_markdown(&mut self, markdown: &str)
        ensures
            final(self).view() == apply_push(old(self).view(), Push::Markdown(markdown@)),
    {
        if markdown.is_empty() {
            return;
        }
        self.push_separator();
        self.markdown.append(markdown);
    }

    /// Appends the marker of `block` after a blank line and keeps the block
    /// under its id, in place of a block with the same id.
    pub fn push_block(&mut self, block: HistoryBlock)
        ensures
            final(self).view() == apply_push(old(self).view(), Push::Block(block.view())),
    {
        let id = block.id();
        self.push_separator();
        self.markdown.append("<");
        self.markdown.append(BLOCK_TAG);
        self.markdown.append(" id=\"");
        self.markdown.append(id.as_str());
        self.markdown.append("\" />");
        let ghost old_blocks = self.view().blocks;
        let ghost bv = block.view();
        match self.block_index(&id) {
            Some(i) => {
                self.blocks.set(i, (id, block));
                assert(self.view().blocks =~= old_blocks.update(i as int, (bv.id(), bv)));
            },
            None => {
                self.blocks.push((id, block));
                assert(self.view().blocks =~= old_blocks.push((bv.id(), bv)));
            },
        }
        proof {
            assert(self.view().markdown =~= old(self).view().markdown + separator(
                old(self).view().markdown,
            ) + marker(bv.id()));
        }
    }

    /// The position of the block with `id`, if one is kept.
    fn block_index(&self, id: &BlockId) -> (r: Option<usize>)
        ensures
            match r {
                Some(i) => entry_index(self.view().blocks, id@, 0) == i && i < self.blocks@.len(),
                None => entry_index(self.view().blocks, id@, 0) == -1,
            },
    {
        let ghost blocks = self.view().blocks;
        let mut i: usize = 0;
        while i < self.blocks.len()
            invariant
                0 <= i <= self.blocks@.len(),
                blocks == self.view().blocks,
                entry_index(blocks, id@, 0) == entry_index(blocks, id@, i as int),
            decreases self.blocks@.len() - i,
        {
            if self.blocks[i].0.0 == id.0 {
                assert(blocks[i as int].0 == self.blocks@[i as int].0@);
                return Some(i);
            }
            assert(blocks[i as int].0 == self.blocks@[i as int].0@);
            i = i + 1;
        }
        None
    }

    /// The block that the raw HTML `raw` of the markdown stands for: a tag
    /// named `BLOCK_TAG` whose `id` attribute names a block of the transcript.
    pub fn marker_block(&self, raw: &str) -> (r: Option<BlockId>)
        ensures
            match r {
                Some(id) => is_marker_of(raw@, id@) && entry_index(self.view().blocks, id@, 0)
                    >= 0,
                None => forall|id: Seq<char>|
                    is_marker_of(raw@, id) ==> entry_index(self.view().blocks, id, 0) < 0,
            },
    {
        let tag = match html_tag_name(raw) {
            Some(tag) => tag,
            None => {
                return None;
            },
        };
        if !str_eq(tag.as_str(), BLOCK_TAG) {
            return None;
        }
        let id = match html_attr(raw, "id") {
            Some(value) => BlockId::from_marker(value),
            None => {
                return None;
            },
        };
        match self.block_index(&id) {
            Some(_) => Some(id),
            None => None,
        }
    }

    fn push_separator(&mut self)
        ensures
            final(self).markdown@ == old(self).markdown@ + separator(old(self).markdown@),
            final(self).blocks == old(self).blocks,
    {
        if !self.markdown.as_str().is_empty() {
            self.markdown.append("\n\n");
        } else {
            assert(self.markdown@ + Seq::<char>::empty() =~= self.markdown@);
        }
    }
}

/// Law: the markdown that pushes leave behind extends by exactly what a
/// longer final markdown adds: streaming more of a reply appends to the
/// source and changes nothing before it.
pub proof fn law_streaming_markdown_appends(v: SnapshotView, text: Seq<char>, more: Seq<char>)
    requires
        text.len() > 0,
    ensures
        apply_push(v, Push::Markdown(text + more)).markdown == apply_push(
            v,
            Push::Markdown(text),
        ).markdown + more,
        apply_push(v, Push::Markdown(text + more)).blocks == apply_push(
            v,
            Push::Markdown(text),
        ).blocks,
{
    assert(v.markdown + separator(v.markdown) + (text + more) =~= v.markdown + separator(
        v.markdown,
    ) + text + more);
}

/// Law: the marker of a block depends on its kind and key alone, so state
/// that changes while a block is on screen (a label, a body, running or
/// not) leaves the markdown as it was.
pub proof fn law_marker_ignores_block_state(v: SnapshotView, a: BlockView, b: BlockView)
    requires
        a.kind() == b.kind(),
        a.key() == b.key(),
    ensures
        apply_push(v, Push::Block(a)).markdown == apply_push(v, Push::Block(b)).markdown,
{
}

/// Whether `raw` is a block marker tag whose `id` attribute is `id`.
pub open spec fn is_marker_of(raw: Seq<char>, id: Seq<char>) -> bool {
    html_tag_name_spec(raw) == Some(BLOCK_TAG@) && html_attr_spec(raw, "id"@) == Some(id)
}

/// The first character at or after `from` that ends a tag name.
pub open spec fn name_end(s: Seq<char>, from: int) -> int
    decreases s.len() - from,
{
    if from < 0 || from >= s.len() {
        s.len() as int
    } else if s[from] == ' ' || s[from] == '/' || s[from] == '>' {
        from
    } else {
        name_end(s, from + 1)
    }
}

/// The name of the tag that `value` opens: after trimming, the text after
/// `<` up to the first space, slash or `>`; `None` when there is no `<`.
pub open spec fn html_tag_name_spec(value: Seq<char>) -> Option<Seq<char>> {
    let t = trim_spec(value);
    if t.len() > 0 && t[0] == '<' {
        Some(t.subrange(1, name_end(t, 1)))
    } else {
        None
    }
}

/// The name of the tag that `value` opens.
pub fn html_tag_name(value: &str) -> (r: Option<String>)
    ensures
        opt_view(r) == html_tag_name_spec(value@),
{
    let trimmed = crate::text::trim(value);
    let t = chars_of(trimmed.as_str());
    if t.len() == 0 || t[0] != '<' {
        return None;
    }
    let mut end: usize = 1;
    while end < t.len() && t[end] != ' ' && t[end] != '/' && t[end] != '>'
        invariant
            1 <= end <= t@.len(),
            name_end(t@, 1) == name_end(t@, end as int),
        decreases t@.len() - end,
    {
        end = end + 1;
    }
    Some(substring(&t, 1, end))
}

/// The value of the attribute `name` in `value`: the text between `name="`
/// and the next `"`; `None` when either is missing.
pub open spec fn html_attr_spec(value: Seq<char>, name: Seq<char>) -> Option<Seq<char>> {
    let pattern = name + "=\""@;
    match find_from(value, pattern, 0) {
        None => None,
        Some(at) => {
            let start = at + pattern.len();
            match find_from(value, seq!['"'], start) {
                None => None,
                Some(end) => Some(value.subrange(start, end)),
            }
        },
    }
}

/// The value of the attribute `name` in `value`.
pub fn html_attr(value: &str, name: &str) -> (r: Option<String>)
    ensures
        opt_view(r) == html_attr_spec(value@, name@),
{
    let mut pattern_text = String::from_str(name);
    pattern_text.append("=\"");
    let pattern = chars_of(pattern_text.as_str());
    let s = chars_of(value);
    let n = s.len();
    let at = match find(&s, &pattern, 0) {
        Some(at) => at,
        None => return None,
    };
    proof {
        lemma_find_from_in_range(s@, pattern@, 0);
    }
    let start = at + pattern.len();
    let mut quote: Vec<char> = Vec::new();
    quote.push('"');
    assert(quote@ =~= seq!['"']);
    let end = match find(&s, &quote, start) {
        Some(end) => end,
        None => return None,
    };
    proof {
        lemma_find_from_in_range(s@, quote@, start as int);
    }
    Some(substring(&s, start, end))
}

/// A match found from `from` lies at or after `from` and fits in `s`.
pub proof fn lemma_find_from_in_range(s: Seq<char>, pattern: Seq<char>, from: int)
    ensures
        match find_from(s, pattern, from) {
            Some(i) => from <= i && i + pattern.len() <= s.len(),
            None => true,
        },
    decreases s.len() + 1 - from,
{
    if from >= 0 && from <= s.len() && !crate::text::matches_at(s, pattern, from) {
        lemma_find_from_in_range(s, pattern, from + 1);
    }
}

proof fn lemma_name_end_at(s: Seq<char>, from: int, end: int)
    requires
        0 <= from <= end < s.len(),
        forall|k: int| from <= k < end ==> s[k] != ' ' && s[k] != '/' && s[k] != '>',
        s[end] == ' ' || s[end] == '/' || s[end] == '>',
    ensures
        name_end(s, from) == end,
    decreases end - from,
{
    if from < end {
        lemma_name_end_at(s, from + 1, end);
    }
}

proof fn lemma_find_from_at(s: Seq<char>, pattern: Seq<char>, from: int, at: int)
    requires
        0 <= from <= at <= s.len(),
        forall|k: int| from <= k < at ==> !matches_at(s, pattern, k),
        matches_at(s, pattern, at),
    ensures
        find_from(s, pattern, from) == Some(at),
    decreases at - from,
{
    if from < at {
        lemma_find_from_at(s, pattern, from + 1, at);
    }
}

/// Law: the marker that `push_block` writes for a block reads back as a
/// marker of that block's id, for any id without a double quote (the ids
/// that `BlockId::new` makes are `block-` and hexadecimal digits).
pub proof fn law_marker_reads_back_its_id(id: Seq<char>)
    requires
        forall|i: int| 0 <= i < id.len() ==> id[i] != '"',
    ensures
        is_marker_of(marker(id), id),
{
    reveal_strlit("<");
    reveal_strlit("CodexTranscriptBlock");
    reveal_strlit(" id=\"");
    reveal_strlit("\" />");
    reveal_strlit("id");
    reveal_strlit("=\"");
    let m = marker(id);
    let n: int = id.len() as int;
    let head = "<"@ + BLOCK_TAG@ + " id=\""@;
    let tail = "\" />"@;
    assert(m =~= head + id + tail);
    assert(head.len() == 26);
    assert(forall|k: int| 0 <= k < 26 ==> m[k] == head[k]);
    assert(forall|k: int| 0 <= k < id.len() ==> m[26 + k] == id[k]);
    assert(m[26 + n] == '"');
    assert(m.last() == '>');
    // Trimming leaves the marker as it is.
    assert(!is_whitespace_spec(m[0]));
    assert(leading_blank(m) == 0);
    assert(m.skip(0) =~= m);
    assert(!is_whitespace_spec(m.last()));
    assert(trim_spec(m) == m);
    // The tag name runs from after `<` to the space before `id`.
    assert forall|k: int| 1 <= k < 21 implies m[k] != ' ' && m[k] != '/' && m[k] != '>' by {
        assert(m[k] == BLOCK_TAG@[k - 1]);
    }
    lemma_name_end_at(m, 1, 21);
    assert(m.subrange(1, 21) =~= BLOCK_TAG@);
    // The first `id="` is the attribute.
    let pattern = "id"@ + "=\""@;
    assert(pattern =~= seq!['i', 'd', '=', '"']);
    assert forall|k: int| 0 <= k < 22 implies !matches_at(m, pattern, k) by {
        if matches_at(m, pattern, k) {
            assert(m.subrange(k, k + 4)[0] == 'i');
            assert(m.subrange(k, k + 4)[1] == 'd');
            assert(m[k] == 'i' && m[k + 1] == 'd');
        }
    }
    assert(m.subrange(22, 26) =~= pattern);
    lemma_find_from_at(m, pattern, 0, 22);
    // The value runs to the next double quote.
    assert forall|k: int| 26 <= k < 26 + n implies !matches_at(m, seq!['"'], k) by {
        if matches_at(m, seq!['"'], k) {
            assert(m.subrange(k, k + 1)[0] == '"');
        }
    }
    assert(m.subrange(26 + n, 26 + n + 1) =~= seq!['"']);
    lemma_find_from_at(m, seq!['"'], 26, 26 + n);
    assert(m.subrange(26, 26 + n) =~= id);
}

} // verus!
