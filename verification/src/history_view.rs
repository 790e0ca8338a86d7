//! What the chat history view keeps between rebuilds of its transcript:
//! the expanded turns and tool groups, the markdown its text view shows, and
//! the animation of a message being sent; and how a new transcript reaches
//! the text view.
use vstd::prelude::*;
use crate::name_set::{NameSet, toggled};
use crate::text::{chars_of, match_at, matches_at, str_eq, substring};
use crate::projection::{ChatTranscriptSource, build_transcript, transcript_pushes};
use crate::transcript::{
    BlockId, HistoryBlock, SnapshotView, TranscriptSnapshot, apply_pushes, block_id_text, opt_view,
};

verus! {

/// How the text view takes a new transcript.
pub enum TranscriptUpdate {
    /// The markdown did not change: the blocks are measured again, the
    /// changed one alone when it is known.
    Remeasure { changed_block: Option<BlockId> },
    /// The markdown of the same chat grew: this text is appended.
    Append(String),
    /// Anything else: the text is replaced by this markdown.
    Replace(String),
}

/// The text the view shows after taking `update` while it showed `shown`.
pub open spec fn text_after(shown: Seq<char>, update: TranscriptUpdate) -> Seq<char> {
    match update {
        TranscriptUpdate::Remeasure { .. } => shown,
        TranscriptUpdate::Append(delta) => shown + delta@,
        TranscriptUpdate::Replace(markdown) => markdown@,
    }
}

/// How the text view, showing `old_markdown` of `old_chat`, takes
/// `markdown` of `chat`: measured again when the same chat's markdown did not
/// change; the new end appended when the same chat's non-empty markdown grew
/// by it; replaced otherwise. Either way it then shows `markdown`.
pub open spec fn takes_transcript(
    old_chat: Option<Seq<char>>,
    old_markdown: Seq<char>,
    chat: Option<Seq<char>>,
    markdown: Seq<char>,
    changed_block: Option<BlockId>,
    update: TranscriptUpdate,
) -> bool {
    &&& text_after(old_markdown, update) == markdown
    &&& if old_chat == chat && old_markdown == markdown {
        update == (TranscriptUpdate::Remeasure { changed_block })
    } else if old_chat == chat && old_markdown.len() > 0 && matches_at(markdown, old_markdown, 0) {
        update matches TranscriptUpdate::Append(delta) && delta@ == markdown.subrange(
            old_markdown.len() as int,
            markdown.len() as int,
        )
    } else {
        update matches TranscriptUpdate::Replace(m) && m@ == markdown
    }
}

/// A message whose bubble flies from the composer to its place in the
/// history.
pub struct SendAnimation {
    /// The client id of the message being sent.
    pub client_id: String,
    /// Whether the flight has started.
    pub started: bool,
}

/// What the chat history view keeps between rebuilds of its transcript.
pub struct HistoryViewState {
    expanded_turns: NameSet,
    expanded_tool_groups: NameSet,
    transcript_markdown: String,
    transcript_chat_id: Option<String>,
    send_animation: Option<SendAnimation>,
}

impl HistoryViewState {
    /// The sets are well formed.
    pub closed spec fn wf(self) -> bool {
        self.expanded_turns.wf() && self.expanded_tool_groups.wf()
    }

    /// The ids of the turns the reader expanded.
    pub closed spec fn expanded_turns(self) -> Set<Seq<char>> {
        self.expanded_turns@
    }

    /// The ids of the expanded turns, in the order they were expanded.
    pub closed spec fn expanded_turn_list(self) -> Seq<Seq<char>> {
        self.expanded_turns.list()
    }

    /// The ids of the expanded tool groups, in the order they were expanded.
    pub closed spec fn expanded_tool_group_list(self) -> Seq<Seq<char>> {
        self.expanded_tool_groups.list()
    }

    /// The ids of the tool groups the reader expanded.
    pub closed spec fn expanded_tool_groups(self) -> Set<Seq<char>> {
        self.expanded_tool_groups@
    }

    /// The markdown the text view shows.
    pub closed spec fn markdown(self) -> Seq<char> {
        self.transcript_markdown@
    }

    /// The chat whose transcript the text view shows.
    pub closed spec fn chat_id(self) -> Option<Seq<char>> {
        opt_view(self.transcript_chat_id)
    }

    /// The message being sent, and whether its flight started.
    pub closed spec fn animation(self) -> Option<(Seq<char>, bool)> {
        match self.send_animation {
            Some(a) => Some((a.client_id@, a.started)),
            None => None,
        }
    }

    /// Nothing expanded, no transcript shown and no message in flight.
    pub fn new() -> (r: Self)
        ensures
            r.wf(),
            r.expanded_turns() == Set::<Seq<char>>::empty(),
            r.expanded_tool_groups() == Set::<Seq<char>>::empty(),
            r.markdown() == Seq::<char>::empty(),
            r.chat_id() is None,
            r.animation() is None,
    {
        HistoryViewState {
            expanded_turns: NameSet::new(),
            expanded_tool_groups: NameSet::new(),
            transcript_markdown: String::new(),
            transcript_chat_id: None,
            send_animation: None,
        }
    }

    /// The names of the expanded turns.
    pub fn expanded_turn_ids(&self) -> (r: &Vec<String>)
        ensures
            r.deep_view() == self.expanded_turn_list(),
    {
        self.expanded_turns.names()
    }

    /// The names of the expanded tool groups.
    pub fn expanded_tool_group_ids(&self) -> (r: &Vec<String>)
        ensures
            r.deep_view() == self.expanded_tool_group_list(),
    {
        self.expanded_tool_groups.names()
    }

    /// Another chat became active: the expanded turns and tool groups and the
    /// shown transcript are dropped; the message in flight stays only when
    /// it is the message the new chat is sending (`pending_client_id`).
    pub fn switch_chat(&mut self, pending_client_id: Option<&str>)
        ensures
            final(self).wf(),
            final(self).expanded_turns() == Set::<Seq<char>>::empty(),
            final(self).expanded_tool_groups() == Set::<Seq<char>>::empty(),
            final(self).markdown() == Seq::<char>::empty(),
            final(self).chat_id() is None,
            final(self).animation() == match (old(self).animation(), pending_client_id) {
                (Some((id, started)), Some(p)) => if id == p@ {
                    Some((id, started))
                } else {
                    None
                },
                _ => None,
            },
    {
        let keep = match (&self.send_animation, pending_client_id) {
            (Some(animation), Some(p)) => str_eq(animation.client_id.as_str(), p),
            _ => false,
        };
        if !keep {
            self.send_animation = None;
        }
        self.expanded_turns = NameSet::new();
        self.expanded_tool_groups = NameSet::new();
        self.transcript_markdown = String::new();
        self.transcript_chat_id = None;
    }

    /// The user sent the message `client_id`: its flight waits to start,
    /// unless motion is reduced. The result says whether a flight was set up
    /// (and its timeout should be armed).
    pub fn begin_send_animation(&mut self, client_id: String, reduce_motion: bool) -> (began: bool)
        requires
            old(self).wf(),
        ensures
            final(self).wf(),
            began == !reduce_motion,
            final(self).animation() == if reduce_motion {
                old(self).animation()
            } else {
                Some((client_id@, false))
            },
            final(self).expanded_turns() == old(self).expanded_turns(),
            final(self).expanded_tool_groups() == old(self).expanded_tool_groups(),
            final(self).markdown() == old(self).markdown(),
            final(self).chat_id() == old(self).chat_id(),
    {
        if reduce_motion {
            return false;
        }
        self.send_animation = Some(SendAnimation { client_id, started: false });
        true
    }

    /// Whether the message in flight is `client_id`, and if so whether its
    /// flight has started.
    pub fn send_animation_launch(&self, client_id: &str) -> (r: Option<bool>)
        ensures
            r == match self.animation() {
                Some((id, started)) => if id == client_id@ {
                    Some(started)
                } else {
                    None
                },
                None => None,
            },
    {
        match &self.send_animation {
            Some(animation) => if str_eq(animation.client_id.as_str(), client_id) {
                Some(animation.started)
            } else {
                None
            },
            None => None,
        }
    }

    /// The flight of the message `client_id` started.
    pub fn mark_started(&mut self, client_id: &str)
        requires
            old(self).wf(),
        ensures
            final(self).wf(),
            final(self).animation() == match old(self).animation() {
                Some((id, started)) => if id == client_id@ {
                    Some((id, true))
                } else {
                    Some((id, started))
                },
                None => None,
            },
            final(self).expanded_turns() == old(self).expanded_turns(),
            final(self).expanded_tool_groups() == old(self).expanded_tool_groups(),
            final(self).markdown() == old(self).markdown(),
            final(self).chat_id() == old(self).chat_id(),
    {
        let matches = match &self.send_animation {
            Some(animation) => str_eq(animation.client_id.as_str(), client_id),
            None => false,
        };
        if matches {
            let mut animation = self.send_animation.take().unwrap();
            animation.started = true;
            self.send_animation = Some(animation);
        }
    }

    /// The flight of `client_id` is over: it is dropped when it is the one
    /// in flight. The result says whether anything changed.
    pub fn finish_send_animation(&mut self, client_id: &str) -> (changed: bool)
        requires
            old(self).wf(),
        ensures
            final(self).wf(),
            changed == (old(self).animation() matches Some((id, _)) && id == client_id@),
            final(self).animation() == if changed {
                None
            } else {
                old(self).animation()
            },
            final(self).expanded_turns() == old(self).expanded_turns(),
            final(self).expanded_tool_groups() == old(self).expanded_tool_groups(),
            final(self).markdown() == old(self).markdown(),
            final(self).chat_id() == old(self).chat_id(),
    {
        let matches = match &self.send_animation {
            Some(animation) => str_eq(animation.client_id.as_str(), client_id),
            None => false,
        };
        if !matches {
            return false;
        }
        self.send_animation = None;
        true
    }

    /// The wait for the flight of `client_id` timed out: a flight that has
    /// not started is dropped. The result says whether anything changed.
    pub fn expire_waiting_send_animation(&mut self, client_id: &str) -> (changed: bool)
        requires
            old(self).wf(),
        ensures
            final(self).wf(),
            changed == (old(self).animation() matches Some((id, started)) && id == client_id@
                && !started),
            final(self).animation() == if changed {
                None
            } else {
                old(self).animation()
            },
            final(self).expanded_turns() == old(self).expanded_turns(),
            final(self).expanded_tool_groups() == old(self).expanded_tool_groups(),
            final(self).markdown() == old(self).markdown(),
            final(self).chat_id() == old(self).chat_id(),
    {
        let should_expire = match &self.send_animation {
            Some(animation) => str_eq(animation.client_id.as_str(), client_id)
                && !animation.started,
            None => false,
        };
        if should_expire {
            self.finish_send_animation(client_id)
        } else {
            false
        }
    }

    /// The reader clicked the summary of turn `turn_id`: it is expanded, or
    /// folded again.
    pub fn toggle_turn(&mut self, turn_id: &str)
        requires
            old(self).wf(),
        ensures
            final(self).wf(),
            final(self).expanded_turns() == toggled(old(self).expanded_turns(), turn_id@),
            final(self).expanded_tool_groups() == old(self).expanded_tool_groups(),
            final(self).markdown() == old(self).markdown(),
            final(self).chat_id() == old(self).chat_id(),
            final(self).animation() == old(self).animation(),
    {
        self.expanded_turns.toggle(turn_id);
    }

    /// The reader clicked the tool group `group_id`: it is expanded, or
    /// collapsed again. The result is the id of its block, which has to be
    /// measured again.
    pub fn toggle_tools(&mut self, group_id: &str) -> (changed_block: BlockId)
        requires
            old(self).wf(),
        ensures
            final(self).wf(),
            changed_block@ == block_id_text("tools"@, group_id@),
            final(self).expanded_tool_groups() == toggled(
                old(self).expanded_tool_groups(),
                group_id@,
            ),
            final(self).expanded_turns() == old(self).expanded_turns(),
            final(self).markdown() == old(self).markdown(),
            final(self).chat_id() == old(self).chat_id(),
            final(self).animation() == old(self).animation(),
    {
        self.expanded_tool_groups.toggle(group_id);
        BlockId::tool_group(group_id)
    }

    /// Takes the transcript of `chat_id` with `markdown`, and says how the
    /// text view takes it.
    pub fn sync_transcript(
        &mut self,
        chat_id: Option<String>,
        markdown: String,
        changed_block: Option<BlockId>,
    ) -> (update: TranscriptUpdate)
        requires
            old(self).wf(),
        ensures
            final(self).wf(),
            final(self).markdown() == markdown@,
            final(self).chat_id() == opt_view(chat_id),
            takes_transcript(
                old(self).chat_id(),
                old(self).markdown(),
                opt_view(chat_id),
                markdown@,
                changed_block,
                update,
            ),
            final(self).expanded_turn_list() == old(self).expanded_turn_list(),
            final(self).expanded_tool_group_list() == old(self).expanded_tool_group_list(),
            final(self).expanded_turns() == old(self).expanded_turns(),
            final(self).expanded_tool_groups() == old(self).expanded_tool_groups(),
            final(self).animation() == old(self).animation(),
    {
        let same_chat = match (&self.transcript_chat_id, &chat_id) {
            (Some(a), Some(b)) => str_eq(a.as_str(), b.as_str()),
            (None, None) => true,
            _ => false,
        };
        let mut old_markdown = markdown;
        std::mem::swap(&mut old_markdown, &mut self.transcript_markdown);
        self.transcript_chat_id = chat_id;
        let new_chars = chars_of(self.transcript_markdown.as_str());
        let old_chars = chars_of(old_markdown.as_str());
        if same_chat && str_eq(old_markdown.as_str(), self.transcript_markdown.as_str()) {
            return TranscriptUpdate::Remeasure { changed_block };
        }
        if same_chat && old_chars.len() > 0 && match_at(&new_chars, &old_chars, 0) {
            let delta = substring(&new_chars, old_chars.len(), new_chars.len());
            proof {
                assert(old_chars@ + delta@ =~= new_chars@);
            }
            return TranscriptUpdate::Append(delta);
        }
        TranscriptUpdate::Replace(self.transcript_markdown.clone())
    }
}

impl HistoryViewState {
    /// Rebuilds the transcript of the active chat (`chat`, with its id), or
    /// an empty one when no chat is active, with the expanded turns and tool
    /// groups; the text view takes it as `sync_transcript` says, and the
    /// result holds its blocks. `changed_block` is the block whose height
    /// changed, when one is known.
    pub fn rebuild_transcript(
        &mut self,
        chat: Option<(String, &ChatTranscriptSource)>,
        changed_block: Option<BlockId>,
    ) -> (r: (TranscriptUpdate, Vec<(BlockId, HistoryBlock)>))
        requires
            old(self).wf(),
            chat matches Some((_, c)) ==> c.wf(),
        ensures
            final(self).wf(),
            ({
                let built = match chat {
                    Some((_, c)) => apply_pushes(
                        SnapshotView { markdown: Seq::empty(), blocks: Seq::empty() },
                        transcript_pushes(
                            *c,
                            old(self).expanded_turn_list(),
                            old(self).expanded_tool_group_list(),
                        ),
                    ),
                    None => SnapshotView { markdown: Seq::empty(), blocks: Seq::empty() },
                };
                let chat_id = match chat {
                    Some((id, _)) => Some(id@),
                    None => None,
                };
                &&& r.1@.map_values(|e: (BlockId, HistoryBlock)| (e.0@, e.1.view()))
                    == built.blocks
                &&& final(self).markdown() == built.markdown
                &&& final(self).chat_id() == chat_id
                &&& takes_transcript(
                    old(self).chat_id(),
                    old(self).markdown(),
                    chat_id,
                    built.markdown,
                    changed_block,
                    r.0,
                )
            }),
            final(self).expanded_turns() == old(self).expanded_turns(),
            final(self).expanded_tool_groups() == old(self).expanded_tool_groups(),
            final(self).expanded_turn_list() == old(self).expanded_turn_list(),
            final(self).expanded_tool_group_list() == old(self).expanded_tool_group_list(),
            final(self).animation() == old(self).animation(),
    {
        let snapshot = match &chat {
            Some((_, source)) => build_transcript(
                source,
                self.expanded_turns.names(),
                self.expanded_tool_groups.names(),
            ),
            None => TranscriptSnapshot::new(),
        };
        let chat_id = match chat {
            Some((id, _)) => Some(id),
            None => None,
        };
        proof {
            assert(snapshot.view() == SnapshotView {
                markdown: snapshot.markdown@,
                blocks: snapshot.blocks@.map_values(
                    |e: (BlockId, HistoryBlock)| (e.0@, e.1.view()),
                ),
            });
        }
        let TranscriptSnapshot { markdown, blocks } = snapshot;
        let update = self.sync_transcript(chat_id, markdown, changed_block);
        (update, blocks)
    }
}

} // verus!
