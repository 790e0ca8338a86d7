use codex_gui::transcript::{
    html_attr, html_tag_name, BlockId, HistoryBlock, TranscriptSnapshot, UserMessageDelivery,
    BLOCK_TAG,
};

fn user_block() -> HistoryBlock {
    HistoryBlock::User {
        key: "user-1".into(),
        turn_id: Some("turn-1".into()),
        previous_turn_id: None,
        body: "hello".into(),
        delivery: UserMessageDelivery::Sent,
    }
}

#[test]
fn streaming_markdown_is_a_strict_source_append() {
    let mut before = TranscriptSnapshot::new();
    before.push_block(user_block());
    before.push_markdown("A partial reply");

    let mut after = TranscriptSnapshot::new();
    after.push_block(user_block());
    after.push_markdown("A partial reply with another chunk");

    assert_eq!(after.markdown.strip_prefix(&before.markdown), Some(" with another chunk"));
}

#[test]
fn dynamic_block_state_does_not_change_the_source_marker() {
    let mut before = TranscriptSnapshot::new();
    before.push_block(HistoryBlock::AssistantHeader {
        key: "assistant-1".into(),
        label: "Codex is working".into(),
    });

    let mut after = TranscriptSnapshot::new();
    after.push_block(HistoryBlock::AssistantHeader { key: "assistant-1".into(), label: "Codex".into() });

    assert_eq!(after.markdown, before.markdown);
}

#[test]
fn parses_only_the_transcript_tag_and_quoted_id() {
    assert_eq!(
        html_tag_name(r#" <CodexTranscriptBlock id="block-1" /> "#),
        Some(BLOCK_TAG.to_string())
    );
    assert_eq!(
        html_attr(r#"<CodexTranscriptBlock id="block-1" />"#, "id"),
        Some("block-1".into())
    );
    assert_eq!(html_tag_name("<OtherBlock />"), Some("OtherBlock".to_string()));
    assert_eq!(html_attr("<CodexTranscriptBlock />", "id"), None);
}

#[test]
fn block_ids_are_sixteen_hex_digits_of_kind_and_key() {
    let id = BlockId::new("user", "user-1").as_string();
    assert!(id.starts_with("block-"));
    assert_eq!(id.len(), "block-".len() + 16);
    assert!(id["block-".len()..].chars().all(|c| c.is_ascii_hexdigit() && !c.is_ascii_uppercase()));
    assert_eq!(BlockId::new("user", "user-1"), BlockId::new("user", "user-1"));
    assert_ne!(BlockId::new("user", "user-1"), BlockId::new("user", "user-2"));
    assert_ne!(BlockId::new("user", "user-1"), BlockId::new("plan", "user-1"));
    assert_eq!(BlockId::tool_group("k"), BlockId::new("tools", "k"));
    assert_eq!(BlockId::from_marker("block-1".into()).as_string(), "block-1");
}

#[test]
fn a_block_pushed_again_replaces_the_kept_block() {
    let mut t = TranscriptSnapshot::new();
    t.push_block(HistoryBlock::Plan { key: "p".into(), body: "one".into(), running: true });
    t.push_markdown("");
    t.push_block(HistoryBlock::Plan { key: "p".into(), body: "two".into(), running: false });
    assert_eq!(t.blocks.len(), 1);
    assert_eq!(t.blocks[0].1, HistoryBlock::Plan { key: "p".into(), body: "two".into(), running: false });
    let id = BlockId::new("plan", "p").as_string();
    let marker = format!("<{BLOCK_TAG} id=\"{id}\" />");
    assert_eq!(t.markdown, format!("{marker}\n\n{marker}"));
}

#[test]
fn a_pushed_block_reads_back_from_its_marker() {
    let mut transcript = TranscriptSnapshot::new();
    transcript.push_block(user_block());
    let id = user_block().id();
    assert_eq!(transcript.marker_block(&transcript.markdown), Some(id.clone()));
    assert_eq!(transcript.marker_block(&format!("  {}\n", transcript.markdown)), Some(id));
    assert_eq!(transcript.marker_block(r#"<CodexTranscriptBlock id="block-0000000000000000" />"#), None);
    assert_eq!(transcript.marker_block(r#"<OtherBlock id="block-1" />"#), None);
    assert_eq!(transcript.marker_block("<CodexTranscriptBlock />"), None);
}

#[test]
fn a_flying_message_shows_as_sending() {
    assert_eq!(UserMessageDelivery::Sent.shown(true), UserMessageDelivery::Sending);
    assert_eq!(UserMessageDelivery::Failed.shown(false), UserMessageDelivery::Failed);
    assert_eq!(UserMessageDelivery::Sending.label(), Some("Sending\u{2026}"));
    assert_eq!(UserMessageDelivery::Failed.label(), Some("Not sent"));
    assert_eq!(UserMessageDelivery::Sent.label(), None);
}
