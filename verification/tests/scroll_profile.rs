use codex_gui::scroll_profile::{
    html_attr, parse_positive, prepared_markdown, profile_block, transcript_turn, usage, Options,
    Scenario,
};

fn count_matches(haystack: &str, needle: &str) -> usize {
    haystack.matches(needle).count()
}

#[test]
fn prepared_scenarios_have_the_expected_block_shape() {
    let many_blocks = prepared_markdown(Scenario::ManyBlocks);
    assert!(count_matches(&many_blocks, "## Independent block") >= 800);

    let long_list = prepared_markdown(Scenario::LongList);
    assert!(long_list.lines().filter(|line| line.starts_with("- ")).count() >= 600);

    let long_code = prepared_markdown(Scenario::LongCode);
    assert_eq!(count_matches(&long_code, "```rust"), 1);
    assert_eq!(count_matches(&long_code, "\n```\n"), 1);

    let transcript = prepared_markdown(Scenario::Transcript);
    assert_eq!(count_matches(&transcript, r#"kind="user""#), 80);
    assert_eq!(count_matches(&transcript, r#"kind="tools""#), 80);
}

#[test]
fn scenario_names_round_trip() {
    for scenario in [
        Scenario::Short,
        Scenario::ManyBlocks,
        Scenario::LongList,
        Scenario::LongCode,
        Scenario::Mixed,
        Scenario::Transcript,
        Scenario::TranscriptStreaming,
    ] {
        assert_eq!(Scenario::parse(scenario.name()), Some(scenario));
    }
    assert_eq!(Scenario::parse("unknown"), None);
}

#[test]
fn transcript_turn_carries_its_number_in_every_block() {
    let turn = transcript_turn(7);
    assert!(turn.starts_with("<CodexProfileBlock kind=\"user\" turn=\"7\" />\n\n"));
    assert_eq!(turn.matches("turn=\"7\"").count(), 3);
    assert!(turn.contains("for turn **7**."));
    assert!(turn.ends_with("adjacent to the custom blocks.\n\n"));
    assert_eq!(html_attr(&turn, "kind"), Some("user".to_string()));
    assert_eq!(html_attr(&turn, "turn"), Some("7".to_string()));
}

#[test]
fn short_and_mixed_documents() {
    assert_eq!(
        prepared_markdown(Scenario::Short),
        "# Short document\n\nA small **Markdown** paragraph.\n\n- one\n- two\n"
    );
    let mixed = prepared_markdown(Scenario::Mixed);
    assert_eq!(mixed.matches("# Turn ").count(), 60);
    assert!(mixed.contains("    let line_5 = 59 + 5;\n"));
    assert!(mixed.contains("- Turn 3, item 7: a moderately long list row"));
}

#[test]
fn options_read_flags_in_order() {
    let args = |items: &[&str]| items.iter().map(|s| s.to_string()).collect::<Vec<_>>();
    let options = Options::parse(&args(&[])).unwrap();
    assert_eq!(options, Options::default());
    assert_eq!(options.scenario, Scenario::Mixed);
    assert_eq!(options.seconds, 15);
    assert_eq!(options.interval_ms, 16);

    let options = Options::parse(&args(&[
        "--scenario",
        "long-code",
        "--seconds",
        "3",
        "--interval-ms",
        "+4",
        "--not-selectable",
    ]))
    .unwrap();
    assert_eq!(options.scenario, Scenario::LongCode);
    assert_eq!(options.seconds, 3);
    assert_eq!(options.interval_ms, 4);
    assert!(!options.selectable);

    assert_eq!(
        Options::parse(&args(&["--scenario"])),
        Err("--scenario requires a value".to_string())
    );
    assert_eq!(
        Options::parse(&args(&["--scenario", "tall"])),
        Err("unknown scenario \"tall\"; expected short, many-blocks, long-list, long-code, mixed, transcript, or transcript-streaming".to_string())
    );
    assert_eq!(Options::parse(&args(&["-h"])), Err(usage().to_string()));
    assert_eq!(
        Options::parse(&args(&["--fast"])),
        Err(format!("unknown argument \"--fast\"\n\n{}", usage()))
    );
}

#[test]
fn positive_numbers_are_checked() {
    assert_eq!(parse_positive(&Some("12".to_string()), "--seconds"), Ok(12));
    assert_eq!(
        parse_positive(&None, "--seconds"),
        Err("--seconds requires a positive integer".to_string())
    );
    assert_eq!(
        parse_positive(&Some("0".to_string()), "--seconds"),
        Err("--seconds must be greater than zero".to_string())
    );
    assert_eq!(
        parse_positive(&Some("1x".to_string()), "--seconds"),
        Err("invalid value for --seconds: \"1x\"".to_string())
    );
    assert_eq!(
        parse_positive(&Some("18446744073709551616".to_string()), "--seconds"),
        Err("invalid value for --seconds: \"18446744073709551616\"".to_string())
    );
    assert_eq!(
        parse_positive(&Some("18446744073709551615".to_string()), "--seconds"),
        Ok(u64::MAX)
    );
}

#[test]
fn profile_blocks_read_their_kind_and_turn() {
    let block = profile_block("  <CodexProfileBlock kind=\"tools\" turn=\"7\" />\n").expect("a block");
    assert_eq!(block.kind, "tools");
    assert_eq!(block.turn, 7);
    let block = profile_block("<CodexProfileBlock turn=\"+12\" kind=\"user\" />").expect("a block");
    assert_eq!((block.kind.as_str(), block.turn), ("user", 12));
    assert!(profile_block("<CodexProfileBlock kind=\"user\" turn=\"x\" />").is_none());
    assert!(profile_block("<CodexProfileBlock kind=\"user\" />").is_none());
    assert!(profile_block("<CodexProfileBlockX kind=\"user\" turn=\"1\" />").is_none());
    assert!(profile_block("<CodexTranscriptBlock id=\"block-1\" />").is_none());
}
