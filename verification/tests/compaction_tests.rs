use hivecore::compaction::config::CompactionConfig;
use hivecore::compaction::marker::{CompactionMarker, CompactionTrigger};
use hivecore::compaction::plan::{
    collect_summary, emergency_drop, extract_file_refs, file_ref_of, finish_compaction, head_counts, pick_cut,
    plan_compaction, serialize_head, trigger_for,
};
use hivecore::compaction::token::estimate_tokens;
use hivecore::compaction::transform::{latest_marker, marker_payload, transform_outgoing, transform_outgoing_with};
use hivecore::message::{
    AgentMessage, ContentBlock, MessageId, ModelChunk, RuntimeError, StopReason, TokenUsage, ToolCallId,
};

fn user(id: &str, t: &str) -> AgentMessage {
    AgentMessage::User { id: MessageId(id.into()), content: vec![ContentBlock::Text { text: t.into() }] }
}

fn asst(id: &str, blocks: Vec<ContentBlock>) -> AgentMessage {
    AgentMessage::Assistant { id: MessageId(id.into()), content: blocks, stop_reason: Some(StopReason::EndTurn) }
}

fn text(t: &str) -> ContentBlock {
    ContentBlock::Text { text: t.into() }
}

fn call(name: &str, input: &str) -> ContentBlock {
    ContentBlock::ToolUse { id: ToolCallId("c".into()), name: name.into(), input: input.into() }
}

fn result(id: &str, t: &str, err: bool) -> AgentMessage {
    AgentMessage::ToolResult {
        id: MessageId(id.into()),
        tool_call_id: ToolCallId("c".into()),
        content: vec![text(t)],
        is_error: err,
    }
}

fn marker(id: &str, visible: bool) -> AgentMessage {
    AgentMessage::Custom {
        id: MessageId(id.into()),
        kind: "compaction_marker".into(),
        payload: "{}".into(),
        visible_to_model: visible,
    }
}

fn ids(v: &[AgentMessage]) -> Vec<String> {
    v.iter().map(|m| m.id().0.clone()).collect()
}

#[test]
fn estimate_counts_bytes_and_fixed_costs() {
    let msgs = vec![
        user("u1", "abcdefgh"),
        asst("a1", vec![text("ab"), call("read_file", "{}")]),
        AgentMessage::ToolResult {
            id: MessageId("t1".into()),
            tool_call_id: ToolCallId("c".into()),
            content: vec![ContentBlock::Image { media_type: "image/png".into(), data: "xx".into() }],
            is_error: false,
        },
        marker("m", false),
    ];
    // chars: 8 + 2 + 9 + 2 = 21 -> 5; structural: 32 + 32
    assert_eq!(estimate_tokens(&msgs), 5 + 32 + 32);
    let msgs = vec![
        AgentMessage::User {
            id: MessageId("u".into()),
            content: vec![text("abcdefgh"), ContentBlock::Image { media_type: "image/png".into(), data: "z".into() }],
        },
        asst("a", vec![call("grep", "{}")]),
    ];
    assert_eq!(estimate_tokens(&msgs), (8 + 4 + 2) / 4 + 32 + 32);
}

#[test]
fn effective_window_saturates() {
    let c = CompactionConfig::with_thresholds(10, 20);
    assert_eq!(c.effective_window(), 128_000 - 16_384);
    let mut d = c;
    d.reserve_tokens = 200_000;
    assert_eq!(d.effective_window(), 0);
}

#[test]
fn trigger_follows_thresholds() {
    let c = CompactionConfig::with_thresholds(100, 200);
    assert_eq!(trigger_for(99, &c), None);
    assert_eq!(trigger_for(100, &c), Some(CompactionTrigger::AutoThreshold));
    assert_eq!(trigger_for(200, &c), Some(CompactionTrigger::Emergency));
}

fn convo() -> Vec<AgentMessage> {
    vec![
        user("u1", "task"),
        asst("a1", vec![text("on it"), call("read_file", "{\"path\":\"src/lib.rs\"}")]),
        result("t1", "contents", false),
        user("u2", "more"),
        asst("a2", vec![call("edit_file", "{\"path\":\"a.rs\"}"), call("bash", "{\"command\":\"ls\"}")]),
        result("t2", "oops", true),
        user("u3", "last"),
        asst("a3", vec![text("done")]),
    ]
}

#[test]
fn pick_cut_keeps_recent_turns() {
    let m = convo();
    let c = pick_cut(&m, 2, 2).unwrap();
    assert_eq!(c.head_count, 6);
    assert_eq!(c.covers_up_to.0, "t2");
    assert_eq!(c.kept_tail_start.0, "u3");
    assert!(pick_cut(&m, 10, 2).is_none());
    assert!(pick_cut(&m, 2, 8).is_none());
    assert!(pick_cut(&m, 6, 2).is_none());
}

#[test]
fn serialize_head_writes_turns_calls_and_results() {
    let m = convo();
    let s = serialize_head(&m, 6, 3);
    assert_eq!(
        s,
        "USER: task\nASSISTANT: on it\nTOOL_CALL read_file {\"path\":\"src/lib.rs\"}\nTOOL_RESULT: con…[truncated]\nUSER: more\nTOOL_CALL edit_file {\"path\":\"a.rs\"}\nTOOL_CALL bash {\"command\":\"ls\"}\nTOOL_ERROR: oop…[truncated]\n"
    );
    let long = format!("{}é{}", "a".repeat(3999), "b");
    let s = serialize_head(&vec![result("t", &long, false)], 1, 4000);
    assert_eq!(s, format!("TOOL_RESULT: {}é…[truncated]\n", "a".repeat(3999)));
}

#[test]
fn file_refs_and_counts() {
    let m = convo();
    let refs = extract_file_refs(&m, 6);
    assert_eq!(refs.len(), 2);
    assert_eq!((refs[0].path.as_str(), refs[0].op.as_str()), ("src/lib.rs", "read"));
    assert_eq!((refs[1].path.as_str(), refs[1].op.as_str()), ("a.rs", "edit"));
    assert_eq!(head_counts(&m, 6), (3, 4));
}

#[test]
fn plan_and_finish() {
    let m = convo();
    let mut cfg = CompactionConfig::with_thresholds(1, 1_000_000);
    cfg.recent_turns_to_keep = 2;
    let p = plan_compaction(&m, &cfg).unwrap();
    assert_eq!(p.trigger, CompactionTrigger::AutoThreshold);
    assert_eq!(p.cut.head_count, 6);
    assert!(p.head_text.starts_with("USER: task\n"));
    let cfg_high = CompactionConfig::with_thresholds(1_000_000, 2_000_000);
    assert!(plan_compaction(&m, &cfg_high).is_none());
    let mk = finish_compaction(&m, p, "summary".into(), "2024-01-01T00:00:00+00:00".into()).unwrap();
    assert_eq!(mk.covers_up_to.0, "t2");
    assert_eq!(mk.tool_calls_summarized, 3);
    assert_eq!(mk.original_turn_count, 4);
    assert_eq!(mk.file_refs.len(), 2);
    let p2 = plan_compaction(&m, &cfg).unwrap();
    match finish_compaction(&m, p2, " \n\t".into(), "t".into()) {
        Err(RuntimeError::Other(e)) => assert_eq!(e, "summarizer returned empty body"),
        _ => panic!("expected empty-body error"),
    }
}

#[test]
fn emergency_level_drops_instead_of_summarising() {
    let m = convo();
    let mut cfg = CompactionConfig::with_thresholds(1, 2);
    cfg.recent_turns_to_keep = 2;
    assert!(plan_compaction(&m, &cfg).is_none());
    let dropped = emergency_drop(m.clone(), 2);
    let first_non_user = m.iter().position(|x| !matches!(x, AgentMessage::User { .. })).unwrap();
    let mut expected = ids(&m);
    expected.remove(first_non_user);
    assert_eq!(ids(&dropped), expected);
    assert_eq!(ids(&emergency_drop(m.clone(), u32::MAX)), ids(&m));
    let only_users = vec![user("u1", "a"), user("u2", "b")];
    assert_eq!(ids(&emergency_drop(only_users, 0)), vec!["u1", "u2"]);
}

#[test]
fn summary_stops_at_message_end() {
    let chunks = vec![
        ModelChunk::MessageStart { id: MessageId("s".into()) },
        ModelChunk::ContentDelta { id: MessageId("s".into()), delta: text("Sum") },
        ModelChunk::ContentDelta { id: MessageId("s".into()), delta: ContentBlock::Thinking { text: "x".into() } },
        ModelChunk::ContentDelta { id: MessageId("s".into()), delta: text("mary") },
        ModelChunk::MessageEnd { id: MessageId("s".into()), stop_reason: StopReason::EndTurn, usage: TokenUsage::default() },
        ModelChunk::ContentDelta { id: MessageId("s".into()), delta: text("late") },
    ];
    assert_eq!(collect_summary(&chunks), "Summary");
}

#[test]
fn transform_without_marker_drops_hidden_entries() {
    let m = vec![user("u1", "a"), marker("k", false), asst("a1", vec![text("b")])];
    let sums = vec![None, None, None];
    assert_eq!(latest_marker(&m, &sums), None);
    let out = transform_outgoing(&m, &sums, "PREFIX");
    assert_eq!(ids(&out), vec!["u1", "a1"]);
}

#[test]
fn transform_uses_latest_marker() {
    let m = vec![
        user("u1", "task"),
        asst("a1", vec![text("x")]),
        marker("k1", false),
        user("u2", "again"),
        asst("a2", vec![text("y")]),
        marker("k2", false),
        result("t3", "z", false),
        marker("hidden", true),
    ];
    let sums = vec![None, None, Some("old".to_string()), None, None, Some("new".to_string()), None, None];
    assert_eq!(latest_marker(&m, &sums), Some(5));
    assert!(marker_payload(&m[2]).is_some());
    assert!(marker_payload(&m[7]).is_none());
    let out = transform_outgoing_with(&m, &sums, "PREFIX", MessageId("sum".into()));
    assert_eq!(ids(&out), vec!["u1", "u2", "sum", "t3", "hidden"]);
    match &out[2] {
        AgentMessage::Assistant { content, stop_reason, .. } => {
            assert!(stop_reason.is_none());
            assert!(matches!(&content[0], ContentBlock::Text { text } if text == "PREFIX\n\nnew"));
        }
        _ => panic!("expected the summary message"),
    }
    let out2 = transform_outgoing(&m, &sums, "P");
    assert!(out2[2].id().0.starts_with("compact-summary-"));
}

#[test]
fn marker_message_shape() {
    let msg = CompactionMarker::to_message("{\"summary_text\":\"s\"}".into());
    match &msg {
        AgentMessage::Custom { id, kind, payload, visible_to_model } => {
            assert!(id.0.starts_with("compact-"));
            assert_eq!(kind, "compaction_marker");
            assert_eq!(payload, "{\"summary_text\":\"s\"}");
            assert!(!visible_to_model);
        }
        _ => panic!("expected a custom entry"),
    }
    assert_eq!(CompactionTrigger::AutoThreshold.wire_name(), "auto_threshold");
}

#[test]
fn file_ref_of_needs_a_file_tool_and_a_path() {
    let r = file_ref_of("edit_file", Some("src/a.rs".into())).unwrap();
    assert_eq!((r.path.as_str(), r.op.as_str()), ("src/a.rs", "edit"));
    assert_eq!(file_ref_of("read_file", Some("b".into())).unwrap().op, "read");
    assert!(file_ref_of("write_file", None).is_none());
    assert!(file_ref_of("bash", Some("x".into())).is_none());
}
