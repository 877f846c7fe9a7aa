use hivecore::acp::approval::{
    approval_decision, decode_option, permission_target, AcpPermissionDecision, ApprovalAction, ApprovalDecision,
};
use hivecore::acp::bridge::{acp_stop_reason, extract_text, route_event, Notification};
use hivecore::acp::config::ServerConfig;
use hivecore::coder::budget::TurnBudgetHook;
use hivecore::coder::clock::ClockTool;
use hivecore::coder::progress::StderrSink;
use hivecore::coder::prompter::CliPrompter;
use hivecore::agent::hooks::LifecycleOutcome;
use hivecore::events::AgentEvent;
use hivecore::message::{ContentBlock, MessageId, StopReason, ToolCallId};

#[test]
fn allow_once_maps_to_approved() {
    assert!(matches!(approval_decision(AcpPermissionDecision::AllowOnce), ApprovalDecision::Approved));
}

#[test]
fn allow_always_maps_to_approved_for_session() {
    assert!(matches!(
        approval_decision(AcpPermissionDecision::AllowAlways),
        ApprovalDecision::ApprovedForSession
    ));
}

#[test]
fn reject_once_maps_to_denied() {
    assert!(matches!(approval_decision(AcpPermissionDecision::RejectOnce), ApprovalDecision::Denied));
}

#[test]
fn reject_always_maps_to_denied_v0_1() {
    assert!(matches!(approval_decision(AcpPermissionDecision::RejectAlways), ApprovalDecision::Denied));
}

#[test]
fn cancelled_maps_to_cancelled() {
    assert!(matches!(approval_decision(AcpPermissionDecision::Cancelled), ApprovalDecision::Cancelled));
}

#[test]
fn mcp_action_uses_qualified_name() {
    let action = ApprovalAction::Mcp { server: "git".into(), tool_name: "git_status".into(), input_preview: "{}".into() };
    let t = permission_target(&action);
    assert_eq!(t.tool_name, "mcp__git__git_status");
    assert_eq!(t.tool_call_id, "mcp:git/git_status");
}

#[test]
fn tool_and_patch_targets() {
    let t = permission_target(&ApprovalAction::Tool {
        tool_name: "bash".into(),
        invocation_id: ToolCallId("c1".into()),
        input_preview: "{\"command\":\"ls\"}".into(),
    });
    assert_eq!((t.tool_call_id.as_str(), t.tool_name.as_str(), t.raw_input.as_str()), ("c1", "bash", "{\"command\":\"ls\"}"));
    let p = permission_target(&ApprovalAction::ApplyPatch {
        root: "/ws".into(),
        files: vec!["a.rs".into(), "b \"q\".rs".into()],
        changes: "[1,2]".into(),
    });
    assert_eq!(p.tool_call_id, "apply_patch:/ws");
    assert_eq!(p.tool_name, "apply_patch");
    assert_eq!(p.raw_input, "{\"changes\":[1,2],\"files\":[\"a.rs\",\"b \\\"q\\\".rs\"],\"root\":\"/ws\"}");
}

#[test]
fn option_ids_decode() {
    assert_eq!(decode_option("allow_once"), AcpPermissionDecision::AllowOnce);
    assert_eq!(decode_option("allow_session"), AcpPermissionDecision::AllowAlways);
    assert_eq!(decode_option("reject_once"), AcpPermissionDecision::RejectOnce);
    assert_eq!(decode_option("reject_always"), AcpPermissionDecision::RejectAlways);
    assert_eq!(decode_option("mystery"), AcpPermissionDecision::RejectOnce);
}

#[test]
fn stop_reasons_in_acp_words() {
    assert_eq!(acp_stop_reason(StopReason::EndTurn), "end_turn");
    assert_eq!(acp_stop_reason(StopReason::ToolUse), "end_turn");
    assert_eq!(acp_stop_reason(StopReason::StopSequence), "end_turn");
    assert_eq!(acp_stop_reason(StopReason::MaxTokens), "max_tokens");
    assert_eq!(acp_stop_reason(StopReason::Refusal), "refusal");
    assert_eq!(acp_stop_reason(StopReason::Error), "refusal");
}

#[test]
fn events_route_to_notifications() {
    let e = AgentEvent::MessageDelta { message_id: MessageId("m".into()), delta: ContentBlock::Text { text: "hi".into() } };
    assert!(matches!(route_event(e), Some(Notification::TextChunk { text }) if text == "hi"));
    let e = AgentEvent::ToolExecEnd { tool_call_id: ToolCallId("t".into()), is_error: true, result: "null".into() };
    assert!(matches!(route_event(e), Some(Notification::ToolCallUpdate { tool_call_id, is_error: true, .. }) if tool_call_id == "t"));
    assert!(route_event(AgentEvent::MessageEnd { message_id: MessageId("m".into()) }).is_none());
}

#[test]
fn prompt_text_joins_text_blocks() {
    assert_eq!(extract_text(&vec![Some("a".into()), None, Some("b".into())]), "a\nb");
    assert_eq!(extract_text(&vec![Some("".into()), Some("b".into())]), "b");
}

#[test]
fn server_config_defaults() {
    assert!(matches!(ServerConfig::from_values(None, None, "/cwd".into(), None, None, None), Err(m) if m == "OPENAI_API_KEY not set"));
    let c = ServerConfig::from_values(Some("k".into()), None, "/cwd".into(), None, None, None).unwrap();
    assert_eq!((c.workspace.as_str(), c.default_agent.as_str()), ("/cwd", "default"));
}

#[test]
fn budget_aborts_past_limit() {
    let mut h = TurnBudgetHook::new(1);
    assert!(matches!(h.on_event(false), LifecycleOutcome::Pass));
    assert!(matches!(h.on_event(true), LifecycleOutcome::Pass));
    match h.on_event(true) {
        LifecycleOutcome::FailedAbort { reason } => assert_eq!(reason, "turn-budget exceeded (2 > 1)"),
        _ => panic!("expected abort"),
    }
}

#[test]
fn cli_prompter_decisions() {
    let p = CliPrompter;
    assert_eq!(p.answer(Some("  a\n"), false), ApprovalDecision::Approved);
    assert_eq!(p.answer(Some("Y"), false), ApprovalDecision::Approved);
    assert_eq!(p.answer(Some("s"), false), ApprovalDecision::ApprovedForSession);
    assert_eq!(p.answer(Some("\n"), false), ApprovalDecision::Denied);
    assert_eq!(p.answer(Some("q"), false), ApprovalDecision::Abort);
    assert_eq!(p.answer(Some("a"), true), ApprovalDecision::Denied);
    assert_eq!(p.answer(Some("y"), true), ApprovalDecision::Approved);
    assert_eq!(p.answer(Some("Y"), true), ApprovalDecision::Denied);
    assert_eq!(p.answer(None, false), ApprovalDecision::Abort);
    let action = ApprovalAction::ApplyPatch { root: "/ws".into(), files: vec!["a".into()], changes: "{}".into() };
    assert_eq!(
        p.render(&action, None, false),
        "\n── approval required ──\nreason: (no reason given)\napply_patch under /ws (1 file)\n[a]llow once  [s]ession allow  [d]eny  [q]uit\n> "
    );
}

#[test]
fn stderr_lines() {
    let s = StderrSink;
    assert_eq!(
        s.line(&AgentEvent::TurnEnd { turn_id: "t1".into(), at: "now".into(), stop_reason: StopReason::MaxTokens }).unwrap(),
        "[stop ] turn=t1 reason=MaxTokens"
    );
    assert_eq!(
        s.line(&AgentEvent::ToolExecEnd { tool_call_id: ToolCallId("x".into()), is_error: false, result: "null".into() }).unwrap(),
        "[done ] ok  "
    );
    assert!(s.line(&AgentEvent::MessageEnd { message_id: MessageId("m".into()) }).is_none());
}

#[test]
fn clock_reports_time() {
    let o = ClockTool::outcome("2024-01-01T00:00:00+00:00".into());
    assert!(matches!(&o.content[0], ContentBlock::Text { text } if text == "2024-01-01T00:00:00+00:00"));
    let live = ClockTool.execute();
    assert!(matches!(&live.content[0], ContentBlock::Text { text } if text.contains('T')));
    assert!(live.details.is_none() && !live.is_error);
}

#[test]
fn clock_text_is_rfc3339_utc() {
    let live = ClockTool.execute();
    let ContentBlock::Text { text } = &live.content[0] else { panic!("expected text") };
    let b = text.as_bytes();
    assert!(b.len() >= 25);
    assert!(text.ends_with("+00:00"));
    assert!(b[..4].iter().all(|c| c.is_ascii_digit()));
    assert_eq!((b[4], b[7], b[10], b[13], b[16]), (b'-', b'-', b'T', b':', b':'));
    let frac = &text[19..text.len() - 6];
    assert!(frac.is_empty() || ([4, 7, 10].contains(&frac.len()) && frac.starts_with('.')));
}

#[test]
fn patch_target_escapes_control_characters() {
    let p = permission_target(&ApprovalAction::ApplyPatch {
        root: "/w\\s".into(),
        files: vec!["a\nb\t\u{1}\u{1f}.rs".into()],
        changes: "[]".into(),
    });
    assert_eq!(p.raw_input, "{\"changes\":[],\"files\":[\"a\\nb\\t\\u0001\\u001f.rs\"],\"root\":\"/w\\\\s\"}");
}
