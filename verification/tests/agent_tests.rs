use hivecore::agent::accumulator::DefaultConsumer;
use hivecore::agent::control::{
    user_text, AfterTurn, LoopSettings, NoopSteering, RunControl, TurnGate, DEFAULT_MAX_ITERATIONS,
};
use hivecore::agent::dispatch::{
    exec_end_result, failed_tool_outcome, mode_or_sequential, partition_calls, tool_result_message,
    unknown_tool_outcome, CallResult, ResultSlots, ToolExecutionMode,
};
use hivecore::agent::error::{BuilderError, LoopError};
use hivecore::agent::hooks::{
    fire_lifecycle, fire_lifecycle_compact, process_decision, run_post_hooks, run_pre_hooks, CompactGate,
    HookDecision, HookOutcome, LifecycleOutcome, PostHookOutcome, PreStep,
};
use hivecore::agent::log::MessageLog;
use hivecore::agent::registry::ToolRegistry;
use hivecore::agent::run::{AgentRun, RunPhase};
use hivecore::agent::spawn::{args_error, child_failure, describe, final_reply, find_persona, spawn_outcome};
use hivecore::agent::control::RunOutcome;
use hivecore::message::{
    AgentMessage, ContentBlock, MessageId, ModelChunk, RuntimeError, StopReason, TokenUsage, ToolCallId,
    ToolOutcome,
};

fn mid(s: &str) -> MessageId {
    MessageId(s.into())
}

fn first_text(o: &ToolOutcome) -> String {
    match &o.content[0] {
        ContentBlock::Text { text } => text.clone(),
        _ => panic!("expected text"),
    }
}

#[test]
fn assembles_text_only_turn() {
    let mut c = DefaultConsumer::new();
    c.push(&ModelChunk::MessageStart { id: mid("m") });
    c.push(&ModelChunk::ContentDelta { id: mid("m"), delta: ContentBlock::Text { text: "hi".into() } });
    c.push(&ModelChunk::MessageEnd { id: mid("m"), stop_reason: StopReason::EndTurn, usage: TokenUsage::default() });
    let out = c.finish();
    assert_eq!(out.stop_reason, StopReason::EndTurn);
    assert!(out.tool_calls.is_empty());
    match out.message {
        AgentMessage::Assistant { id, content, .. } => {
            assert_eq!(id.0, "m");
            assert_eq!(content.len(), 1);
            assert!(matches!(content[0], ContentBlock::Text { .. }));
        }
        _ => panic!("expected assistant"),
    }
}

#[test]
fn assembles_tool_calls_in_order() {
    let mut c = DefaultConsumer::new();
    c.push(&ModelChunk::ContentDelta { id: mid("m"), delta: ContentBlock::Thinking { text: "think".into() } });
    c.push(&ModelChunk::ContentDelta { id: mid("m"), delta: ContentBlock::Text { text: "a".into() } });
    c.push(&ModelChunk::ContentDelta {
        id: mid("m"),
        delta: ContentBlock::ToolUse { id: ToolCallId("t1".into()), name: "grep".into(), input: "{\"pattern\":\"foo\"}".into() },
    });
    c.push(&ModelChunk::ContentDelta { id: mid("m"), delta: ContentBlock::Text { text: "b".into() } });
    c.push(&ModelChunk::ContentDelta {
        id: mid("m"),
        delta: ContentBlock::ToolUse { id: ToolCallId("t2".into()), name: "read_file".into(), input: "{}".into() },
    });
    c.push(&ModelChunk::MessageEnd {
        id: mid("m"),
        stop_reason: StopReason::ToolUse,
        usage: TokenUsage { input: 3, output: 4 },
    });
    let out = c.finish();
    assert_eq!(out.stop_reason, StopReason::ToolUse);
    assert_eq!(out.usage, TokenUsage { input: 3, output: 4 });
    assert_eq!(out.tool_calls.len(), 2);
    assert_eq!(out.tool_calls[0].name, "grep");
    assert_eq!(out.tool_calls[1].id.0, "t2");
    match out.message {
        AgentMessage::Assistant { id, content, stop_reason } => {
            assert_eq!(id.0, "synthetic");
            assert_eq!(stop_reason, Some(StopReason::ToolUse));
            assert_eq!(content.len(), 4);
            assert!(matches!(&content[0], ContentBlock::Thinking { text } if text == "think"));
            assert!(matches!(&content[1], ContentBlock::Text { text } if text == "ab"));
            assert!(matches!(&content[2], ContentBlock::ToolUse { name, .. } if name == "grep"));
            assert!(matches!(&content[3], ContentBlock::ToolUse { name, .. } if name == "read_file"));
        }
        _ => panic!("expected assistant"),
    }
}

#[test]
fn extracts_tool_calls() {
    let mut c = DefaultConsumer::new();
    c.push(&ModelChunk::MessageStart { id: mid("m") });
    c.push(&ModelChunk::ContentDelta {
        id: mid("m"),
        delta: ContentBlock::ToolUse { id: ToolCallId("t1".into()), name: "grep".into(), input: "{\"q\":\"foo\"}".into() },
    });
    c.push(&ModelChunk::MessageEnd { id: mid("m"), stop_reason: StopReason::ToolUse, usage: TokenUsage { input: 5, output: 1 } });
    let out = c.finish();
    assert_eq!(out.stop_reason, StopReason::ToolUse);
    assert_eq!(out.tool_calls.len(), 1);
    assert_eq!(out.tool_calls[0].name, "grep");
    assert_eq!(out.usage.output, 1);
}

#[test]
fn pre_hooks_first_non_pass_wins() {
    let d = run_pre_hooks(vec![
        HookOutcome::Pass,
        HookOutcome::FailedContinue { reason: "first".into() },
        HookOutcome::FailedAbort { reason: "second".into() },
    ]);
    assert!(matches!(d, HookDecision::FailedContinue(r) if r == "first"));
    assert!(matches!(run_pre_hooks(vec![HookOutcome::Pass, HookOutcome::Pass]), HookDecision::Pass));
}

#[test]
fn post_hooks_last_replacement_wins() {
    let base = ToolOutcome::ok(vec![]);
    let r1 = ToolOutcome::error("one".into());
    let r2 = ToolOutcome::error("two".into());
    let (o, t) = run_post_hooks(base, vec![PostHookOutcome::ReplaceAndTerminate(r1), PostHookOutcome::Replace(r2), PostHookOutcome::Pass]);
    assert_eq!(first_text(&o), "two");
    assert!(!t);
    let (o, t) = run_post_hooks(
        ToolOutcome::ok(vec![]),
        vec![PostHookOutcome::Replace(ToolOutcome::error("x".into())), PostHookOutcome::ReplaceAndTerminate(ToolOutcome::error("y".into()))],
    );
    assert_eq!(first_text(&o), "y");
    assert!(t);
    let (o, t) = run_post_hooks(ToolOutcome::ok(vec![]), vec![PostHookOutcome::Pass]);
    assert!(o.content.is_empty() && !o.is_error && !t);
}

#[test]
fn lifecycle_outcomes() {
    assert!(fire_lifecycle(vec![LifecycleOutcome::Pass, LifecycleOutcome::FailedContinue { reason: "n".into() }]).is_ok());
    assert!(fire_lifecycle(vec![
        LifecycleOutcome::FailedContinue { reason: "w".into() },
        LifecycleOutcome::FailedAbort { reason: "r".into() },
    ])
    .is_ok());
    assert!(matches!(
        fire_lifecycle(vec![LifecycleOutcome::FailedAbort { reason: "budget exceeded".into() }, LifecycleOutcome::ManualAttention { reason: "m".into() }]),
        Err(LoopError::HookAborted(r)) if r == "budget exceeded"
    ));
    assert!(matches!(fire_lifecycle_compact(vec![LifecycleOutcome::Pass]), Ok(CompactGate::Proceed)));
    assert!(matches!(
        fire_lifecycle_compact(vec![LifecycleOutcome::FailedContinue { reason: "no".into() }, LifecycleOutcome::FailedAbort { reason: "x".into() }]),
        Ok(CompactGate::Skip)
    ));
    assert!(matches!(
        fire_lifecycle_compact(vec![LifecycleOutcome::ManualAttention { reason: "look".into() }]),
        Err(LoopError::ManualAttention(r)) if r == "look"
    ));
}

#[test]
fn pre_decision_steps() {
    assert!(matches!(process_decision(HookDecision::Pass), PreStep::Execute));
    match process_decision(HookDecision::FailedContinue("blocked".into())) {
        PreStep::Done(o) => {
            assert!(o.is_error);
            assert_eq!(first_text(&o), "blocked");
        }
        _ => panic!("expected an outcome"),
    }
    assert!(matches!(process_decision(HookDecision::FailedAbort("a".into())), PreStep::Fail(LoopError::HookAborted(_))));
}

#[test]
fn run_control_caps_iterations() {
    let mut c = RunControl::new(2, 0);
    assert!(matches!(c.begin_turn(false), Ok(TurnGate::Proceed)));
    assert_eq!(c.after_turn(StopReason::ToolUse, true), AfterTurn::DispatchTools);
    assert!(!c.after_dispatch(false));
    assert!(matches!(c.begin_turn(false), Ok(TurnGate::Proceed)));
    assert!(matches!(c.begin_turn(false), Err(LoopError::MaxIterations(2))));
    assert_eq!(LoopError::MaxIterations(2).message(), "max iterations exceeded (2)");
}

#[test]
fn run_control_stops() {
    let mut c = RunControl::new(64, 1);
    assert!(matches!(c.begin_turn(true), Ok(TurnGate::Aborted)));
    assert_eq!(c.outcome(1).stop_reason, StopReason::Error);
    let mut c = RunControl::new(64, 1);
    c.begin_turn(false).unwrap();
    assert_eq!(c.after_turn(StopReason::MaxTokens, true), AfterTurn::EndRun);
    assert_eq!(c.after_turn(StopReason::EndTurn, false), AfterTurn::AwaitFollowUps);
    assert!(c.after_follow_ups(0));
    assert!(!c.after_follow_ups(2));
    assert_eq!(c.after_turn(StopReason::ToolUse, true), AfterTurn::DispatchTools);
    assert!(c.after_dispatch(true));
    assert_eq!(c.outcome(5), RunOutcome { stop_reason: StopReason::EndTurn, messages_appended: 4 });
}

#[test]
fn builder_settings() {
    assert!(matches!(LoopSettings::build(false, None, None, "m", None), Err(BuilderError::MissingModel)));
    assert_eq!(BuilderError::MissingModel.message(), "model adapter is required");
    let s = LoopSettings::build(true, None, None, "adapter-model", None).unwrap();
    assert_eq!(s.model_id, "adapter-model");
    assert_eq!(s.max_iterations, DEFAULT_MAX_ITERATIONS);
    assert_eq!(s.max_iterations, 64);
    let s = LoopSettings::build(true, Some("sys".into()), Some("x".into()), "a", Some(3)).unwrap();
    assert_eq!((s.system_prompt.as_str(), s.model_id.as_str(), s.max_iterations), ("sys", "x", 3));
}

#[test]
fn user_text_has_fresh_id() {
    match user_text("hello".into()) {
        AgentMessage::User { id, content } => {
            assert!(id.0.starts_with("user-"));
            let u = id.0["user-".len()..].as_bytes();
            assert_eq!(u.len(), 36);
            assert_eq!((u[8], u[13], u[14], u[18], u[23]), (b'-', b'-', b'4', b'-', b'-'));
            assert!(matches!(u[19], b'8' | b'9' | b'a' | b'b'));
            assert!(u.iter().enumerate().all(|(i, c)| matches!(i, 8 | 13 | 18 | 23) || matches!(c, b'0'..=b'9' | b'a'..=b'f')));
            assert!(matches!(&content[0], ContentBlock::Text { text } if text == "hello"));
        }
        _ => panic!("expected user message"),
    }
    assert!(NoopSteering.drain_steering().is_empty());
    assert!(NoopSteering.drain_follow_ups().is_empty());
}

#[test]
fn dispatch_partitions_and_orders() {
    let modes = vec![
        ToolExecutionMode::Parallel,
        mode_or_sequential(None),
        ToolExecutionMode::Parallel,
        mode_or_sequential(Some(ToolExecutionMode::Sequential)),
    ];
    let (par, seq) = partition_calls(&modes);
    assert_eq!(par, vec![0, 2]);
    assert_eq!(seq, vec![1, 3]);
    let mut slots = ResultSlots::new(vec![ToolCallId("c-a".into()), ToolCallId("c-b".into()), ToolCallId("c-c".into())]);
    assert!(!slots.is_complete());
    slots.fill(2, CallResult { call_id: ToolCallId("c-c".into()), outcome: ToolOutcome::ok(vec![]), terminate: true });
    slots.fill(0, CallResult { call_id: ToolCallId("c-a".into()), outcome: ToolOutcome::ok(vec![]), terminate: true });
    slots.fill(1, CallResult { call_id: ToolCallId("c-b".into()), outcome: ToolOutcome::error("e".into()), terminate: false });
    assert!(slots.is_complete());
    let (msgs, terminate) = slots.finish();
    assert!(!terminate);
    let got: Vec<String> = msgs
        .iter()
        .map(|m| match m {
            AgentMessage::ToolResult { id, tool_call_id, .. } => format!("{}/{}", id.0, tool_call_id.0),
            _ => panic!("expected tool result"),
        })
        .collect();
    assert_eq!(got, vec!["toolresult-c-a/c-a", "toolresult-c-b/c-b", "toolresult-c-c/c-c"]);
}

#[test]
fn batch_terminates_only_when_all_agree() {
    let mut slots = ResultSlots::new(vec![ToolCallId("a".into()), ToolCallId("b".into())]);
    slots.fill(0, CallResult { call_id: ToolCallId("a".into()), outcome: ToolOutcome::ok(vec![]), terminate: true });
    slots.fill(1, CallResult { call_id: ToolCallId("b".into()), outcome: ToolOutcome::ok(vec![]), terminate: true });
    assert!(slots.finish().1);
    assert!(!ResultSlots::new(vec![]).finish().1);
}

#[test]
fn tool_outcome_helpers() {
    let o = unknown_tool_outcome("nonexistent");
    assert!(o.is_error);
    assert_eq!(first_text(&o), "tool not found: nonexistent");
    let f = failed_tool_outcome(&RuntimeError::Aborted);
    assert!(f.is_error);
    assert_eq!(exec_end_result(&ToolOutcome::ok(vec![])), "null");
    let m = tool_result_message(ToolCallId("call-1".into()), ToolOutcome::error("x".into()));
    assert!(matches!(m, AgentMessage::ToolResult { id, is_error: true, .. } if id.0 == "toolresult-call-1"));
}

#[test]
fn registry_last_registration_wins() {
    let r = ToolRegistry::new(vec![("echo".to_string(), 1), ("grep".to_string(), 2), ("echo".to_string(), 3)]);
    assert_eq!(r.get("echo"), Some(&3));
    assert_eq!(r.get("grep"), Some(&2));
    assert_eq!(r.get("nope"), None);
    assert_eq!(r.len(), 2);
    assert!(!r.is_empty());
    assert_eq!(r.entry(0), (&"echo".to_string(), &3));
    assert_eq!(r.entry(1), (&"grep".to_string(), &2));
}

#[test]
fn spawn_helpers() {
    let names = vec!["researcher".to_string(), "coder".to_string()];
    assert_eq!(
        describe(&names),
        "Delegate a focused task to a sub-agent. Available sub-agents: researcher, coder. Pass `persona` (one of the names) and `prompt` (the task description). The sub-agent runs to completion and returns its final reply."
    );
    assert_eq!(find_persona(&names, "coder").unwrap(), 1);
    let alpha = vec!["alpha".to_string()];
    match find_persona(&alpha, "ghost") {
        Err(RuntimeError::InvalidInput(m)) => assert!(m.contains("unknown sub-agent")),
        _ => panic!("expected an error"),
    }
    let log = vec![
        AgentMessage::User { id: mid("u"), content: vec![ContentBlock::Text { text: "q".into() }] },
        AgentMessage::Assistant {
            id: mid("a"),
            content: vec![ContentBlock::Text { text: "child reply: 42".into() }, ContentBlock::Text { text: "bye".into() }],
            stop_reason: None,
        },
        AgentMessage::Assistant { id: mid("b"), content: vec![], stop_reason: None },
    ];
    assert_eq!(final_reply(&log), "child reply: 42\nbye");
    assert_eq!(final_reply(&vec![]), "(sub-agent produced no text)");
    let o = spawn_outcome("researcher", "r".into(), RunOutcome { stop_reason: StopReason::EndTurn, messages_appended: 2 });
    assert_eq!(
        o.details.unwrap(),
        "{\"messages_appended\":2,\"persona\":\"researcher\",\"stop_reason\":\"EndTurn\"}"
    );
    assert!(matches!(child_failure(&LoopError::HookAborted("x".into())), RuntimeError::ToolFailed(m) if m == "sub-agent failed: hook aborted: x"));
    assert!(matches!(args_error("missing field"), RuntimeError::InvalidInput(m) if m == "spawn_agent args: missing field"));
}

#[test]
fn rejects_unknown_persona() {
    let names = vec!["alpha".to_string()];
    let err = find_persona(&names, "ghost").unwrap_err();
    let text = err.message();
    assert!(text.contains("unknown sub-agent"), "{text}");
}

#[test]
fn message_log_only_appends() {
    let mut log = MessageLog::resumed(vec![user_text("a".into())]);
    let first = log.messages()[0].id().clone();
    let c = log.commit(user_text("b".into()));
    assert_eq!(c.id(), log.messages()[1].id());
    log.append(vec![user_text("c".into()), user_text("d".into())]);
    assert_eq!(log.len(), 4);
    assert_eq!(log.messages()[0].id(), &first);
    assert_eq!(log.messages()[1].id(), c.id());
    assert!(matches!(&log.messages()[3], AgentMessage::User { content, .. }
        if matches!(&content[0], ContentBlock::Text { text } if text == "d")));
    assert_eq!(MessageLog::new().len(), 0);
}

fn assistant(id: &str) -> AgentMessage {
    AgentMessage::Assistant {
        id: MessageId(id.into()),
        content: vec![ContentBlock::Text { text: "ok".into() }],
        stop_reason: Some(StopReason::EndTurn),
    }
}

#[test]
fn run_walks_its_steps_in_order() {
    let log = MessageLog::resumed(vec![user_text("earlier".into())]);
    let earlier = log.messages()[0].id().clone();
    let prompt = user_text("now".into());
    let prompt_id = prompt.id().clone();
    let mut run = AgentRun::start(log, prompt, 4);
    let mut seen = vec![];
    loop {
        let p = run.phase();
        seen.push(p);
        match p {
            RunPhase::CommitPrompt => {
                assert_eq!(run.commit_prompt().id(), &prompt_id);
            }
            RunPhase::BeginTurn => run.begin_turn(false).unwrap(),
            RunPhase::DrainSteering => run.drain_steering(vec![]),
            RunPhase::AskCompaction => assert!(run.compaction(None).is_none()),
            RunPhase::StreamTurn => {
                run.commit_turn(assistant("a1"), StopReason::EndTurn, false);
            }
            RunPhase::DrainFollowUps => run.follow_ups(vec![]),
            RunPhase::DispatchTools => panic!("no tool calls were made"),
            RunPhase::Done => break,
            _ => run.step(),
        }
    }
    assert_eq!(
        seen,
        vec![
            RunPhase::EmitAgentStart,
            RunPhase::FireAgentStart,
            RunPhase::CommitPrompt,
            RunPhase::FirePromptCommit,
            RunPhase::EmitPromptCommit,
            RunPhase::BeginTurn,
            RunPhase::DrainSteering,
            RunPhase::FirePreTurn,
            RunPhase::EmitTurnStart,
            RunPhase::AskCompaction,
            RunPhase::Transform,
            RunPhase::FirePreModelRequest,
            RunPhase::StreamTurn,
            RunPhase::FireTurnCommit,
            RunPhase::EmitTurnCommit,
            RunPhase::FirePostTurn,
            RunPhase::EmitTurnEnd,
            RunPhase::DrainFollowUps,
            RunPhase::FireAgentEnd,
            RunPhase::EmitAgentEnd,
            RunPhase::Done,
        ]
    );
    let o = run.outcome();
    assert_eq!((o.stop_reason, o.messages_appended), (StopReason::EndTurn, 2));
    let log = run.into_log();
    assert_eq!(log.len(), 3);
    assert_eq!(log.messages()[0].id(), &earlier);
    assert_eq!(log.messages()[1].id(), &prompt_id);
}

#[test]
fn run_with_tools_and_a_marker_loops_back_to_the_gate() {
    let mut run = AgentRun::start(MessageLog::new(), user_text("go".into()), 4);
    while run.phase() != RunPhase::CommitPrompt {
        run.step();
    }
    run.commit_prompt();
    while run.phase() != RunPhase::BeginTurn {
        run.step();
    }
    run.begin_turn(false).unwrap();
    run.drain_steering(vec![user_text("steer".into())]);
    run.step();
    run.step();
    let marker = AgentMessage::Custom {
        id: MessageId("m1".into()),
        kind: "compaction".into(),
        payload: "{}".into(),
        visible_to_model: false,
    };
    assert!(run.compaction(Some(marker)).is_some());
    assert_eq!(run.phase(), RunPhase::FireMarkerCommit);
    run.step();
    assert_eq!(run.phase(), RunPhase::EmitMarkerCommit);
    run.step();
    assert_eq!(run.phase(), RunPhase::FirePostCompact);
    run.step();
    run.step();
    run.step();
    run.commit_turn(assistant("a1"), StopReason::ToolUse, true);
    for _ in 0..4 {
        run.step();
    }
    assert_eq!(run.phase(), RunPhase::DispatchTools);
    let result = tool_result_message(
        ToolCallId("c1".into()),
        ToolOutcome::ok(vec![ContentBlock::Text { text: "done".into() }]),
    );
    run.dispatched(vec![result], false);
    assert_eq!(run.phase(), RunPhase::BeginTurn);
    assert_eq!(run.len(), 5);
    run.begin_turn(true).unwrap();
    assert_eq!(run.phase(), RunPhase::FireAgentEnd);
    assert_eq!(run.outcome().stop_reason, StopReason::Error);
    assert_eq!(run.outcome().messages_appended, 5);
}

#[test]
fn run_refuses_a_turn_past_its_cap() {
    let mut run = AgentRun::start(MessageLog::new(), user_text("go".into()), 0);
    while run.phase() != RunPhase::CommitPrompt {
        run.step();
    }
    run.commit_prompt();
    while run.phase() != RunPhase::BeginTurn {
        run.step();
    }
    assert!(matches!(run.begin_turn(false), Err(LoopError::MaxIterations(0))));
    assert_eq!(run.phase(), RunPhase::BeginTurn);
    assert_eq!(run.into_log().len(), 1);
}
