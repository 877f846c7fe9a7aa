use hivecore::browser::act::{act_note, act_target, find_failure, poll_satisfied, poll_step, PollReading, PollStep, settled_note, url_satisfies, wait_plan, wait_timeout, WaitPlan};
use hivecore::browser::actions::{ActionKind, AssertPredicate, WaitCondition};
use hivecore::browser::capability::{Capability, CapabilityStability, CapabilityTable};
use hivecore::browser::config::ChromeConfig;
use hivecore::browser::context::{BrowserContext, BrowserSessionId, TenantId};
use hivecore::browser::error::BrowserError;
use hivecore::browser::harness::HarnessState;
use hivecore::browser::provider::{
    build_snapshot, chromium_capabilities, evaluate_assert, initial_url, ref_selector, ProviderSessions, RawElement,
    SessionSpec,
};
use hivecore::browser::settle::{SettleOptions, SettleReason, SettleResult, Settler};
use hivecore::browser::snapshot::{ElementRef, SnapshotVersion};

fn r(v: u64, id: &str) -> ElementRef {
    ElementRef::new(SnapshotVersion(v), id.into())
}

#[test]
fn action_notes() {
    let t = r(3, "12");
    assert_eq!(act_note(&t, &ActionKind::Click), "click @v3:e12");
    assert_eq!(act_note(&t, &ActionKind::Type { text: "héllo".into() }), "type 6 chars into @v3:e12");
    assert_eq!(act_note(&t, &ActionKind::SetChecked { checked: true }), "set_checked=true");
    assert_eq!(act_note(&t, &ActionKind::Drag { to: r(3, "4") }), "[stub] drag @v3:e12 → @v3:e4");
    let s = SettleResult { settle_ms: 120, settle_reason: SettleReason::DomQuiet, settle_polls: 3, total_mutations: 5, url_changed: false };
    assert_eq!(settled_note("click @v3:e12".into(), &s), "click @v3:e12 (settle: dom_quiet in 120 ms, 5 mutations)");
}

#[test]
fn find_failures_are_stale_refs() {
    assert!(matches!(find_failure(&r(1, "2"), Some("gone".into())), BrowserError::StaleRef(m) if m == "@v1:e2: gone"));
    assert!(matches!(find_failure(&r(1, "2"), None), BrowserError::StaleRef(m) if m.ends_with("timed out after 5s (element likely invisible or removed)")));
    assert!(matches!(wait_timeout(250), BrowserError::Other(m) if m == "wait timeout 250ms"));
}

#[test]
fn wait_plans() {
    assert!(matches!(wait_plan(WaitCondition::Delay { ms: 5 }), Ok(WaitPlan::Sleep { ms: 5 })));
    assert!(matches!(
        wait_plan(WaitCondition::RefVisible { element_ref: r(2, "9") }),
        Ok(WaitPlan::Selector { selector, visible: true }) if selector == "[data-hivecore-ref=\"@v2:e9\"]"
    ));
    let p = wait_plan(WaitCondition::UrlMatches { pattern: "^https://x\\.test/".into() }).unwrap();
    assert!(url_satisfies(&p, "https://x.test/a"));
    assert!(!url_satisfies(&p, "http://x.test/a"));
    let c = wait_plan(WaitCondition::UrlContains { substring: "done".into() }).unwrap();
    assert!(url_satisfies(&c, "/job/done?"));
    assert!(matches!(
        wait_plan(WaitCondition::UrlMatches { pattern: "(".into() }),
        Err(BrowserError::Other(m)) if m.starts_with("invalid url regex `(`: ")
    ));
    assert!(matches!(wait_plan(WaitCondition::NetworkIdle), Ok(WaitPlan::NetworkIdle { quiet_ms: 500 })));
}

#[test]
fn harness_reuses_named_sessions() {
    let tenant = TenantId::new("acme".into());
    let mut h = HarnessState::new();
    assert!(h.known(&tenant, "main").is_none());
    assert!(matches!(h.ctx_for(&tenant, "main"), Err(BrowserError::SessionNotFound(n)) if n == "main"));
    h.remember("main".into(), BrowserSessionId::new("s-1".into()));
    let c = h.ctx_for(&tenant, "main").unwrap();
    assert_eq!(c.session.as_str(), "s-1");
    assert_eq!(c.tenant.as_str(), "acme");
}

#[test]
fn chrome_defaults() {
    let c = ChromeConfig::default_with(None, Some("/home/u".into()));
    assert_eq!(c.artifact_root, "/home/u/.hivecore/sessions/__browser__");
    assert_eq!(c.chrome_path.as_deref(), Some("/usr/bin/google-chrome-stable"));
    assert!(c.headless && c.no_sandbox);
    assert_eq!(c.extra_args(), vec!["--no-sandbox".to_string()]);
    let d = ChromeConfig::default_with(Some("/data/".into()), None);
    assert_eq!(d.artifact_root, "/data/__browser__");
}

fn ctx(t: &str, s: &str) -> BrowserContext {
    BrowserContext::new(TenantId::new(t.into()), BrowserSessionId::new(s.into()))
}

#[test]
fn provider_isolates_tenants() {
    let mut p = ProviderSessions::new();
    p.register(BrowserSessionId::new("s1".into()), TenantId::new("acme".into())).unwrap();
    p.register(BrowserSessionId::new("s2".into()), TenantId::new("globex".into())).unwrap();
    p.register(BrowserSessionId::new("s3".into()), TenantId::new("acme".into())).unwrap();
    let listed: Vec<String> = p.list(&TenantId::new("acme".into())).iter().map(|i| i.as_str().to_string()).collect();
    assert_eq!(listed, vec!["s1".to_string(), "s3".to_string()]);
    assert!(p.check_access(&ctx("acme", "s1")).is_ok());
    assert!(matches!(
        p.check_access(&ctx("globex", "s1")),
        Err(BrowserError::CrossTenantDenied { caller, owner }) if caller == "globex" && owner == "acme"
    ));
    assert!(matches!(p.check_access(&ctx("acme", "nope")), Err(BrowserError::SessionNotFound(s)) if s == "nope"));
    assert!(matches!(p.close(&ctx("globex", "s3")), Err(BrowserError::CrossTenantDenied { .. })));
    assert!(matches!(p.close(&ctx("acme", "s3")), Ok(true)));
    assert!(matches!(p.close(&ctx("acme", "s3")), Ok(false)));
    assert_eq!(p.list(&TenantId::new("acme".into())).len(), 1);
    assert!(matches!(
        p.register(BrowserSessionId::new("s1".into()), TenantId::new("globex".into())),
        Err(BrowserError::CrossTenantDenied { caller, owner }) if caller == "globex" && owner == "acme"
    ));
    assert!(p.check_access(&ctx("acme", "s1")).is_ok());
}

#[test]
fn provider_rejects_stale_and_disabled_targets() {
    let mut p = ProviderSessions::new();
    p.register(BrowserSessionId::new("s".into()), TenantId::new("t".into())).unwrap();
    let c = ctx("t", "s");
    let v = p.begin_snapshot(&c).unwrap();
    assert_eq!(v.0, 1);
    p.record_elements(&c, vec![("1".into(), true), ("2".into(), false)]).unwrap();
    assert!(p.check_act_target(&c, &r(1, "1")).is_ok());
    assert!(matches!(
        p.check_act_target(&c, &r(1, "2")),
        Err(BrowserError::NotActionable(m)) if m == "@v1:e2 (disabled in current snapshot)"
    ));
    assert!(matches!(p.check_act_target(&c, &r(1, "9")), Err(BrowserError::StaleRef(m)) if m == "@v1:e9"));
    assert_eq!(p.begin_snapshot(&c).unwrap().0, 2);
    assert!(matches!(p.check_act_target(&c, &r(1, "1")), Err(BrowserError::StaleRef(m)) if m == "@v1:e1"));
    assert!(matches!(p.begin_snapshot(&ctx("other", "s")), Err(BrowserError::CrossTenantDenied { .. })));
}

fn raw(id: Option<&str>, role: Option<&str>, name: Option<&str>, enabled: Option<bool>) -> RawElement {
    RawElement {
        element_id: id.map(|s| s.to_string()),
        role: role.map(|s| s.to_string()),
        name: name.map(|s| s.to_string()),
        enabled,
    }
}

#[test]
fn snapshot_building_and_assertions() {
    let raws = vec![
        raw(Some("1"), Some("button"), Some("Save"), None),
        raw(None, Some("button"), Some("ghost"), None),
        raw(Some("2"), Some("textbox"), Some(""), Some(false)),
        raw(Some("3"), None, Some("Cancel order"), Some(true)),
        raw(Some("4"), Some("button"), None, None),
    ];
    let (snap, states) = build_snapshot(SnapshotVersion(4), &raws, "https://shop.test/cart".into(), "Cart".into(), 17);
    assert_eq!(snap.elements.len(), 4);
    assert_eq!(snap.meta.raw_node_count, 17);
    assert_eq!(snap.elements[1].name, None);
    assert!(!snap.elements[1].enabled && !snap.elements[1].actionable);
    assert_eq!(snap.elements[2].role, "");
    assert_eq!(states, vec![("1".to_string(), true), ("2".to_string(), false), ("3".to_string(), true), ("4".to_string(), true)]);

    assert!(evaluate_assert(&snap, &AssertPredicate::Exists { element_ref: r(4, "3") }));
    assert!(!evaluate_assert(&snap, &AssertPredicate::Exists { element_ref: r(3, "3") }));
    assert!(evaluate_assert(&snap, &AssertPredicate::NameEquals { element_ref: r(4, "1"), expected: "Save".into() }));
    assert!(!evaluate_assert(&snap, &AssertPredicate::NameEquals { element_ref: r(4, "4"), expected: "".into() }));
    assert!(evaluate_assert(&snap, &AssertPredicate::UrlEquals { expected: "https://shop.test/cart".into() }));
    assert!(evaluate_assert(&snap, &AssertPredicate::UrlContains { substring: "/cart".into() }));
    assert!(evaluate_assert(&snap, &AssertPredicate::TextVisible { substring: "order".into() }));
    assert!(!evaluate_assert(&snap, &AssertPredicate::TextVisible { substring: "ghost".into() }));
    assert!(evaluate_assert(&snap, &AssertPredicate::Count { role: "button".into(), expected: 2 }));
    assert!(!evaluate_assert(&snap, &AssertPredicate::Count { role: "button".into(), expected: 3 }));
    assert_eq!(ref_selector(&r(4, "1")), "[data-hivecore-ref=\"@v4:e1\"]");
}

#[test]
fn capability_tables() {
    let t = chromium_capabilities("0.7".into());
    assert_eq!(t.provider_id, "chromiumoxide");
    assert_eq!(t.get(Capability::Screenshot), Some(CapabilityStability::Stable));
    assert_eq!(t.get(Capability::Tracing), None);
    assert!(t.supports(Capability::MultiPage));
    assert_eq!(
        t.require(Capability::PageEval),
        Err("provider 'chromiumoxide' does not support capability PageEval".to_string())
    );
    let mut u = CapabilityTable::new("x".into(), "1".into());
    u.insert(Capability::Frames, CapabilityStability::Experimental);
    assert!(u.require(Capability::Frames).is_ok());
    u.insert(Capability::Frames, CapabilityStability::NotImplemented);
    assert_eq!(u.get(Capability::Frames), Some(CapabilityStability::NotImplemented));
    assert!(!u.supports(Capability::Frames));
    assert_eq!(initial_url(&SessionSpec::named("n".into())), "about:blank");
}

#[test]
fn settler_decisions() {
    let opts = SettleOptions { timeout_ms: 100, poll_ms: 5, quiet_window_ms: 10, check_focus_stability: true };
    let mut s = Settler::start(&opts, 10, "a".into(), "u1".into(), 0);
    assert_eq!((s.timeout_ms(), s.poll_ms(), s.active_quiet_window_ms()), (150, 20, 60));
    assert!(s.should_poll(149) && !s.should_poll(150));
    assert!(s.observe(20, 20, "u1".into(), 12, "a".into()).is_none());
    assert_eq!(s.total_mutations(), 2);
    assert!(s.observe(50, 50, "u2".into(), 12, "a".into()).is_none());
    assert!(s.observe(80, 80, "u2".into(), 12, "b".into()).is_none());
    let done = s.observe(140, 140, "u2".into(), 12, "b".into()).unwrap();
    assert_eq!(done.settle_reason, SettleReason::UrlChangedThenQuiet);
    assert_eq!((done.settle_ms, done.settle_polls, done.total_mutations, done.url_changed), (140, 4, 2, true));

    let mut q = Settler::start(&SettleOptions::default(), 0, String::new(), "u".into(), 0);
    assert!(q.observe(50, 50, "u".into(), 0, String::new()).is_none());
    let z = q.observe(60, 60, "u".into(), 0, String::new()).unwrap();
    assert_eq!(z.settle_reason, SettleReason::ZeroMutationShortcut);
    assert_eq!(q.active_quiet_window_ms(), 30);
    assert_eq!(q.timeout_result(1500).settle_reason.name(), "timeout_fallback");
}

#[test]
fn act_targets_parse_or_explain() {
    let t = act_target("@v7:e31").unwrap();
    assert_eq!((t.version.0, t.element_id.as_str()), (7, "31"));
    assert!(matches!(act_target("v7:e31"), Err(m) if m == "malformed ref: v7:e31"));
    assert!(matches!(act_target("@vx:e1"), Err(m) if m == "malformed ref: @vx:e1"));
}

#[test]
fn polled_waits_decide_each_reading() {
    let vis = wait_plan(WaitCondition::SelectorVisible { selector: "#go".into() }).unwrap();
    let hid = wait_plan(WaitCondition::SelectorHidden { selector: "#go".into() }).unwrap();
    assert!(poll_satisfied(&vis, &PollReading::Selector { count: 1, visible: true }));
    assert!(!poll_satisfied(&vis, &PollReading::Selector { count: 1, visible: false }));
    assert!(poll_satisfied(&hid, &PollReading::Selector { count: 0, visible: false }));
    assert!(poll_satisfied(&hid, &PollReading::Selector { count: 2, visible: false }));
    assert!(!poll_satisfied(&hid, &PollReading::Selector { count: 1, visible: true }));
    assert!(matches!(poll_step(&vis, &PollReading::Selector { count: 0, visible: false }, false), PollStep::Again));
    assert!(matches!(
        poll_step(&vis, &PollReading::Selector { count: 0, visible: false }, true),
        PollStep::TimedOut(BrowserError::Other(m)) if m == "wait timeout: selector_visible"
    ));
    assert!(matches!(poll_step(&hid, &PollReading::Selector { count: 0, visible: false }, true), PollStep::Done));

    let gone = wait_plan(WaitCondition::TextHidden { substring: "Loading".into() }).unwrap();
    assert!(poll_satisfied(&gone, &PollReading::Text { found: false }));
    assert!(matches!(
        poll_step(&gone, &PollReading::Text { found: true }, true),
        PollStep::TimedOut(BrowserError::Other(m)) if m == "wait timeout: text_hidden"
    ));

    let idle = wait_plan(WaitCondition::NetworkIdle).unwrap();
    assert!(!poll_satisfied(&idle, &PollReading::Idle { idle_ms: 499 }));
    assert!(poll_satisfied(&idle, &PollReading::Idle { idle_ms: 500 }));
    assert!(matches!(
        poll_step(&idle, &PollReading::Idle { idle_ms: 10 }, true),
        PollStep::TimedOut(BrowserError::Other(m)) if m == "wait timeout: network_idle"
    ));

    let url = wait_plan(WaitCondition::UrlContains { substring: "/done".into() }).unwrap();
    assert!(poll_satisfied(&url, &PollReading::Url { url: "https://a.test/done".into() }));
    assert!(!poll_satisfied(&url, &PollReading::Text { found: true }));
    assert!(matches!(
        poll_step(&url, &PollReading::Url { url: "https://a.test/".into() }, true),
        PollStep::TimedOut(BrowserError::Other(m)) if m == "wait timeout: url"
    ));
}
