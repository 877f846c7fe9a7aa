use hivecore::message::{ContentBlock, RuntimeError, ToolOutcome};
use hivecore::tools::bash::BashTool;
use hivecore::tools::edit::{EditArgs, EditTool};
use hivecore::tools::error::ToolError;
use hivecore::tools::grep::{EntryStep, GrepScan, Pattern};
use hivecore::tools::read::ReadTool;
use hivecore::tools::safety::{PathProbe, WorkspaceRoot};
use hivecore::tools::write::WriteTool;

fn text_of(o: &ToolOutcome) -> String {
    match &o.content[0] {
        ContentBlock::Text { text } => text.clone(),
        _ => panic!("expected text"),
    }
}

fn args(old: &str, new: &str, all: bool) -> EditArgs {
    EditArgs {
        path: "f.txt".into(),
        old_string: old.into(),
        new_string: new.into(),
        replace_all: all,
    }
}

#[test]
fn replaces_unique_occurrence() {
    let p = EditTool::plan(&args("world", "hivecore", false), "hello world").unwrap();
    assert_eq!(p.new_contents, "hello hivecore");
    assert_eq!(p.count, 1);
    let o = EditTool::outcome("f.txt", 1);
    assert_eq!(text_of(&o), "edited f.txt (1 occurrence replaced)");
    assert_eq!(o.details.unwrap(), "{\"occurrences_replaced\":1,\"path\":\"f.txt\"}");
}

#[test]
fn rejects_ambiguous_edit() {
    let e = EditTool::plan(&args("aa", "bb", false), "aa aa aa").unwrap_err();
    assert_eq!(e, ToolError::StringNotUnique { count: 3 });
    assert!(e.message().contains("multiple times"));
}

#[test]
fn replace_all_works() {
    let p = EditTool::plan(&args("aa", "bb", true), "aa aa aa").unwrap();
    assert_eq!(p.new_contents, "bb bb bb");
    assert_eq!(p.count, 3);
    assert_eq!(text_of(&EditTool::outcome("f.txt", 3)), "edited f.txt (3 occurrences replaced)");
}

#[test]
fn rejects_missing_string() {
    let e = EditTool::plan(&args("xyz", "q", false), "hello").unwrap_err();
    assert_eq!(e, ToolError::StringNotFound);
    assert!(e.message().contains("not found"));
}

#[test]
fn edit_refuses_no_op() {
    match EditTool::check_args(&args("a", "a", false)) {
        Err(ToolError::InvalidArg(m)) => assert_eq!(m, "old_string == new_string"),
        other => panic!("unexpected {other:?}"),
    }
    assert!(EditTool::check_args(&args("a", "b", false)).is_ok());
}

#[test]
fn edit_read_errors() {
    assert_eq!(EditTool::read_error("f.txt", true, "x".into()), ToolError::NotFound("f.txt".into()));
    assert_eq!(EditTool::read_error("f.txt", false, "denied".into()), ToolError::Io("denied".into()));
}

#[test]
fn reads_full_file() {
    let o = ReadTool::outcome("hi.txt", "alpha\nbeta\ngamma\n", None, None);
    let t = text_of(&o);
    assert!(t.contains("alpha"));
    assert!(t.contains("3\tgamma"));
    assert_eq!(t, "     1\talpha\n     2\tbeta\n     3\tgamma\n");
    assert_eq!(
        o.details.unwrap(),
        "{\"line_count\":3,\"summary\":\"hi.txt (3 of 3 lines, offset=1)\",\"total_lines\":3}"
    );
}

#[test]
fn slice_with_offset_limit() {
    let o = ReadTool::outcome("h.txt", "1\n2\n3\n4\n5\n", Some(2), Some(2));
    let t = text_of(&o);
    assert!(t.contains("     2\t2"));
    assert!(t.contains("     3\t3"));
    assert!(!t.contains("\t4"));
}

#[test]
fn read_offset_zero_and_past_end() {
    let t = text_of(&ReadTool::outcome("h", "a\r\nb", Some(0), None));
    assert_eq!(t, "     1\ta\n     2\tb\n");
    let o = ReadTool::outcome("h", "a\nb\n", Some(9), None);
    assert_eq!(text_of(&o), "");
    assert_eq!(
        o.details.unwrap(),
        "{\"line_count\":0,\"summary\":\"h (0 of 2 lines, offset=9)\",\"total_lines\":2}"
    );
    let wide = text_of(&ReadTool::outcome("h", "x", Some(1), None));
    assert_eq!(wide, "     1\tx\n");
}

#[test]
fn read_failure_maps_missing_file() {
    match ReadTool::read_failure("a.txt", RuntimeError::Other("No such file or directory".into())) {
        RuntimeError::ToolFailed(m) => assert_eq!(m, "path does not exist: a.txt"),
        other => panic!("unexpected {other:?}"),
    }
    assert!(matches!(
        ReadTool::read_failure("a.txt", RuntimeError::Other("denied".into())),
        RuntimeError::Other(m) if m == "denied"
    ));
}

#[test]
fn write_reports_bytes() {
    let o = WriteTool::outcome("deep/nested/x.txt", "héllo");
    assert_eq!(text_of(&o), "wrote 6 bytes to deep/nested/x.txt");
    assert_eq!(o.details.unwrap(), "{\"bytes\":6,\"path\":\"deep/nested/x.txt\"}");
}

#[test]
fn bash_combines_and_flags_errors() {
    let o = BashTool::outcome("hello\n", "", 0, "/ws");
    assert_eq!(text_of(&o), "hello\n");
    assert!(!o.is_error);
    assert_eq!(o.details.unwrap(), "{\"cwd\":\"/ws\",\"exit_code\":0,\"truncated\":false}");
    let o = BashTool::outcome("out", "bad", 7, "/ws");
    assert_eq!(text_of(&o), "out\n--- stderr ---\nbad");
    assert!(o.is_error);
    assert_eq!(o.details.unwrap(), "{\"cwd\":\"/ws\",\"exit_code\":7,\"truncated\":false}");
    let o = BashTool::outcome("", "e", -1, "/w");
    assert_eq!(text_of(&o), "--- stderr ---\ne");
    assert_eq!(o.details.unwrap(), "{\"cwd\":\"/w\",\"exit_code\":-1,\"truncated\":false}");
}

#[test]
fn bash_truncates_long_output() {
    let long = "a".repeat(40000);
    let o = BashTool::outcome(&long, "", 0, "/ws");
    let t = text_of(&o);
    assert_eq!(t.len(), 32 * 1024 + "\n…[truncated]".len());
    assert!(t.ends_with("\n…[truncated]"));
    assert!(o.details.unwrap().contains("\"truncated\":true"));
    let split = format!("{}é", "a".repeat(32767));
    let o = BashTool::outcome(&split, "", 0, "/ws");
    assert_eq!(text_of(&o), format!("{}\n…[truncated]", "a".repeat(32767)));
    assert!(o.details.unwrap().contains("\"truncated\":true"));
    let exact = "a".repeat(32 * 1024);
    assert_eq!(text_of(&BashTool::outcome(&exact, "", 0, "/ws")), exact);
}

#[test]
fn bash_timeout_and_failures() {
    assert_eq!(BashTool::timeout_ms(None), 120_000);
    assert_eq!(BashTool::timeout_ms(Some(200)), 200);
    assert!(matches!(BashTool::exec_failure(RuntimeError::Aborted, 5), RuntimeError::Aborted));
    match BashTool::exec_failure(RuntimeError::Other("process timeout".into()), 200) {
        RuntimeError::ToolFailed(m) => assert_eq!(m, "timeout after 200ms"),
        other => panic!("unexpected {other:?}"),
    }
    assert!(matches!(
        BashTool::exec_failure(RuntimeError::Other("spawn failed".into()), 200),
        RuntimeError::Other(m) if m == "spawn failed"
    ));
}

struct FixedProbe;

impl PathProbe for FixedProbe {
    fn path_exists(&self, _path: &str) -> bool {
        true
    }
    fn canonicalize(&self, path: &str) -> Result<String, String> {
        Ok(path.to_string())
    }
}

#[test]
fn grep_walk_rows_and_skips() {
    let root = WorkspaceRoot::new("/ws", &FixedProbe).unwrap();
    let pat = Pattern::compile("foo", false).unwrap();
    let mut scan = GrepScan::new(&root, "/ws".into(), None);
    assert_eq!(scan.pop_dir().unwrap(), "/ws");
    assert!(!scan.check_full());
    assert_eq!(scan.classify("/ws/a.txt"), EntryStep::Inspect);
    scan.scan_file("/ws/a.txt", "alpha\nfoo here\n", &pat);
    assert_eq!(scan.classify("/ws/.git"), EntryStep::Skip);
    assert_eq!(scan.classify("/elsewhere/x"), EntryStep::Skip);
    assert_eq!(scan.classify("/ws/sub"), EntryStep::Inspect);
    scan.push_dir("/ws/sub".into());
    assert_eq!(scan.pop_dir().unwrap(), "/ws/sub");
    scan.scan_file("/ws/sub/c.txt", "another foo\n", &pat);
    assert!(scan.pop_dir().is_none());
    let o = scan.finish();
    assert_eq!(text_of(&o), "a.txt:2:foo here\nsub/c.txt:1:another foo");
    assert_eq!(
        o.details.unwrap(),
        "{\"matches\":2,\"summary\":\"2 matches (complete)\",\"truncated\":false}"
    );
}

#[test]
fn grep_stops_at_bound() {
    let root = WorkspaceRoot::new("/ws", &FixedProbe).unwrap();
    let pat = Pattern::compile("foo", true).unwrap();
    assert!(pat.is_match("FOO"));
    let mut scan = GrepScan::new(&root, "/ws".into(), Some(1));
    scan.pop_dir();
    scan.scan_file("/ws/a.txt", "FOO\nfoo\n", &pat);
    assert_eq!(scan.classify("/ws/b.txt"), EntryStep::Stop);
    let o = scan.finish();
    assert_eq!(text_of(&o), "a.txt:1:FOO");
    assert_eq!(
        o.details.unwrap(),
        "{\"matches\":1,\"summary\":\"1 match (truncated)\",\"truncated\":true}"
    );
}

#[test]
fn grep_rejects_bad_regex() {
    match Pattern::compile("foo(", false) {
        Err(ToolError::Regex(m)) => assert!(!m.is_empty()),
        other => panic!("unexpected {other:?}"),
    }
}

fn matches_of(o: ToolOutcome) -> u64 {
    let d: serde_json::Value = serde_json::from_str(&o.details.unwrap()).unwrap();
    d["matches"].as_u64().unwrap()
}

#[test]
fn finds_pattern_across_files() {
    let root = WorkspaceRoot::new("/ws", &FixedProbe).unwrap();
    let pat = Pattern::compile("foo", false).unwrap();
    let mut scan = GrepScan::new(&root, "/ws".into(), None);
    scan.pop_dir();
    for (entry, text) in [("/ws/a.txt", "alpha\nfoo here\n"), ("/ws/b.txt", "no match\n")] {
        assert_eq!(scan.classify(entry), EntryStep::Inspect);
        scan.scan_file(entry, text, &pat);
    }
    scan.push_dir("/ws/sub".into());
    scan.pop_dir();
    scan.scan_file("/ws/sub/c.txt", "another foo\n", &pat);
    let out = scan.finish();
    assert!(!out.is_error);
    assert_eq!(matches_of(out), 2);
}

#[test]
fn case_insensitive_flag_works() {
    let root = WorkspaceRoot::new("/ws", &FixedProbe).unwrap();
    let pat = Pattern::compile("foo", true).unwrap();
    let mut scan = GrepScan::new(&root, "/ws".into(), None);
    scan.pop_dir();
    scan.scan_file("/ws/a.txt", "FOO\nfoo\n", &pat);
    assert_eq!(matches_of(scan.finish()), 2);
}

#[test]
fn skips_hidden_dirs() {
    let root = WorkspaceRoot::new("/ws", &FixedProbe).unwrap();
    let pat = Pattern::compile("secret", false).unwrap();
    let mut scan = GrepScan::new(&root, "/ws".into(), None);
    scan.pop_dir();
    assert_eq!(scan.classify("/ws/.git"), EntryStep::Skip);
    assert_eq!(scan.classify("/ws/visible.txt"), EntryStep::Inspect);
    scan.scan_file("/ws/visible.txt", "secret\n", &pat);
    assert_eq!(matches_of(scan.finish()), 1);
}

#[test]
fn grep_take_line_adds_rows_until_bound() {
    let root = WorkspaceRoot::new("/ws", &FixedProbe).unwrap();
    let mut scan = GrepScan::new(&root, "/ws".into(), Some(2));
    assert!(!scan.take_line("a.txt", 1, "no", false));
    assert!(!scan.take_line("a.txt", 2, "foo", true));
    assert!(scan.take_line("a.txt", 12, "foo again", true));
    let o = scan.finish();
    assert_eq!(text_of(&o), "a.txt:2:foo\na.txt:12:foo again");
    assert_eq!(
        o.details.unwrap(),
        "{\"matches\":2,\"summary\":\"2 matches (truncated)\",\"truncated\":true}"
    );
}
