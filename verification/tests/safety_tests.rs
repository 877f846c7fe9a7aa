use hivecore::message::RuntimeError;
use hivecore::tools::error::ToolError;
use hivecore::tools::safety::{PathProbe, WorkspaceRoot};
use tempfile::TempDir;

struct DiskProbe;

impl PathProbe for DiskProbe {
    fn path_exists(&self, path: &str) -> bool {
        std::path::Path::new(path).exists()
    }

    fn canonicalize(&self, path: &str) -> Result<String, String> {
        std::path::Path::new(path)
            .canonicalize()
            .map(|p| p.display().to_string())
            .map_err(|e| e.to_string())
    }
}

fn root() -> (TempDir, WorkspaceRoot) {
    let dir = TempDir::new().unwrap();
    let root = WorkspaceRoot::new(&dir.path().display().to_string(), &DiskProbe).unwrap();
    (dir, root)
}

#[test]
fn resolves_relative_path_under_root() {
    let (_d, root) = root();
    let p = root.resolve("foo.txt", &DiskProbe).unwrap();
    assert!(std::path::Path::new(&p).starts_with(root.path()));
}

#[test]
fn rejects_parent_dir_escape() {
    let (_d, root) = root();
    assert!(matches!(
        root.resolve("../outside", &DiskProbe),
        Err(ToolError::PathEscape(_))
    ));
}

#[test]
fn rejects_absolute_path_outside_root() {
    let (_d, root) = root();
    let err = root.resolve("/etc/passwd", &DiskProbe).unwrap_err();
    assert!(matches!(err, ToolError::PathEscape(_)));
}

#[test]
fn allows_nested_subpath() {
    let (dir, root) = root();
    let _sub = tempfile::Builder::new()
        .prefix("sub")
        .rand_bytes(0)
        .tempdir_in(dir.path())
        .unwrap();
    let p = root.resolve("sub/x.txt", &DiskProbe).unwrap();
    assert!(std::path::Path::new(&p).starts_with(root.path()));
    assert!(std::path::Path::new(&p).ends_with("sub/x.txt"));
}

/// A filesystem where only the listed paths exist and canonical forms are
/// given by a table.
struct TableProbe {
    existing: Vec<&'static str>,
    canon: Vec<(&'static str, &'static str)>,
}

impl PathProbe for TableProbe {
    fn path_exists(&self, path: &str) -> bool {
        self.existing.iter().any(|p| *p == path)
    }

    fn canonicalize(&self, path: &str) -> Result<String, String> {
        self.canon
            .iter()
            .find(|(k, _)| *k == path)
            .map(|(_, v)| v.to_string())
            .ok_or_else(|| "No such file or directory (os error 2)".to_string())
    }
}

fn table() -> TableProbe {
    TableProbe {
        existing: vec!["/ws", "/ws/src", "/ws/link"],
        canon: vec![
            ("/ws", "/ws"),
            ("/ws/src", "/ws/src"),
            ("/ws/link", "/elsewhere"),
        ],
    }
}

#[test]
fn resolve_reattaches_missing_tail() {
    let root = WorkspaceRoot::new("/ws", &table()).unwrap();
    assert_eq!(root.resolve("src/new/file.rs", &table()).unwrap(), "/ws/src/new/file.rs");
    assert_eq!(root.resolve("src", &table()).unwrap(), "/ws/src");
}

#[test]
fn resolve_refuses_symlink_out_of_root() {
    let root = WorkspaceRoot::new("/ws", &table()).unwrap();
    match root.resolve("link/x", &table()) {
        Err(ToolError::PathEscape(p)) => assert_eq!(p, "/ws/link/x"),
        other => panic!("unexpected {other:?}"),
    }
}

#[test]
fn resolve_reports_canonicalize_failure_as_io() {
    let probe = TableProbe { existing: vec![], canon: vec![("/ws", "/ws")] };
    let root = WorkspaceRoot::new("/ws", &probe).unwrap();
    match root.resolve("a/b", &probe) {
        Err(ToolError::Io(m)) => assert_eq!(m, "No such file or directory (os error 2)"),
        other => panic!("unexpected {other:?}"),
    }
}

#[test]
fn root_that_cannot_be_canonicalized_is_invalid() {
    let probe = TableProbe { existing: vec![], canon: vec![] };
    match WorkspaceRoot::new("/nope", &probe) {
        Err(ToolError::InvalidArg(m)) => assert_eq!(
            m,
            "workspace root not accessible: No such file or directory (os error 2)"
        ),
        other => panic!("unexpected {other:?}"),
    }
}

#[test]
fn tool_error_messages() {
    assert_eq!(ToolError::PathEscape("../x".into()).message(), "path escapes workspace root: ../x");
    assert_eq!(ToolError::NotFound("a".into()).message(), "path does not exist: a");
    assert_eq!(ToolError::Io("boom".into()).message(), "io error: boom");
    assert_eq!(ToolError::InvalidArg("bad".into()).message(), "invalid argument: bad");
    assert_eq!(ToolError::Regex("r".into()).message(), "regex error: r");
    assert_eq!(ToolError::Timeout(200).message(), "timeout after 200ms");
    assert_eq!(ToolError::Aborted.message(), "aborted");
    assert_eq!(ToolError::StringNotFound.message(), "string not found in file");
    assert_eq!(
        ToolError::StringNotUnique { count: 3 }.message(),
        "string occurs multiple times in file (3 matches) — narrow the context"
    );
    assert_eq!(
        ToolError::NotReadYet.message(),
        "file not read in this session — call read_file first"
    );
}

#[test]
fn tool_error_into_runtime() {
    assert!(matches!(ToolError::Aborted.into_runtime(), RuntimeError::Aborted));
    assert!(matches!(ToolError::InvalidArg("x".into()).into_runtime(), RuntimeError::InvalidInput(m) if m == "x"));
    assert!(matches!(ToolError::StringNotFound.into_runtime(), RuntimeError::ToolFailed(m) if m == "string not found in file"));
}

#[test]
fn root_whose_canonical_form_is_relative_is_refused() {
    match WorkspaceRoot::from_canonical(Ok("ws".to_string())) {
        Err(ToolError::InvalidArg(m)) => {
            assert_eq!(m, "workspace root not accessible: not an absolute path: ws")
        }
        other => panic!("unexpected {other:?}"),
    }
}

#[test]
fn resolved_paths_are_absolute() {
    let (_d, root) = root();
    let p = root.resolve("foo.txt", &DiskProbe).unwrap();
    assert!(std::path::Path::new(&p).is_absolute());
    assert!(std::path::Path::new(root.path()).is_absolute());
}

#[test]
fn resolve_with_reattaches_the_missing_tail() {
    let root = WorkspaceRoot::from_canonical(Ok("/ws".to_string())).unwrap();
    // "/", "/ws" and "/ws/src" exist; "/ws/src/new" and the file do not.
    let exists = vec![false, true, true, true, false, false];
    assert_eq!(
        root.resolve_with("src/new/file.rs", &exists, Ok("/ws/src".to_string())).unwrap(),
        "/ws/src/new/file.rs"
    );
    assert_eq!(root.resolve_with("src", &vec![false, true, true, true], Ok("/ws/src".into())).unwrap(), "/ws/src");
}

#[test]
fn resolve_with_refuses_what_lies_outside() {
    let root = WorkspaceRoot::from_canonical(Ok("/ws".to_string())).unwrap();
    match root.resolve_with("/etc/passwd", &vec![false, true, true, true], Ok("/etc/passwd".into())) {
        Err(ToolError::PathEscape(p)) => assert_eq!(p, "/etc/passwd"),
        other => panic!("unexpected {other:?}"),
    }
    match root.resolve_with("link/x", &vec![false, true, true, true, false], Ok("/elsewhere".into())) {
        Err(ToolError::PathEscape(p)) => assert_eq!(p, "/ws/link/x"),
        other => panic!("unexpected {other:?}"),
    }
    match root.resolve_with("../x", &vec![], Ok("/ws".into())) {
        Err(ToolError::PathEscape(p)) => assert_eq!(p, "../x"),
        other => panic!("unexpected {other:?}"),
    }
}

#[test]
fn resolve_with_reports_canonicalize_failure() {
    let root = WorkspaceRoot::from_canonical(Ok("/ws".to_string())).unwrap();
    match root.resolve_with("a/b", &vec![], Err("gone".into())) {
        Err(ToolError::Io(m)) => assert_eq!(m, "gone"),
        other => panic!("unexpected {other:?}"),
    }
}
