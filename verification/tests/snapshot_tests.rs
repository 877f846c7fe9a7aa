use hivecore::browser::snapshot::{ElementRef, Snapshot, SnapshotElement, SnapshotMeta, SnapshotVersion};

#[test]
fn ref_roundtrip() {
    let r = ElementRef::new(SnapshotVersion(3), "12".into());
    let s = r.render();
    assert_eq!(s, "@v3:e12");
    let parsed = ElementRef::parse(&s).unwrap();
    assert_eq!(parsed, r);
}

#[test]
fn parse_rejects_garbage() {
    assert!(ElementRef::parse("foo").is_none());
    assert!(ElementRef::parse("@v3").is_none());
    assert!(ElementRef::parse("@vX:e12").is_none());
}

#[test]
fn lookup_rejects_stale_version() {
    let snap = Snapshot {
        meta: SnapshotMeta {
            url: "about:blank".into(),
            title: "".into(),
            version: SnapshotVersion(2),
            raw_node_count: 0,
        },
        elements: vec![SnapshotElement {
            element_ref: ElementRef::new(SnapshotVersion(2), "1".into()),
            role: "button".into(),
            name: None,
            selector_hint: None,
            injection_flagged: false,
            actionable: true,
            enabled: true,
        }],
    };
    let stale = ElementRef::new(SnapshotVersion(1), "1".into());
    assert!(snap.lookup(&stale).is_none());
    let fresh = ElementRef::new(SnapshotVersion(2), "1".into());
    assert!(snap.lookup(&fresh).is_some());
}

#[test]
fn parse_of_render_gives_back_the_ref() {
    for (v, id) in [(0u64, ""), (7, "abc"), (18446744073709551615, "x:e1"), (42, "@v1:e2")] {
        let r = ElementRef::new(SnapshotVersion(v), id.to_string());
        assert_eq!(ElementRef::parse(&r.render()), Some(r));
    }
}

#[test]
fn next_version_counts_up() {
    assert_eq!(SnapshotVersion(4).next(), SnapshotVersion(5));
    assert_eq!(SnapshotVersion(9).display(), "v9");
}
