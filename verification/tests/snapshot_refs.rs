use acb::snapshot::take_snapshot;
use acb::snapshot::ref_table::{is_ref, RefTable};
use acb::snapshot::{build_snapshot, parse_ref, validate_ref_format, RawElement};

fn raw(acb: Option<u64>, parent: Option<u64>, tag: &str) -> RawElement {
    RawElement {
        acb_id: acb,
        parent_acb_id: parent,
        tag: Some(tag.to_string()),
        role: None,
        name: None,
        text: Some(format!("{tag} text")),
        href: None,
    }
}

#[test]
fn ref_format() {
    assert!(is_ref("@e1"));
    assert!(is_ref("@e42"));
    assert!(!is_ref("@e"));
    // The shape is `@e` and digits; "@e0" and "@e01" have it but name no
    // allocation.
    assert!(is_ref("@e0"));
    assert!(is_ref("@e01"));
    assert!(!is_ref("e1"));
    assert!(!is_ref("@e1x"));
    assert!(validate_ref_format("@e7"));
    assert!(!validate_ref_format("#e7"));
}

#[test]
fn allocate_then_get() {
    let mut t = RefTable::new();
    assert_eq!(t.current_generation(), 0);
    let g = t.next_generation();
    assert_eq!(g, 1);
    let a = t.allocate(100);
    let b = t.allocate(200);
    assert_eq!(a, "@e1");
    assert_eq!(b, "@e2");
    let e = t.get("@e2").unwrap();
    assert_eq!(e.acb_id, 200);
    assert_eq!(e.generation, 1);
    assert!(t.get("@e3").is_none());
    assert!(t.get("nope").is_none());
    assert!(t.get("@e0").is_none());
    assert!(t.get("@e01").is_none());
}

#[test]
fn new_generation_invalidates_refs() {
    let mut t = RefTable::new();
    t.next_generation();
    let a = t.allocate(5);
    assert_eq!(parse_ref(&t, &a), Some(5));
    t.next_generation();
    // The entry remains but it belongs to an older generation: stale.
    assert!(t.get(&a).is_some());
    assert_eq!(parse_ref(&t, &a), None);
    // Refs are monotonic: the next one does not reuse the number.
    let b = t.allocate(5);
    assert_eq!(b, "@e2");
    assert_eq!(parse_ref(&t, &b), Some(5));
}

#[test]
fn allocate_keeps_other_refs() {
    let mut t = RefTable::new();
    let a = t.allocate(1);
    let _ = t.allocate(2);
    assert_eq!(parse_ref(&t, &a), Some(1));
    assert_eq!(parse_ref(&t, "@e9"), None);
    assert_eq!(parse_ref(&t, "bogus"), None);
}

#[test]
fn snapshot_numbers_items_and_links_parents() {
    let mut t = RefTable::new();
    let els = vec![
        raw(Some(10), None, "main"),
        raw(Some(11), Some(10), "a"),
        raw(Some(12), Some(99), "b"),
    ];
    let snap = build_snapshot(&mut t, &els);
    assert_eq!(snap.generation, 1);
    assert_eq!(snap.refs.len(), 3);
    assert_eq!(snap.refs[0].reference, "@e1");
    assert_eq!(snap.refs[1].reference, "@e2");
    assert_eq!(snap.refs[2].reference, "@e3");
    assert_eq!(snap.refs[0].tag, "main");
    assert_eq!(snap.refs[1].text, "a text");
    assert_eq!(snap.refs[0].parent_ref, None);
    assert_eq!(snap.refs[1].parent_ref, Some("@e1".to_string()));
    // A parent that has no ref gives no link.
    assert_eq!(snap.refs[2].parent_ref, None);
    assert_eq!(parse_ref(&t, "@e2"), Some(11));

    // A second snapshot continues the numbering and makes the first stale.
    let snap2 = build_snapshot(&mut t, &vec![raw(Some(10), None, "main")]);
    assert_eq!(snap2.generation, 2);
    assert_eq!(snap2.refs[0].reference, "@e4");
    assert_eq!(parse_ref(&t, "@e1"), None);
    assert_eq!(parse_ref(&t, "@e4"), Some(10));
}

#[test]
fn snapshot_skips_elements_without_id_and_defaults_fields() {
    let mut t = RefTable::new();
    let mut no_tag = raw(Some(3), None, "x");
    no_tag.tag = None;
    no_tag.text = None;
    let els = vec![no_tag, raw(None, None, "ghost"), raw(Some(0), None, "zero")];
    let snap = build_snapshot(&mut t, &els);
    assert_eq!(snap.refs.len(), 1);
    assert_eq!(snap.refs[0].tag, "");
    assert_eq!(snap.refs[0].text, "");
    assert_eq!(snap.refs[0].raw_index, 0);
}

#[test]
fn parents_link_by_helper_position() {
    let mut t = RefTable::new();
    // The stitching pass walks the helper's list by position: after an
    // element without an id, the parent named at position 1 lands on the
    // item at position 1.
    let els = vec![
        raw(Some(5), None, "root"),
        raw(None, Some(5), "ghost"),
        raw(Some(6), None, "child"),
    ];
    let snap = take_snapshot(&mut t, &els).unwrap();
    assert_eq!(snap.generation, 1);
    assert_eq!(snap.refs.len(), 2);
    assert_eq!(snap.refs[0].parent_ref, None);
    assert_eq!(snap.refs[1].reference, "@e2");
    assert_eq!(snap.refs[1].parent_ref, Some("@e1".to_string()));
    assert_eq!(snap.refs[1].raw_index, 2);
}

#[test]
fn parent_past_the_items_gives_no_snapshot() {
    let mut t = RefTable::new();
    // The element at position 2 names a parent that has a ref, but only two
    // items exist: no snapshot is taken and the table is left as it was.
    let els = vec![
        raw(None, Some(7), "ghost"),
        raw(Some(5), None, "root"),
        raw(Some(6), Some(5), "child"),
    ];
    assert!(take_snapshot(&mut t, &els).is_none());
    assert_eq!(t.current_generation(), 0);
    assert!(t.get("@e1").is_none());
    let els = vec![raw(Some(5), None, "a"), raw(None, Some(5), "b")];
    assert!(take_snapshot(&mut t, &els).is_none());
    // Without the dangling link the same list is taken.
    let els = vec![raw(Some(5), None, "a"), raw(None, None, "b")];
    let snap = take_snapshot(&mut t, &els).unwrap();
    assert_eq!(snap.refs.len(), 1);
    assert_eq!(snap.refs[0].parent_ref, None);
}

#[test]
fn ref_lives_until_the_next_generation() {
    let mut t = RefTable::new();
    t.next_generation();
    let a = t.allocate(9);
    for id in 10..20 {
        t.allocate(id);
        assert_eq!(parse_ref(&t, &a), Some(9));
    }
    t.next_generation();
    for id in 20..25 {
        t.allocate(id);
        assert_eq!(parse_ref(&t, &a), None);
    }
    t.next_generation();
    assert_eq!(parse_ref(&t, &a), None);
}
