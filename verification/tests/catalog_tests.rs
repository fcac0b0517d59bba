use runboard::catalog::{build_catalog, CategoryKind, RawCategory};

fn raw(id: &str, name: &str, kind: &str) -> RawCategory {
    RawCategory { id: id.to_string(), name: name.to_string(), kind: kind.to_string() }
}

#[test]
fn build_and_get() {
    let raws = vec![raw("c1", "Any%", "per-game"), raw("c2", "All Cups", "per-level")];
    let catalog = build_catalog(&raws);
    let c1 = catalog.get("c1").expect("c1 should be present");
    assert_eq!(c1.name, "Any%");
    assert_eq!(c1.kind, CategoryKind::PerGame);
    let c2 = catalog.get("c2").expect("c2 should be present");
    assert_eq!(c2.kind, CategoryKind::PerLevel);
}

#[test]
fn unknown_type_tag_reads_as_misc() {
    let raws = vec![raw("c1", "Oddball", "whatever")];
    let catalog = build_catalog(&raws);
    assert_eq!(catalog.get("c1").unwrap().kind, CategoryKind::Misc);
}

#[test]
fn get_unknown_id_is_none() {
    let raws = vec![raw("c1", "Any%", "per-game")];
    let catalog = build_catalog(&raws);
    assert!(catalog.get("missing").is_none());
}

#[test]
fn build_twice_yields_equal_catalogs() {
    let raws = vec![
        raw("c1", "Any%", "per-game"),
        raw("c2", "100%", "per-game"),
        raw("c3", "Bonus", "misc"),
    ];
    let first = build_catalog(&raws);
    let second = build_catalog(&raws);
    assert_eq!(first, second);
    for id in ["c1", "c2", "c3"] {
        assert_eq!(first.get(id), second.get(id));
    }
}

#[test]
fn duplicate_id_last_wins() {
    let raws = vec![raw("c1", "Old", "per-level"), raw("c1", "New", "per-game")];
    let catalog = build_catalog(&raws);
    let c1 = catalog.get("c1").expect("c1 should be present");
    assert_eq!(c1.name, "New");
    assert_eq!(c1.kind, CategoryKind::PerGame);
}
