use mailroom::envelope::Timestamp;
use mailroom::listing::{list_for, ListParams};
use mailroom::listing::{entry_before, is_meta_file, list_entries, matches_filter};
use mailroom::store::EntryMeta;

fn entry(name: &str, jd: Option<&str>, secs: i64, pinned: bool, starred: bool) -> EntryMeta {
    EntryMeta {
        envelope_id: name.to_string(),
        jd_address: jd.map(|s| s.to_string()),
        data_type: "text/journal".to_string(),
        source: "Manual".to_string(),
        created_at: Timestamp { secs, nanos: 0 },
        received_at: Timestamp { secs, nanos: 0 },
        meta: vec![],
        content_file: format!("{name}.md"),
        pinned,
        starred,
    }
}

fn ids(v: &[EntryMeta]) -> Vec<String> {
    v.iter().map(|e| e.envelope_id.clone()).collect()
}

#[test]
fn pinned_then_starred_then_newest_first() {
    let entries = vec![
        entry("old", Some("34.2"), 100, false, false),
        entry("star", Some("34.2"), 50, false, true),
        entry("new", Some("34.2"), 300, false, false),
        entry("pin", Some("34.2"), 10, true, false),
    ];
    let r = list_entries(entries, None, None);
    assert_eq!(ids(&r), vec!["pin", "star", "new", "old"]);
}

#[test]
fn equal_entries_keep_their_order() {
    let entries = vec![
        entry("a", Some("34.2"), 100, false, false),
        entry("b", Some("34.2"), 100, false, false),
        entry("c", Some("34.2"), 100, false, false),
    ];
    assert_eq!(ids(&list_entries(entries, None, None)), vec!["a", "b", "c"]);
}

#[test]
fn filter_is_an_address_prefix() {
    let entries = vec![
        entry("j", Some("34.2"), 1, false, false),
        entry("h", Some("35.1"), 2, false, false),
        entry("none", None, 3, false, false),
        entry("area", Some("34"), 4, false, false),
    ];
    assert_eq!(ids(&list_entries(entries, Some("34"), None)), vec!["area", "j"]);
}

#[test]
fn limit_cuts_and_defaults_to_fifty() {
    let many: Vec<EntryMeta> = (0..60).map(|i| entry(&format!("e{i}"), Some("1"), i, false, false)).collect();
    assert_eq!(list_entries(many, None, None).len(), 50);
    let few: Vec<EntryMeta> = (0..5).map(|i| entry(&format!("e{i}"), Some("1"), i, false, false)).collect();
    let r = list_entries(few, None, Some(2));
    assert_eq!(ids(&r), vec!["e4", "e3"]);
    let none: Vec<EntryMeta> = (0..3).map(|i| entry(&format!("e{i}"), Some("1"), i, false, false)).collect();
    assert!(list_entries(none, None, Some(0)).is_empty());
}

#[test]
fn sidecar_files_are_recognised_by_name() {
    assert!(is_meta_file("/lib/34.2_Journal/entries/x.meta.json"));
    assert!(!is_meta_file("/lib/34.2_Journal/entries/x.md"));
    assert!(!is_meta_file("/"));
    assert!(!is_meta_file("/lib/.."));
}

#[test]
fn filter_and_order_helpers() {
    let e = entry("x", Some("34.2"), 1, false, false);
    assert!(matches_filter(&e, None));
    assert!(matches_filter(&e, Some("34.2")));
    assert!(!matches_filter(&e, Some("34.3")));
    let newer = entry("y", Some("34.2"), 2, false, false);
    assert!(entry_before(&newer, &e));
    assert!(!entry_before(&e, &newer));
}

#[test]
fn list_params_apply_filter_and_cap() {
    let entries = vec![
        entry("a", Some("34.2"), 1, false, false),
        entry("b", Some("35"), 2, false, false),
        entry("c", Some("34.1"), 3, false, false),
    ];
    let r = list_for(entries, &ListParams { jd: Some("34".into()), limit: Some(1) });
    assert_eq!(ids(&r.entries), vec!["c"]);
    assert_eq!(r.total, 1);
}
