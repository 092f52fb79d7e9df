use mailroom::manifest::{blank_manifest, Manifest, NodeKind};
use mailroom::registry::{is_manifest_file, Registry};

fn m(id: &str, name: &str) -> Manifest {
    blank_manifest(id, name, NodeKind::Leaf)
}

#[test]
fn a_later_manifest_with_the_same_id_wins() {
    let r = Registry::from_manifests(vec![m("34.2", "Old"), m("35", "Health"), m("34.2", "Journal")]);
    assert_eq!(r.node_count, 2);
    assert_eq!(r.get("34.2").unwrap().name, "Journal");
    assert!(r.get("99").is_none());
}

#[test]
fn insert_then_get() {
    let mut r = Registry::empty();
    assert_eq!(r.node_count, 0);
    r.insert(m("52-B-1a2b3c4d", "Book"));
    assert_eq!(r.get("52-B-1a2b3c4d").unwrap().name, "Book");
    assert_eq!(r.node_count, 1);
    r.insert(m("52-B-1a2b3c4d", "Renamed"));
    assert_eq!(r.node_count, 1);
    assert_eq!(r.get("52-B-1a2b3c4d").unwrap().name, "Renamed");
}

#[test]
fn areas_and_address_order() {
    let r = Registry::from_manifests(vec![m("35.1", "a"), m("34.2", "b"), m("35", "c"), m("3", "d")]);
    let area: Vec<&str> = r.get_area("35").iter().map(|m| m.id.as_str()).collect();
    assert_eq!(area, vec!["35.1", "35"]);
    let all: Vec<&str> = r.all().iter().map(|m| m.id.as_str()).collect();
    assert_eq!(all, vec!["3", "34.2", "35", "35.1"]);
}

#[test]
fn manifest_files_are_named_dot_mailroom() {
    assert!(is_manifest_file("/vault/34.2_Journal/.mailroom"));
    assert!(!is_manifest_file("/vault/34.2_Journal/nest"));
    assert!(!is_manifest_file("/"));
}

#[test]
fn effective_paths_and_rookeries() {
    let mut x = m("34.2", "Journal");
    assert_eq!(x.effective_path(), "34.2_Journal");
    assert!(!x.mints_subnests());
    x.path = Some("34_My-story/34.2_Journal".to_string());
    assert_eq!(x.effective_path(), "34_My-story/34.2_Journal");
}

#[test]
fn an_unparseable_manifest_fails_the_load() {
    let r = Registry::from_parsed(vec![Ok(m("34.2", "Journal")), Err("bad toml".to_string()), Err("worse".to_string())]);
    assert_eq!(r.err(), Some("bad toml".to_string()));
    let r = Registry::from_parsed(vec![Ok(m("34.2", "Journal")), Ok(m("35", "Health"))]).unwrap();
    assert_eq!(r.node_count, 2);
    assert_eq!(r.get("35").unwrap().name, "Health");
}
