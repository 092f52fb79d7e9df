use mailroom::jd_index::{index_path, JdEntry, JohnnyDecimalIndex};

fn entry(address: &str, title: &str, agent: Option<&str>) -> JdEntry {
    JdEntry {
        address: address.to_string(),
        title: title.to_string(),
        description: None,
        agent: agent.map(|s| s.to_string()),
        tags: vec![],
    }
}

#[test]
fn a_later_entry_for_an_address_replaces_the_earlier() {
    let idx = JohnnyDecimalIndex::from_entries(vec![
        entry("12.34", "First", None),
        entry("12.35", "Other", Some("coder")),
        entry("12.34", "Second", Some("writer")),
    ]);
    assert_eq!(idx.entries.len(), 2);
    assert_eq!(idx.entries[0].title, "Second");
    assert_eq!(idx.agent_for("12.34"), Some("writer"));
    assert_eq!(idx.agent_for("12.35"), Some("coder"));
    assert_eq!(idx.agent_for("99"), None);
}

#[test]
fn lookup_takes_prefixes() {
    let idx = JohnnyDecimalIndex::from_entries(vec![
        entry("12.34", "A", None),
        entry("13.01", "B", None),
        entry("12.40", "C", None),
    ]);
    let titles: Vec<&str> = idx.lookup("12").iter().map(|e| e.title.as_str()).collect();
    assert_eq!(titles, vec!["A", "C"]);
    assert!(idx.lookup("14").is_empty());
    assert_eq!(idx.lookup("").len(), 3);
    assert!(JohnnyDecimalIndex::empty().entries.is_empty());
    assert_eq!(index_path("./jd"), "./jd/index.json");
}

#[test]
fn no_agent_named_means_none() {
    let idx = JohnnyDecimalIndex::from_entries(vec![entry("1", "x", None)]);
    assert_eq!(idx.agent_for("1"), None);
}
