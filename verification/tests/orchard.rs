use mailroom::manifest::NodeKind;
use mailroom::orchard::{generate_fresh_tree, schema_to_orchard, Dodo, Orchard, SchemaNode};
use mailroom::route::{Route, RouteStatus};

fn node(code: &str, name: &str, children: Vec<SchemaNode>) -> SchemaNode {
    SchemaNode { code: code.to_string(), name: name.to_string(), note: String::new(), children }
}

fn schema() -> Vec<SchemaNode> {
    vec![
        node("30", "User", vec![node("34", "My-story", vec![node("34.2", "Journal", vec![])]), node("35", "Health", vec![])]),
        node("80", "Data", vec![]),
    ]
}

#[test]
fn schema_nodes_become_blank_inferred_nests() {
    let s = node("34", "My-story", vec![node("34.2", "Journal", vec![])]);
    let n = schema_to_orchard(&s);
    assert_eq!(n.manifest.id, "34");
    assert_eq!(n.manifest.name, "My-story");
    assert_eq!(n.manifest.kind, NodeKind::Inferred);
    assert!(n.manifest.path.is_none() && n.manifest.accepts.is_empty() && n.manifest.mailroom.is_none());
    assert_eq!(n.children.len(), 1);
    assert_eq!(n.children[0].manifest.id, "34.2");
}

#[test]
fn stations_come_parent_first_under_their_parents() {
    let orchard = generate_fresh_tree(&schema());
    let stations = orchard.materialize("/vault");
    let dirs: Vec<&str> = stations.iter().map(|s| s.dir.as_str()).collect();
    assert_eq!(
        dirs,
        vec![
            "/vault/30_User",
            "/vault/30_User/34_My-story",
            "/vault/30_User/34_My-story/34.2_Journal",
            "/vault/30_User/35_Health",
            "/vault/80_Data",
        ]
    );
    assert_eq!(stations[2].manifest.id, "34.2");
}

#[test]
fn an_empty_orchard_has_no_stations() {
    let o = Orchard::new(vec![]);
    assert!(o.materialize("/vault").is_empty());
}

#[test]
fn the_dodo_starts_from_its_top_nest() {
    let top = schema_to_orchard(&node("82", "Mailroom", vec![]));
    let d = Dodo { top_nest: top, available_nests: vec![], current_route: Route::new("dodo-1", vec![]) };
    assert_eq!(d.get_home_nest().manifest.id, "82");
    assert_eq!(d.current_route.status, RouteStatus::NotStarted);
}
