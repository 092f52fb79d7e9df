use mailroom::cli::{
    derive_name, matches_code, parse_add_nest, parse_kind, parse_move_branch, parse_refresh_schema,
    init_verb, pick_match, plan_add_nest, should_write_nest, refresh_paths, require_value, scan, AddNestPlan, ArgItem,
    RefreshEnv, SearchError, Tool,
};
use mailroom::manifest::NodeKind;
use mailroom::move_branch::MergeStrategy;

fn args(v: &[&str]) -> Vec<String> {
    v.iter().map(|s| s.to_string()).collect()
}

#[test]
fn require_value_takes_the_next_argument() {
    let a = args(&["--id", "12-B", "--name"]);
    let mut i = 0;
    assert_eq!(require_value(&a, &mut i, "--id"), Ok("12-B".to_string()));
    assert_eq!(i, 2);
    assert_eq!(require_value(&a, &mut i, "--name"), Err("--name requires a value".to_string()));
    assert_eq!(i, 2);
}

#[test]
fn kinds_by_name() {
    assert_eq!(parse_kind("leaf"), NodeKind::Leaf);
    assert_eq!(parse_kind("domain"), NodeKind::Domain);
    assert_eq!(parse_kind("Leaf"), NodeKind::Inferred);
    assert_eq!(parse_kind("archive"), NodeKind::Archive);
}

#[test]
fn scanning_reads_values_switches_and_strays() {
    let (items, missing) = scan(Tool::AddNest, &args(&["--name", "--id", "x", "--force", "odd"]));
    assert!(missing.is_none());
    assert_eq!(items.len(), 4);
    assert!(matches!(&items[0], ArgItem::Valued(f, v) if f == "--name" && v == "--id"));
    assert!(matches!(&items[1], ArgItem::Stray(s) if s == "x"));
    assert!(matches!(&items[2], ArgItem::Switch(s) if s == "--force"));
    assert!(matches!(&items[3], ArgItem::Stray(s) if s == "odd"));
}

#[test]
fn add_nest_arguments() {
    let p = parse_add_nest(&args(&["--id", "1", "--id", "12-B", "--kind", "leaf", "--force", "--bogus"]));
    let a = p.result.unwrap();
    assert_eq!(a.id, "12-B");
    assert_eq!(a.kind, NodeKind::Leaf);
    assert!(a.force);
    assert_eq!(a.name, None);
    assert_eq!(p.notices, vec!["Unrecognized argument: --bogus (ignoring)".to_string()]);

    let p = parse_add_nest(&args(&["--kind", "tree"]));
    assert_eq!(p.result.unwrap_err(), "missing required --id");
    assert_eq!(p.notices, vec!["Unrecognized --kind 'tree', defaulting to inferred".to_string()]);

    let p = parse_add_nest(&args(&["--id", "1", "--target"]));
    assert_eq!(p.result.unwrap_err(), "--target requires a value");
}

#[test]
fn add_nest_modes() {
    let a = parse_add_nest(&args(&["--id", "35-I", "--parent", "35_health"])).result.unwrap();
    assert_eq!(
        plan_add_nest(a, Some("/vault".into())).unwrap_err(),
        "--parent mode requires --name (a new folder is being created)"
    );
    let a = parse_add_nest(&args(&["--id", "35-I", "--name", "new-thing", "--parent", "35_health", "--vault", "/v"]))
        .result
        .unwrap();
    match plan_add_nest(a, None).unwrap() {
        AddNestPlan::CreateNew { id, name, parent, .. } => {
            assert_eq!(id, "35-I");
            assert_eq!(name, "new-thing");
            assert_eq!(parent, "/v/35_health");
        }
        _ => panic!(),
    }
    let a = parse_add_nest(&args(&["--id", "35-I", "--target", "/abs/35-I_existing-folder"])).result.unwrap();
    match plan_add_nest(a, None).unwrap() {
        AddNestPlan::InitInPlace { target, name, .. } => {
            assert_eq!(target, "/abs/35-I_existing-folder");
            assert_eq!(name, "existing-folder");
        }
        _ => panic!(),
    }
    let a = parse_add_nest(&args(&["--id", "12-B"])).result.unwrap();
    match plan_add_nest(a, None).unwrap() {
        AddNestPlan::Search { vault_root, .. } => assert_eq!(vault_root, "."),
        _ => panic!(),
    }
}

#[test]
fn directory_names_match_codes_without_case() {
    assert!(matches_code("12-B_Something", "12-b"));
    assert!(matches_code("12-B", "12-B"));
    assert!(!matches_code("12-BB", "12-B"));
    assert!(!matches_code("12", "12-B"));
    assert!(matches_code("12-B.notes", "12-B"));
}

#[test]
fn names_come_from_directories() {
    assert_eq!(derive_name("/v/12-B_Some-Name", "12-B"), "Some-Name");
    assert_eq!(derive_name("/v/12-B", "12-B"), "12-B");
    assert_eq!(derive_name("/v/12-B__", "12-B"), "12-B__");
}

#[test]
fn search_needs_exactly_one_match() {
    let e = pick_match(vec![], "/v", "12-B").unwrap_err();
    assert_eq!(e.message(), "No directory under /v matches code \"12-B\". Pass --target or --parent explicitly.");
    assert_eq!(pick_match(vec!["/v/12-B_x".into()], "/v", "12-B").unwrap(), "/v/12-B_x");
    let e = pick_match(vec!["/a".into(), "/b".into()], "/v", "12-B").unwrap_err();
    assert!(matches!(e, SearchError::Ambiguous { ref matches } if matches.len() == 2));
    assert_eq!(e.message(), "Ambiguous — pass --target to disambiguate.");
}

#[test]
fn refresh_schema_paths_default_into_the_vault() {
    let a = parse_refresh_schema(&args(&["--vault", "/o", "--skip-pull"])).result.unwrap();
    assert!(a.skip_pull);
    let env = RefreshEnv { vault: None, script: None, schema_path: None };
    let p = refresh_paths(&a, &env);
    assert_eq!(p.vault_root, "/o");
    assert_eq!(p.script_path, "/o/18_shells-scripts/build-ron-from-index.py");
    assert_eq!(p.schema_path, "/o/schema.ron");
    let env = RefreshEnv { vault: Some("/e".into()), script: Some("/s.py".into()), schema_path: None };
    let a = parse_refresh_schema(&args(&[])).result.unwrap();
    let p = refresh_paths(&a, &env);
    assert_eq!(p.vault_root, "/e");
    assert_eq!(p.script_path, "/s.py");
    assert_eq!(p.schema_path, "/e/schema.ron");
}

#[test]
fn move_branch_arguments() {
    let a = parse_move_branch(&args(&["--from", "52-B-1", "--to", "663.44", "--merge", "take-source", "--dry-run"]))
        .result
        .unwrap();
    assert_eq!(a.from_id, "52-B-1");
    assert_eq!(a.to_id, "663.44");
    assert_eq!(a.merge, MergeStrategy::TakeSource);
    assert!(a.dry_run);
    let a = parse_move_branch(&args(&["--from", "a", "--to", "b"])).result.unwrap();
    assert_eq!(a.merge, MergeStrategy::Compare);
    assert_eq!(
        parse_move_branch(&args(&["--merge", "sideways", "--to"])).result.unwrap_err(),
        "Unknown --merge value 'sideways' — expected keep-destination, take-source, or compare"
    );
    assert_eq!(parse_move_branch(&args(&["--to", "b"])).result.unwrap_err(), "missing required --from");
    assert_eq!(parse_move_branch(&args(&["--from", "a"])).result.unwrap_err(), "missing required --to");
}

#[test]
fn a_nest_is_written_in_place_only_when_absent_or_forced() {
    assert!(should_write_nest(false, false));
    assert!(!should_write_nest(true, false));
    assert!(should_write_nest(true, true));
    assert_eq!(init_verb(true), "Re-initialized (forced)");
    assert_eq!(init_verb(false), "Initialized");
}
