use mailroom::manifest::{blank_manifest, MailroomConfig, Manifest, NodeKind, RoutingConfig, StoreKind};
use mailroom::move_branch::{
    diff_line, diff_manifests, hardcoded_warnings, plan_move_branch, relative_manifest_path, rewire_routing,
    ExistingNest, FoundNest, ManifestField, MergeStrategy, MoveError, MoveStep,
};

fn test_manifest(id: &str, name: &str) -> Manifest {
    let mut m = blank_manifest(id, name, NodeKind::Leaf);
    m.accepts = vec!["media/book".to_string()];
    m.store = Some(StoreKind::Overwrite);
    m.mailroom = Some(MailroomConfig {
        active: true,
        requires_auth: false,
        notify_on_write: false,
        ai_classify: false,
        mints_subnests: false,
        child_addressing: None,
    });
    m
}

fn found(vault: &str, folder: &str, m: Manifest) -> FoundNest {
    FoundNest { dir: format!("{vault}/{folder}"), parent_dir: vault.to_string(), manifest: m }
}

#[test]
fn dry_run_touches_nothing() {
    let vault = "/vault";
    let manifest = test_manifest("52-B-bbbb2222", "Untouched");
    let src = found(vault, "52-B-bbbb2222_Untouched", manifest);
    let plan = plan_move_branch(vault, "52-B-bbbb2222", "663.45", MergeStrategy::Compare, true, Some(src), None)
        .unwrap();
    assert!(plan.report.dry_run);
    assert!(matches!(plan.step, MoveStep::Nothing), "dry run must not move anything");
    assert_eq!(plan.report.new_path, "/vault/663.45_Untouched");
    assert_eq!(plan.report.old_path, "/vault/52-B-bbbb2222_Untouched");
}

#[test]
fn hardcoded_address_triggers_a_warning_not_an_error() {
    let vault = "/vault";
    let manifest = test_manifest("82.2", "Unclassified");
    let src = found(vault, "82.2_Unclassified", manifest);
    let plan = plan_move_branch(vault, "82.2", "82.9", MergeStrategy::Compare, false, Some(src), None).unwrap();
    assert!(
        !plan.report.hardcoded_warnings.is_empty(),
        "renaming a known hardcoded fallback address must produce a warning"
    );
}

#[test]
fn plain_move_plan_readdresses_the_manifest() {
    let vault = "/vault";
    let src = found(vault, "52-B-aaaa1111_Old-Name", test_manifest("52-B-aaaa1111", "Old Name"));
    let plan = plan_move_branch(vault, "52-B-aaaa1111", "663.44", MergeStrategy::Compare, false, Some(src), None)
        .unwrap();
    assert!(!plan.report.merged_into_existing);
    assert_eq!(plan.report.new_path, "/vault/663.44_Old-Name");
    match plan.step {
        MoveStep::Move { manifest } => {
            assert_eq!(manifest.id, "663.44");
            assert_eq!(manifest.path, Some("663.44_Old-Name".to_string()));
            assert_eq!(manifest.name, "Old Name");
        }
        _ => panic!("expected a move"),
    }
}

#[test]
fn compare_mode_plans_nothing_and_reports_differences() {
    let vault = "/vault";
    let source = test_manifest("52-B-cccc3333", "Source Book");
    let mut dest = test_manifest("663.46", "Destination Book");
    dest.known_tags = vec!["already-classified".to_string()];
    let src = found(vault, "52-B-cccc3333_Source-Book", source);
    let existing = ExistingNest { dir: "/vault/663.46_Destination-Book".to_string(), manifest: dest };
    let plan = plan_move_branch(vault, "52-B-cccc3333", "663.46", MergeStrategy::Compare, false, Some(src), Some(existing))
        .unwrap();
    assert!(plan.report.merged_into_existing);
    assert_eq!(plan.report.manifest_diffs, vec![ManifestField::Name, ManifestField::KnownTags]);
    assert!(matches!(plan.step, MoveStep::Nothing));
}

#[test]
fn take_source_rewrites_destination_with_source_manifest() {
    let vault = "/vault";
    let src = found(vault, "52-B-dddd4444_Source-Book", test_manifest("52-B-dddd4444", "Source Book"));
    let existing = ExistingNest {
        dir: "/vault/663.47_Old-Destination-Name".to_string(),
        manifest: test_manifest("663.47", "Old Destination Name"),
    };
    let plan = plan_move_branch(vault, "52-B-dddd4444", "663.47", MergeStrategy::TakeSource, false, Some(src), Some(existing))
        .unwrap();
    match plan.step {
        MoveStep::Merge { rewrite: Some(m) } => {
            assert_eq!(m.name, "Source Book");
            assert_eq!(m.id, "663.47");
            assert_eq!(m.path, Some("663.47_Old-Destination-Name".to_string()));
        }
        _ => panic!("expected a merge that rewrites the destination"),
    }
}

#[test]
fn keep_destination_merges_without_rewriting() {
    let vault = "/vault";
    let src = found(vault, "52-B-eeee5555_Source-Book", test_manifest("52-B-eeee5555", "Source Book"));
    let existing = ExistingNest {
        dir: "/vault/663.48_Kept-Destination".to_string(),
        manifest: test_manifest("663.48", "Kept Destination"),
    };
    let plan = plan_move_branch(vault, "52-B-eeee5555", "663.48", MergeStrategy::KeepDestination, false, Some(src), Some(existing))
        .unwrap();
    assert!(matches!(plan.step, MoveStep::Merge { rewrite: None }));
}

#[test]
fn missing_source_is_an_error() {
    let r = plan_move_branch("/vault", "nope", "1", MergeStrategy::Compare, false, None, None);
    assert!(matches!(r, Err(MoveError::NoSuchNest)));
}

#[test]
fn destination_outside_the_vault_is_an_error() {
    let src = FoundNest {
        dir: "/elsewhere/52-B_x".to_string(),
        parent_dir: "/elsewhere".to_string(),
        manifest: test_manifest("52-B", "x"),
    };
    let r = plan_move_branch("/vault", "52-B", "60", MergeStrategy::Compare, false, Some(src), None);
    assert!(matches!(r, Err(MoveError::OutsideVault)));
    assert_eq!(relative_manifest_path("/elsewhere/60_x", "/vault"), Err(MoveError::OutsideVault));
    assert_eq!(relative_manifest_path("/vault/a/b", "/vault"), Ok(Some("a/b".to_string())));
}

#[test]
fn routing_rules_pointing_at_the_old_id_get_rewired() {
    let mut router = test_manifest("34", "Router Nest");
    router.routing = Some(RoutingConfig {
        rules: vec![
            ("text/journal".to_string(), "52-B-ffff6666".to_string()),
            ("text/other".to_string(), "12".to_string()),
        ],
    });
    let changed = rewire_routing(&mut router, "52-B-ffff6666", "663.49");
    assert_eq!(changed, vec!["text/journal".to_string()]);
    let rules = router.routing.unwrap().rules;
    assert_eq!(rules[0], ("text/journal".to_string(), "663.49".to_string()));
    assert_eq!(rules[1], ("text/other".to_string(), "12".to_string()));
}

#[test]
fn identical_manifests_have_no_differences() {
    let a = test_manifest("1", "Same");
    let b = test_manifest("2", "Same");
    assert!(diff_manifests(&a, &b).is_empty());
    assert_eq!(ManifestField::CallNumber.label(), "call_number");
}

#[test]
fn warning_names_the_address_and_where_it_is_hardcoded() {
    let w = hardcoded_warnings("39.2-3C");
    assert_eq!(w.len(), 1);
    assert!(w[0].starts_with("'39.2-3C' is hardcoded as a literal fallback in routes/journal.rs"));
    assert!(hardcoded_warnings("12.3").is_empty());
}

#[test]
fn a_differing_field_is_reported_on_one_line() {
    assert_eq!(
        diff_line(ManifestField::Name, "\"Old\"", "\"New\""),
        "name: source = \"Old\"  |  destination = \"New\""
    );
    assert_eq!(
        diff_line(ManifestField::KnownTags, "[]", "[\"a\"]"),
        "known_tags: source = []  |  destination = [\"a\"]"
    );
}
