use mailroom::envelope::{Envelope, Payload, Source, Timestamp};
use mailroom::manifest::{blank_manifest, MailroomConfig, Manifest, NodeKind};
use mailroom::registry::Registry;
use mailroom::routing::{
    accepted, is_valid_jd_address, pattern_takes, route, takes_type,
    trim_stars, upload_envelope_at, upload_target, Dispatch, RoutingAction,
    UploadError, UploadForm, UploadTarget,
};

fn t0() -> Timestamp {
    Timestamp { secs: 1_750_084_320, nanos: 0 }
}

fn nest(id: &str, name: &str, accepts: &[&str], rookery: bool) -> Manifest {
    let mut m = blank_manifest(id, name, NodeKind::Leaf);
    m.accepts = accepts.iter().map(|s| s.to_string()).collect();
    if rookery {
        m.mailroom = Some(MailroomConfig {
            active: true,
            requires_auth: false,
            notify_on_write: false,
            ai_classify: false,
            mints_subnests: true,
            child_addressing: None,
        });
    }
    m
}

fn registry() -> Registry {
    Registry::from_manifests(vec![
        nest("34.2", "Journal", &["text/*"], false),
        nest("52-B", "books", &[], true),
        nest("35.1", "Fitness", &["data/steps"], false),
    ])
}

fn envelope(jd: Option<&str>, data_type: &str) -> Envelope {
    Envelope::with_identity(
        7,
        t0(),
        Source::Manual,
        data_type.to_string(),
        Payload::Text("x".to_string()),
        jd.map(|s| s.to_string()),
    )
}

#[test]
fn no_address_waits_for_classification() {
    let reg = registry();
    match route(&reg, &envelope(None, "text/journal")) {
        Dispatch::Answer(r) => {
            assert_eq!(r.status, 202);
            assert_eq!(r.decision.routed_to, "82.2");
            assert_eq!(r.decision.node_name, Some("Unclassified".to_string()));
            assert_eq!(r.decision.action, RoutingAction::PendingClassification);
            assert_eq!(r.decision.envelope_id, 7);
        }
        _ => panic!("expected an answer"),
    }
}

#[test]
fn unknown_address_goes_to_unclassified() {
    let reg = registry();
    match route(&reg, &envelope(Some("99.9"), "text/journal")) {
        Dispatch::Answer(r) => {
            assert_eq!(r.status, 202);
            assert_eq!(r.decision.routed_to, "82.2");
            assert_eq!(r.decision.node_name, Some("Unclassified".to_string()));
            assert_eq!(r.decision.action, RoutingAction::Unclassified);
            assert_eq!(r.decision.envelope_id, 7);
        }
        _ => panic!("expected an answer"),
    }
}

#[test]
fn prefix_pattern_accepts_and_stores() {
    let reg = registry();
    match route(&reg, &envelope(Some("34.2"), "text/journal")) {
        Dispatch::Store(m) => assert_eq!(m.id, "34.2"),
        _ => panic!("expected a store"),
    }
}

#[test]
fn rookery_mints_a_child() {
    let reg = registry();
    match route(&reg, &envelope(Some("52-B"), "media/book")) {
        Dispatch::Mint(g) => assert_eq!(g.name, "books"),
        _ => panic!("expected a mint"),
    }
}

#[test]
fn rejected_type_goes_to_unclassified_with_200() {
    let reg = registry();
    match route(&reg, &envelope(Some("35.1"), "text/journal")) {
        Dispatch::Answer(r) => {
            assert_eq!(r.status, 200);
            assert_eq!(r.decision.action, RoutingAction::TypeMismatch);
            assert_eq!(r.decision.routed_to, "82.2");
        }
        _ => panic!("expected an answer"),
    }
}

#[test]
fn accepted_reply_names_where_it_landed() {
    let r = accepted(9, "52-B-1a2b3c4d", "some-book", 201);
    assert_eq!(r.status, 201);
    assert_eq!(r.decision.envelope_id, 9);
    assert_eq!(r.decision.routed_to, "52-B-1a2b3c4d");
    assert_eq!(r.decision.node_name, Some("some-book".to_string()));
    assert_eq!(r.decision.action, RoutingAction::Accepted);
}

#[test]
fn jd_address_shape_check() {
    assert!(is_valid_jd_address("34"));
    assert!(is_valid_jd_address(" 34.2-A\n"));
    assert!(!is_valid_jd_address(""));
    assert!(!is_valid_jd_address("   "));
    assert!(!is_valid_jd_address("maybe 34.2?"));
}

#[test]
fn accepts_patterns() {
    assert!(pattern_takes("any", "whatever/thing"));
    assert!(pattern_takes("text/journal", "text/journal"));
    assert!(pattern_takes("text/*", "text/journal"));
    assert!(pattern_takes("text/**", "text/x"));
    assert!(!pattern_takes("text/*", "media/book"));
    assert!(takes_type(&vec![], "anything"));
    assert!(!takes_type(&vec!["a".to_string()], "b"));
    assert_eq!(trim_stars("a**"), "a");
}

#[test]
fn upload_needs_file_type_and_address() {
    let form = UploadForm { file: None, filename: None, data_type: Some("media/book".into()), jd_address: Some("52-B".into()), title: None };
    match upload_envelope_at(form, 1, t0()) {
        Err(e) => assert_eq!(e.message(), "upload requires 'file', 'data_type', and 'jd_address' fields"),
        Ok(_) => panic!(),
    }
}

#[test]
fn upload_builds_a_manual_bytes_envelope_with_metadata() {
    let form = UploadForm {
        file: Some(vec![1, 2, 3]),
        filename: Some("book.pdf".into()),
        data_type: Some("media/book".into()),
        jd_address: Some("52-B".into()),
        title: Some("A Title".into()),
    };
    let e = upload_envelope_at(form, 5, t0()).unwrap();
    assert_eq!(e.id, 5);
    assert_eq!(e.data_type, "media/book");
    assert_eq!(e.jd_address, Some("52-B".to_string()));
    assert!(matches!(e.payload, Payload::Bytes(ref b) if b == &vec![1, 2, 3]));
    assert!(matches!(e.source, Source::Manual));
    assert_eq!(
        e.meta,
        vec![("title".to_string(), "A Title".to_string()), ("filename".to_string(), "book.pdf".to_string())]
    );
}

#[test]
fn upload_target_refuses_unknown_addresses() {
    let reg = registry();
    match upload_target(&reg, "00.0") {
        Err(e) => assert_eq!(e.message(), "unknown jd_address: 00.0"),
        Ok(_) => panic!(),
    }
    assert!(matches!(upload_target(&reg, "52-B"), Ok(UploadTarget::Mint(_))));
    assert!(matches!(upload_target(&reg, "35.1"), Ok(UploadTarget::Store(_))));
    assert!(matches!(UploadError::MissingFields, UploadError::MissingFields));
}
