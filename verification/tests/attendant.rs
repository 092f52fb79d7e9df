use mailroom::attendant::{
    child_slug, content_hash_child_id, hash_source, plan_intake, HashSource, Intake, IntakeError,
};
use mailroom::envelope::{Envelope, Payload, Source, Timestamp};
use mailroom::manifest::{blank_manifest, MailroomConfig, Manifest, NodeKind, StoreKind};
use mailroom::registry::Registry;

fn gate(addressing: Option<&str>) -> Manifest {
    let mut g = blank_manifest("52-B", "books", NodeKind::Collection);
    g.path = Some("52_Library/52-B_books".to_string());
    g.mailroom = Some(MailroomConfig {
        active: true,
        requires_auth: false,
        notify_on_write: false,
        ai_classify: false,
        mints_subnests: true,
        child_addressing: addressing.map(|s| s.to_string()),
    });
    g
}

const SAMPLE_ID: u128 = 152801709409927178017767423162689046071;

fn book(meta: Vec<(&str, &str)>) -> Envelope {
    let mut e = Envelope::with_identity(
        SAMPLE_ID,
        Timestamp { secs: 0, nanos: 0 },
        Source::Manual,
        "media/book".to_string(),
        Payload::Bytes(vec![1, 2, 3]),
        Some("52-B".to_string()),
    );
    for (k, v) in meta {
        e = e.with_meta(k, v.to_string());
    }
    e
}

// SHA-256("abc") = ba7816bf8f01cfea414140de5dae2223b00361a396177a9cb410ff61f20015ad
fn content() -> Vec<u8> {
    b"abc".to_vec()
}

#[test]
fn child_ids_are_the_gate_and_eight_hash_characters() {
    assert_eq!(content_hash_child_id(&gate(None), Some(&content())).unwrap(), "52-B-ba7816bf");
    // SHA-256 of nothing is e3b0c442...
    assert_eq!(content_hash_child_id(&gate(None), Some(&vec![])).unwrap(), "52-B-e3b0c442");
    assert!(matches!(content_hash_child_id(&gate(None), None), Err(IntakeError::NothingToHash)));
}

#[test]
fn child_names_come_from_title_then_filename_then_id() {
    let phrases = vec!["(z-lib.org)".to_string()];
    assert_eq!(child_slug(&book(vec![("title", "Sour Beers (z-lib.org)"), ("filename", "f.pdf")]), &phrases), "Sour-Beers");
    assert_eq!(child_slug(&book(vec![("filename", "my file.pdf")]), &phrases), "my-file.pdf");
    assert_eq!(child_slug(&book(vec![]), &phrases), "72f489ec-def5-4bca-8e7d-8c25bc60c637");
}

#[test]
fn a_fresh_child_is_minted_under_the_gate() {
    let reg = Registry::empty();
    let e = book(vec![("title", "Test Book One"), ("call_number", "QA76")]);
    match plan_intake(&reg, &e, &gate(None), Some(&content()), &[]).unwrap() {
        Intake::Mint(m) => {
            assert_eq!(m.id, "52-B-ba7816bf");
            assert_eq!(m.name, "Test-Book-One");
            assert_eq!(m.path, Some("52_Library/52-B_books/52-B-ba7816bf_Test-Book-One".to_string()));
            assert_eq!(m.kind, NodeKind::Leaf);
            assert_eq!(m.accepts, vec!["media/book".to_string()]);
            assert_eq!(m.store, Some(StoreKind::Overwrite));
            assert_eq!(m.call_number, Some("QA76".to_string()));
            let c = m.mailroom.unwrap();
            assert!(c.active && !c.mints_subnests);
        }
        _ => panic!("expected a mint"),
    }
}

#[test]
fn the_same_content_finds_its_existing_child() {
    let mut existing = blank_manifest("52-B-ba7816bf", "Already-Here", NodeKind::Leaf);
    existing.path = Some("x".into());
    let reg = Registry::from_manifests(vec![existing]);
    match plan_intake(&reg, &book(vec![]), &gate(Some("content_hash")), Some(&content()), &[]).unwrap() {
        Intake::Existing(m) => assert_eq!(m.name, "Already-Here"),
        _ => panic!("expected a dedup hit"),
    }
}

#[test]
fn unknown_strategies_and_unhashable_content_are_refused() {
    let reg = Registry::empty();
    let e = plan_intake(&reg, &book(vec![]), &gate(Some("isbn")), Some(&content()), &[]).err().unwrap();
    assert_eq!(e.message(), "Rookery 52-B requests unknown child_addressing strategy 'isbn' — only 'content_hash' exists today");
    let e = plan_intake(&reg, &book(vec![]), &gate(None), None, &[]).err().unwrap();
    assert_eq!(
        e.message(),
        "content_hash addressing needs hashable content — this envelope's payload (e.g. a bare Url) has nothing local to hash"
    );
}

#[test]
fn the_hash_is_taken_over_what_the_payload_holds() {
    assert!(matches!(hash_source(&Payload::Text("abc".into())), HashSource::Bytes(ref b) if b == b"abc"));
    assert!(matches!(hash_source(&Payload::Bytes(vec![9, 8])), HashSource::Bytes(ref b) if b == &vec![9u8, 8]));
    assert!(matches!(hash_source(&Payload::Json(serde_json::Value::Bool(true))), HashSource::Bytes(ref b) if b == b"true"));
    assert!(matches!(hash_source(&Payload::FilePath("/a/b".into())), HashSource::File(ref p) if p == "/a/b"));
    assert!(matches!(hash_source(&Payload::Url("http://x".into())), HashSource::Nothing));
}

#[test]
fn sending_the_same_content_twice_mints_once() {
    let mut reg = Registry::empty();
    let first = book(vec![("title", "Sour Beers")]);
    let child = match plan_intake(&reg, &first, &gate(None), Some(&content()), &[]).unwrap() {
        Intake::Mint(m) => m,
        _ => panic!("expected a mint"),
    };
    reg.insert(child.clone());
    let again = book(vec![("title", "Another Title")]);
    match plan_intake(&reg, &again, &gate(None), Some(&content()), &[]).unwrap() {
        Intake::Existing(m) => assert_eq!((&m.id, &m.name), (&child.id, &child.name)),
        _ => panic!("expected a dedup hit"),
    }
    assert_eq!(reg.node_count, 1);
}
