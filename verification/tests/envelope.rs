use mailroom::envelope::{
    is_earlier, meta_get, set_meta, Envelope, InboundEnvelope, Payload, Source, Timestamp,
};

fn t(secs: i64, nanos: u32) -> Timestamp {
    Timestamp { secs, nanos }
}

#[test]
fn metadata_is_set_in_place_or_appended() {
    let mut meta = vec![];
    set_meta(&mut meta, "title", "A".to_string());
    set_meta(&mut meta, "filename", "a.pdf".to_string());
    set_meta(&mut meta, "title", "B".to_string());
    assert_eq!(meta, vec![("title".to_string(), "B".to_string()), ("filename".to_string(), "a.pdf".to_string())]);
    assert_eq!(meta_get(&meta, "title"), Some(&"B".to_string()));
    assert_eq!(meta_get(&meta, "missing"), None);
}

#[test]
fn with_meta_changes_only_the_metadata() {
    let e = Envelope::with_identity(3, t(10, 0), Source::Manual, "text/plain".into(), Payload::Text("x".into()), None);
    let e = e.with_meta("title", "T".to_string());
    assert_eq!(e.id, 3);
    assert_eq!(e.meta, vec![("title".to_string(), "T".to_string())]);
    assert_eq!(e.created_at, t(10, 0));
}

#[test]
fn inbound_envelopes_take_an_id_and_reception_time() {
    let inbound = InboundEnvelope {
        source: Source::Manual,
        data_type: "text/journal".into(),
        payload: Payload::Text("x".into()),
        jd_address: Some("34.2".into()),
        meta: vec![],
        tags: vec![],
        created_at: Some(t(5, 0)),
    };
    let e = inbound.clone().into_envelope_at(9, t(20, 0));
    assert_eq!(e.id, 9);
    assert_eq!(e.created_at, t(5, 0));
    assert_eq!(e.received_at, t(20, 0));
    let mut undated = inbound;
    undated.created_at = None;
    let e = undated.into_envelope_at(9, t(20, 0));
    assert_eq!(e.created_at, t(20, 0));
}

#[test]
fn fresh_envelopes_are_created_when_received() {
    let e = Envelope::new(Source::Manual, "text/plain".into(), Payload::Text("x".into()), Some("1".into()));
    assert_eq!(e.created_at, e.received_at);
    let other = Envelope::new(Source::Manual, "text/plain".into(), Payload::Text("x".into()), None);
    assert_ne!(e.id, other.id);
}

#[test]
fn time_order() {
    assert!(is_earlier(t(1, 5), t(2, 0)));
    assert!(is_earlier(t(1, 5), t(1, 6)));
    assert!(!is_earlier(t(1, 5), t(1, 5)));
}
