use mailroom::envelope::{Envelope, Payload, Source, Timestamp};
use mailroom::store::{
    build_filename, content_extension, origin_code, payload_body, plan_store, source_label,
    ContentBody, EntryMeta,
};

const SAMPLE_ID: u128 = 152801709409927178017767423162689046071;

fn sample(source: Source, payload: Payload, jd: Option<&str>) -> Envelope {
    Envelope::with_identity(
        SAMPLE_ID,
        Timestamp { secs: 1_750_084_320, nanos: 0 },
        source,
        "text/journal".to_string(),
        payload,
        jd.map(|s| s.to_string()),
    )
}

#[test]
fn origin_codes() {
    assert_eq!(origin_code(&Source::Manual), "MAN");
    assert_eq!(origin_code(&Source::Device("d".into())), "DEV");
    assert_eq!(origin_code(&Source::WebHook("w".into())), "WEB");
    assert_eq!(origin_code(&Source::Internal("i".into())), "INT");
    assert_eq!(origin_code(&Source::Forwarded("f".into())), "FWD");
    assert_eq!(origin_code(&Source::Other("o".into())), "OTH");
}

#[test]
fn extensions() {
    assert_eq!(content_extension(&Payload::Text("t".into())), "md");
    assert_eq!(content_extension(&Payload::Json(serde_json::Value::Null)), "json");
    assert_eq!(content_extension(&Payload::Bytes(vec![])), "bin");
    assert_eq!(content_extension(&Payload::FilePath("/a".into())), "ref");
    assert_eq!(content_extension(&Payload::Url("u".into())), "url");
}

#[test]
fn uuid_text_is_hyphenated_lower_case() {
    let e = sample(Source::Manual, Payload::Text("hi".into()), Some("34.2"));
    let m = EntryMeta::from_envelope(e, "x.md");
    assert_eq!(m.envelope_id, "72f489ec-def5-4bca-8e7d-8c25bc60c637");
}

#[test]
fn filename_has_stamp_origin_address_and_short_id() {
    let e = sample(Source::Manual, Payload::Text("hi".into()), Some("34.2"));
    assert_eq!(build_filename(&e), Some("20250616T143200Z_MAN_34.2_72f489ec".to_string()));
    let e = sample(Source::Device("phone".into()), Payload::Text("hi".into()), None);
    assert_eq!(build_filename(&e), Some("20250616T143200Z_DEV_XX_72f489ec".to_string()));
}

#[test]
fn filename_needs_a_renderable_time() {
    let mut e = sample(Source::Manual, Payload::Text("hi".into()), Some("34.2"));
    e.created_at = Timestamp { secs: i64::MAX, nanos: 0 };
    assert_eq!(build_filename(&e), None);
}

#[test]
fn source_label_is_the_debug_rendering() {
    assert_eq!(source_label(&Source::Manual), "Manual");
    assert_eq!(source_label(&Source::Device("phone".into())), "Device(\"phone\")");
    assert_eq!(source_label(&Source::WebHook("say \"hi\"".into())), "WebHook(\"say \\\"hi\\\"\")");
}

#[test]
fn bodies_by_payload() {
    match payload_body(&Payload::Text("words".into())) {
        Some(ContentBody::Text(s)) => assert_eq!(s, "words"),
        _ => panic!(),
    }
    match payload_body(&Payload::FilePath("/media/a.mp3".into())) {
        Some(ContentBody::Text(s)) => assert_eq!(s, "ref: /media/a.mp3\n"),
        _ => panic!(),
    }
    let bytes = Payload::Bytes(vec![0, 255]);
    match payload_body(&bytes) {
        Some(ContentBody::Bytes(b)) => assert_eq!(b, &vec![0u8, 255]),
        _ => panic!(),
    }
    let json = Payload::Json(serde_json::from_str("{\"a\":1}").unwrap());
    match payload_body(&json) {
        Some(ContentBody::Text(s)) => assert_eq!(s, "{\n  \"a\": 1\n}"),
        _ => panic!(),
    }
}

#[test]
fn store_plan_names_both_files_under_entries() {
    let e = sample(Source::Manual, Payload::Text("hi".into()), Some("34.2"));
    let plan = plan_store(e, "/lib", "34_My-story/34.2_Journal").unwrap();
    assert_eq!(plan.entries_dir, "/lib/34_My-story/34.2_Journal/entries");
    assert_eq!(plan.content_filename, "20250616T143200Z_MAN_34.2_72f489ec.md");
    assert_eq!(plan.content_path, "/lib/34_My-story/34.2_Journal/entries/20250616T143200Z_MAN_34.2_72f489ec.md");
    assert_eq!(plan.meta_path, "/lib/34_My-story/34.2_Journal/entries/20250616T143200Z_MAN_34.2_72f489ec.meta.json");
    let w = plan.written();
    assert_eq!(w.content_path, plan.content_path);
    assert_eq!(w.meta_path, plan.meta_path);
    let m: EntryMeta = plan.meta;
    assert_eq!(m.envelope_id, "72f489ec-def5-4bca-8e7d-8c25bc60c637");
    assert_eq!(m.source, "Manual");
    assert_eq!(m.content_file, "20250616T143200Z_MAN_34.2_72f489ec.md");
    assert_eq!(m.jd_address, Some("34.2".to_string()));
    assert!(!m.pinned && !m.starred);
}
