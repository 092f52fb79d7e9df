use mailroom::hub::{
    addressed, agent_info, camera_envelope, file_envelope, microphone_envelope, text_envelope,
    webhook_envelope, AgentConfig, CameraQuery, Envelope, FileQuery, IngestResponse, MicQuery,
    Payload, SourceKind, TextBody, VideoQuery, WebhookQuery, video_envelope,
};

#[test]
fn text_ingest_carries_the_role() {
    let e = text_envelope(TextBody { content: "hi".into(), agent: Some("a".into()), jd: Some("34".into()), role: Some("user".into()) });
    assert!(matches!(e.source, SourceKind::Text));
    assert!(matches!(e.payload, Payload::Text { ref content, ref mime_type } if content == "hi" && mime_type == "text/plain"));
    assert_eq!(e.destination, Some("a".to_string()));
    assert_eq!(e.jd_address, Some("34".to_string()));
    assert_eq!(e.meta, vec![("role".to_string(), serde_json::Value::String("user".into()))]);
}

#[test]
fn webhook_source_defaults_to_unknown() {
    let e = webhook_envelope(WebhookQuery { agent: None, jd: None, source: None }, serde_json::Value::Null);
    assert!(matches!(e.source, SourceKind::Custom(ref n) if n == "unknown"));
    assert_eq!(e.meta, vec![("webhook_source".to_string(), serde_json::Value::String("unknown".into()))]);
    let e = webhook_envelope(WebhookQuery { agent: None, jd: None, source: Some("github".into()) }, serde_json::Value::Bool(true));
    assert_eq!(e.source.as_str(), "github");
}

#[test]
fn device_ingests_default_their_mime_types() {
    let e = camera_envelope(CameraQuery { agent: None, jd: None, device_id: Some("cam1".into()) }, None, vec![1]);
    assert!(matches!(e.payload, Payload::Binary { ref mime_type, .. } if mime_type == "image/jpeg"));
    assert_eq!(e.meta, vec![("device_id".to_string(), serde_json::Value::String("cam1".into()))]);
    let e = microphone_envelope(MicQuery { agent: None, jd: None, sample_rate: Some(16000), channels: Some(2) }, Some("audio/ogg".into()), vec![]);
    assert!(matches!(e.payload, Payload::Binary { ref mime_type, .. } if mime_type == "audio/ogg"));
    assert_eq!(
        e.meta,
        vec![("sample_rate".to_string(), serde_json::Value::from(16000u32)), ("channels".to_string(), serde_json::Value::from(2u8))]
    );
    let e = microphone_envelope(MicQuery { agent: None, jd: None, sample_rate: None, channels: None }, None, vec![]);
    assert!(matches!(e.payload, Payload::Binary { ref mime_type, .. } if mime_type == "audio/wav"));
    assert!(e.meta.is_empty());
}

#[test]
fn file_mime_comes_from_content_type_then_name() {
    let e = file_envelope(FileQuery { agent: None, jd: None }, Some("a.pdf".into()), None, vec![]);
    assert!(matches!(e.payload, Payload::Binary { ref mime_type, .. } if mime_type == "application/pdf"));
    assert_eq!(e.meta, vec![("filename".to_string(), serde_json::Value::String("a.pdf".into()))]);
    let e = file_envelope(FileQuery { agent: None, jd: None }, Some("a.pdf".into()), Some("text/plain".into()), vec![]);
    assert!(matches!(e.payload, Payload::Binary { ref mime_type, .. } if mime_type == "text/plain"));
    let e = file_envelope(FileQuery { agent: None, jd: None }, None, None, vec![]);
    assert!(matches!(e.payload, Payload::Binary { ref mime_type, .. } if mime_type == "application/octet-stream"));
}

#[test]
fn addressing_and_answers() {
    let e = Envelope::new(SourceKind::Video, Payload::Json(serde_json::Value::Null));
    let id = e.id;
    let e = addressed(e, Some("12".into()), None);
    assert_eq!(e.jd_address, Some("12".to_string()));
    assert!(e.destination.is_none());
    assert_eq!(e.id, id);
    let r = IngestResponse::for_envelope(&e, vec!["a".into()]);
    assert_eq!(r.envelope_id, uuid::Uuid::from_u128(id).to_string());
    assert_eq!(r.routed_to, vec!["a".to_string()]);
    let a = AgentConfig { name: "n".into(), base_url: "u".into(), accepts: vec!["*".into()], jd_prefix: Some("3".into()) };
    let info = agent_info(&a);
    assert_eq!((info.name, info.base_url, info.accepts, info.jd_prefix), ("n".to_string(), "u".to_string(), vec!["*".to_string()], Some("3".to_string())));
}

#[test]
fn video_ingest_files_its_frame_rate() {
    let fps = serde_json::Value::from(29.97f32);
    let e = video_envelope(VideoQuery { agent: Some("v".into()), jd: Some("12".into()), fps: Some(fps.clone()) }, None, vec![7, 8]);
    assert!(matches!(e.source, SourceKind::Video));
    assert!(matches!(e.payload, Payload::Binary { ref mime_type, ref data } if mime_type == "video/mp4" && data == &vec![7u8, 8]));
    assert_eq!(e.destination, Some("v".to_string()));
    assert_eq!(e.jd_address, Some("12".to_string()));
    assert_eq!(e.meta, vec![("fps".to_string(), fps)]);
    let e = video_envelope(VideoQuery { agent: None, jd: None, fps: None }, Some("video/webm".into()), vec![]);
    assert!(matches!(e.payload, Payload::Binary { ref mime_type, .. } if mime_type == "video/webm"));
    assert!(e.meta.is_empty());
}
