use mailroom::jd_index::{JdEntry, JohnnyDecimalIndex};
use mailroom::hub::{
    adapter_for, default_bind, default_jd_root, dispatched_names, ollama_request, trim_end_slashes,
    Adapter, AgentConfig, AgentRegistry, Envelope, Payload, SourceKind,
};

fn agent(name: &str, url: &str, accepts: &[&str]) -> AgentConfig {
    AgentConfig {
        name: name.to_string(),
        base_url: url.to_string(),
        accepts: accepts.iter().map(|s| s.to_string()).collect(),
        jd_prefix: None,
    }
}

fn text_envelope(content: &str) -> Envelope {
    Envelope::new(SourceKind::Text, Payload::Text { content: content.to_string(), mime_type: "text/plain".into() })
}

#[test]
fn source_names() {
    assert_eq!(SourceKind::Camera.as_str(), "camera");
    assert_eq!(SourceKind::Microphone.as_str(), "microphone");
    assert_eq!(SourceKind::Webhook.as_str(), "webhook");
    assert_eq!(SourceKind::Custom("github".into()).as_str(), "github");
}

#[test]
fn defaults() {
    assert_eq!(default_bind(), "0.0.0.0:3000");
    assert_eq!(default_jd_root(), "./jd");
}

#[test]
fn fan_out_goes_to_every_agent_taking_the_source() {
    let agents = vec![
        agent("a", "http://a", &["camera"]),
        agent("b", "http://b", &["*"]),
        agent("c", "http://c", &["text", "file"]),
    ];
    let registry = AgentRegistry::from_config(&agents);
    let e = text_envelope("hi");
    let names: Vec<&str> = registry.dispatch_targets(&e, &JohnnyDecimalIndex::empty()).iter().map(|a| a.name.as_str()).collect();
    assert_eq!(names, vec!["b", "c"]);
}

#[test]
fn a_destination_picks_agents_by_name_only() {
    let registry = AgentRegistry::from_config(&[agent("a", "http://a", &["camera"]), agent("b", "http://b", &["*"])]);
    let e = text_envelope("hi").for_agent("a".to_string());
    let names: Vec<&str> = registry.dispatch_targets(&e, &JohnnyDecimalIndex::empty()).iter().map(|a| a.name.as_str()).collect();
    assert_eq!(names, vec!["a"]);
    let e = text_envelope("hi").for_agent("nobody".to_string());
    assert!(registry.dispatch_targets(&e, &JohnnyDecimalIndex::empty()).is_empty());
}

#[test]
fn adapters_by_base_url() {
    assert!(matches!(adapter_for(&agent("o", "http://localhost:11434", &[])), Adapter::Ollama));
    match adapter_for(&agent("g", "http://host:9000//", &[])) {
        Adapter::Generic { url } => assert_eq!(url, "http://host:9000/receive"),
        _ => panic!(),
    }
    assert_eq!(trim_end_slashes("a//"), "a");
    assert_eq!(trim_end_slashes("///"), "");
}

#[test]
fn ollama_requests_by_payload() {
    let o = agent("o", "http://localhost:11434/", &[]);
    let e = text_envelope("hello").with_jd("34.2".to_string());
    let r = ollama_request(&o, &e);
    assert_eq!(r.url, "http://localhost:11434/api/generate");
    assert_eq!(r.model, "llama3");
    assert_eq!(r.prompt, "hello");
    let ctx = r.context.unwrap();
    assert_eq!(ctx.0, e.id);
    assert_eq!(ctx.1, Some("34.2".to_string()));
    assert_eq!(ctx.2, "text");

    let img = Envelope::new(SourceKind::File, Payload::Binary { mime_type: "image/png".into(), data: b"hello".to_vec() });
    let r = ollama_request(&o, &img);
    assert_eq!(r.model, "llava");
    assert_eq!(r.prompt, "Describe what you see in this image.");
    assert_eq!(r.images, Some(vec!["aGVsbG8=".to_string()]));

    let audio = Envelope::new(SourceKind::Microphone, Payload::Binary { mime_type: "audio/wav".into(), data: vec![0; 12] });
    let r = ollama_request(&o, &audio);
    assert_eq!(r.prompt, "[Binary payload received: 12 bytes, type: audio/wav. Source: microphone.]");
    assert!(r.images.is_none());

    let camera = Envelope::new(SourceKind::Camera, Payload::Binary { mime_type: "application/octet-stream".into(), data: vec![1] });
    assert_eq!(ollama_request(&o, &camera).model, "llava");

    let json = Envelope::new(SourceKind::Webhook, Payload::Json(serde_json::from_str("{\"k\": [1, 2]}").unwrap()));
    assert_eq!(ollama_request(&o, &json).prompt, "Process this JSON payload:\n{\"k\":[1,2]}");
}

#[test]
fn metadata_keys_are_set_once() {
    let mut e = text_envelope("x");
    e.insert_meta("role", serde_json::Value::String("user".into()));
    e.insert_meta("device_id", serde_json::Value::String("cam1".into()));
    e.insert_meta("role", serde_json::Value::String("system".into()));
    assert_eq!(e.meta.len(), 2);
    assert_eq!(e.meta[0].0, "role");
    assert_eq!(e.meta[0].1, serde_json::Value::String("system".into()));
    assert!(e.destination.is_none());
    assert!(e.jd_address.is_none());
}

#[test]
fn a_registry_keeps_the_configured_agents_in_order() {
    let registry = AgentRegistry::from_config(&[agent("a", "http://a", &["camera", "text"]), agent("b", "http://b", &["*"])]);
    assert_eq!(registry.agents.len(), 2);
    assert_eq!(registry.agents[0].name, "a");
    assert_eq!(registry.agents[0].accepts, vec!["camera".to_string(), "text".to_string()]);
    assert_eq!(registry.agents[1].base_url, "http://b");
}

#[test]
fn a_frame_tagged_with_an_address_goes_to_the_index_agent() {
    let index = JohnnyDecimalIndex::from_entries(vec![JdEntry {
        address: "11.01".to_string(),
        title: "Camera Frames".to_string(),
        description: None,
        agent: Some("local-llava".to_string()),
        tags: vec!["camera".to_string(), "image".to_string()],
    }]);
    let registry = AgentRegistry::from_config(&[
        agent("local-llava", "http://localhost:11434", &["image"]),
        agent("cam-bot", "http://cam", &["camera"]),
    ]);
    let frame = Envelope::new(SourceKind::Camera, Payload::Binary { mime_type: "image/jpeg".into(), data: vec![1] });
    let tagged = frame.clone().with_jd("11.01".to_string());
    let names: Vec<&str> = registry.dispatch_targets(&tagged, &index).iter().map(|a| a.name.as_str()).collect();
    assert_eq!(names, vec!["local-llava"]);
    // An address the index has no agent for falls back to the source's takers.
    let other = frame.clone().with_jd("12.00".to_string());
    let names: Vec<&str> = registry.dispatch_targets(&other, &index).iter().map(|a| a.name.as_str()).collect();
    assert_eq!(names, vec!["cam-bot"]);
    // A named agent still wins over the index.
    let named = frame.with_jd("11.01".to_string()).for_agent("cam-bot".to_string());
    let names: Vec<&str> = registry.dispatch_targets(&named, &index).iter().map(|a| a.name.as_str()).collect();
    assert_eq!(names, vec!["cam-bot"]);
}

#[test]
fn a_dispatch_answers_the_agents_that_took_the_envelope() {
    let a = agent("a", "http://a", &["*"]);
    let b = agent("b", "http://b", &["*"]);
    let c = agent("c", "http://c", &["*"]);
    let targets = vec![&a, &b, &c];
    assert_eq!(dispatched_names(&targets, &vec![true, false, true]), vec!["a".to_string(), "c".to_string()]);
    assert!(dispatched_names(&targets, &vec![false, false, false]).is_empty());
}
