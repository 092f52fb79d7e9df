use mailroom::envelope::{Envelope, Payload, Source, Timestamp};
use mailroom::inference::{
    audio_plan, chat_plan, classify_input, conversation_plan, first_choice,
    payload_as_text, replace_all, unknown_task_message, AudioSource, DefaultsEnv, InferenceConfig,
    TaskConfig, TaskKind,
};

fn task(prompt: &str, cap: Option<usize>, kind: TaskKind) -> TaskConfig {
    TaskConfig {
        base_url: "http://b".to_string(),
        model: "m".to_string(),
        system_prompt: prompt.to_string(),
        kind,
        max_input_chars: cap,
    }
}

#[test]
fn replace_is_left_to_right_and_non_overlapping() {
    assert_eq!(replace_all("a {context} b {context}", "{context}", "X"), "a X b X");
    assert_eq!(replace_all("aaa", "aa", "b"), "ba");
    assert_eq!(replace_all("none here", "{context}", "X"), "none here");
}

#[test]
fn payloads_as_chat_text() {
    assert_eq!(payload_as_text(&Payload::Text("héllo wörld".into()), Some(5)), "héllo");
    assert_eq!(payload_as_text(&Payload::Text("hi".into()), Some(500)), "hi");
    assert_eq!(payload_as_text(&Payload::FilePath("/a/b".into()), None), "file: /a/b");
    assert_eq!(payload_as_text(&Payload::Bytes(vec![1]), None), "[binary data]");
    assert_eq!(payload_as_text(&Payload::Url("http://x".into()), None), "http://x");
    let v = Payload::Json(serde_json::from_str("{\"a\": 1}").unwrap());
    assert_eq!(payload_as_text(&v, None), "{\"a\":1}");
}

#[test]
fn chat_plan_fills_the_context_and_caps_the_input() {
    let t = task("Store at {context}.", Some(3), TaskKind::Chat);
    let p = chat_plan(&t, &Payload::Text("abcdef".into()), "34.2");
    assert_eq!(p.url, "http://b/v1/chat/completions");
    assert_eq!(p.model, "m");
    assert_eq!(
        p.messages,
        vec![("system".to_string(), "Store at 34.2.".to_string()), ("user".to_string(), "abc".to_string())]
    );
}

#[test]
fn audio_plans() {
    let t = task("  {context} ", None, TaskKind::Audio);
    let bytes = Payload::Bytes(vec![1, 2]);
    let p = audio_plan(&t, &bytes, "").unwrap();
    assert_eq!(p.url, "http://b/v1/audio/transcriptions");
    assert!(p.prompt.is_none());
    assert!(matches!(p.audio, AudioSource::Bytes(b) if b == &vec![1u8, 2]));
    let file = Payload::FilePath("/clip.wav".into());
    let p = audio_plan(&t, &file, "names").unwrap();
    assert_eq!(p.prompt, Some("  names ".to_string()));
    assert!(matches!(p.audio, AudioSource::File(ref f) if f == "/clip.wav"));
    let text = Payload::Text("say".into());
    assert_eq!(
        audio_plan(&t, &text, "").err().unwrap(),
        "transcribe task requires a Bytes or FilePath payload, got Text(\"say\")"
    );
}

#[test]
fn classify_input_names_type_source_and_preview() {
    let e = Envelope::with_identity(1, Timestamp { secs: 0, nanos: 0 }, Source::Device("cam".into()), "image/jpeg".into(), Payload::Text("x".repeat(600)), None);
    match classify_input(&e) {
        Payload::Text(t) => {
            assert!(t.starts_with("Data type: image/jpeg\nSource: Device(\"cam\")\nContent preview: xxx"));
            assert_eq!(t.chars().count(), "Data type: image/jpeg\nSource: Device(\"cam\")\nContent preview: ".chars().count() + 500);
        }
        _ => panic!(),
    }
}

#[test]
fn tables_defaults_and_lookups() {
    let env = DefaultsEnv { llm_url: None, chat_model: None, classify_model: Some("tiny".into()), summarise_model: None, transcribe_model: None };
    let c = InferenceConfig::from_env_defaults(&env);
    assert_eq!(c.task("classify").unwrap().model, "tiny");
    assert_eq!(c.task("classify").unwrap().max_input_chars, Some(500));
    assert_eq!(c.task("summarise").unwrap().model, "qwen_qwen3.5-0.8b");
    assert_eq!(c.task("chat").unwrap().base_url, "http://localhost:8090");
    assert!(c.task("lint").is_none());
    let t = c.task("transcribe").unwrap();
    assert_eq!(t.kind, TaskKind::Audio);
    assert_eq!(t.model, "whisper-1");
    assert_eq!(t.system_prompt, "{context}");
    assert_eq!(t.base_url, "http://localhost:8090");
    let c = InferenceConfig::from_tasks(vec![
        ("lint".to_string(), task("one", None, TaskKind::Chat)),
        ("lint".to_string(), task("two", None, TaskKind::Chat)),
    ]);
    assert_eq!(c.tasks.len(), 1);
    assert_eq!(c.task("lint").unwrap().system_prompt, "two");
    assert_eq!(unknown_task_message("lint"), "no task named 'lint' configured — check Mailroom.toml's [[tasks]]");
}

#[test]
fn conversations_start_with_the_system_prompt() {
    let c = InferenceConfig::from_tasks(vec![]);
    let p = conversation_plan(&c, vec![("user".into(), "hi".into())], None);
    assert_eq!(p.model, "qwen_qwen3.5-0.8b");
    assert_eq!(p.url, "http://localhost:8090/v1/chat/completions");
    assert_eq!(p.messages.len(), 2);
    assert_eq!(p.messages[0].0, "system");
    assert_eq!(p.messages[1], ("user".to_string(), "hi".to_string()));
    let p = conversation_plan(&c, vec![], Some("override"));
    assert_eq!(p.model, "override");
}

#[test]
fn first_choice_of_a_completion() {
    assert_eq!(first_choice(&vec![" a ".into(), "b".into()], true), "a");
    assert_eq!(first_choice(&vec![" a ".into()], false), " a ");
    assert_eq!(first_choice(&vec![], true), "");
}
