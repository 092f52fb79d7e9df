use mailroom::route_table::{target, RouteTable};

#[test]
fn an_alias_wins_over_everything() {
    let t = RouteTable::load();
    let r = t.resolve("coder", Some("35.2"));
    assert_eq!(r.url, "http://localhost:11434/v1/chat/completions");
    assert_eq!(r.model, "codellama");
    assert_eq!(r.label, "Coder / CodeLlama");
}

#[test]
fn an_area_prefix_picks_the_backend() {
    let t = RouteTable::load();
    let r = t.resolve("default", Some("35.2"));
    assert_eq!(r.model, "meditron");
    assert_eq!(r.label, "35_Health");
    let r = t.resolve("", Some("11.1"));
    assert_eq!(r.label, "11_NixOS");
}

#[test]
fn a_concrete_model_passes_through_to_the_fallback_backend() {
    let t = RouteTable::load();
    let r = t.resolve("llama-3.1-8b", Some("99.9"));
    assert_eq!(r.url, "http://localhost:8080/v1/chat/completions");
    assert_eq!(r.model, "llama-3.1-8b");
    assert_eq!(r.label, "passthrough:llama-3.1-8b");
}

#[test]
fn otherwise_the_fallback() {
    let t = RouteTable::load();
    for (model, jd) in [("default", None), ("", Some("99")), ("default", Some("7"))] {
        let r = t.resolve(model, jd);
        assert_eq!(r.model, "mistral-7b");
        assert_eq!(r.label, "fallback");
    }
}

#[test]
fn targets_hold_their_texts() {
    let t = target("u", "m", "l");
    assert_eq!((t.url.as_str(), t.model.as_str(), t.label.as_str()), ("u", "m", "l"));
    let d = t.duplicate();
    assert_eq!(d.label, "l");
}
