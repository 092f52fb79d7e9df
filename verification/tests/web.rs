use mailroom::envelope::{Payload, Source};
use mailroom::manifest::{blank_manifest, NodeKind};
use mailroom::registry::Registry;
use mailroom::web::{failed_message, route_choices, saved_message, submit_envelope, unknown_route_message, SubmitForm};

#[test]
fn a_submission_is_a_journal_envelope_at_the_chosen_address() {
    let e = submit_envelope(SubmitForm { content: "note".into(), jd_address: "35.1".into() });
    assert!(matches!(e.source, Source::Manual));
    assert_eq!(e.data_type, "text/journal");
    assert_eq!(e.jd_address, Some("35.1".to_string()));
    assert!(matches!(e.payload, Payload::Text(ref t) if t == "note"));
    assert!(e.created_at.is_none() && e.meta.is_empty() && e.tags.is_empty());
}

#[test]
fn page_messages() {
    assert_eq!(unknown_route_message("9"), "Unknown route: 9");
    assert_eq!(saved_message("/a/b.md"), "Saved to /a/b.md");
    assert_eq!(failed_message("disk full"), "Error: disk full");
}

#[test]
fn choices_list_every_nest_in_address_order() {
    let r = Registry::from_manifests(vec![
        blank_manifest("35", "Health", NodeKind::Domain),
        blank_manifest("34.2", "Journal", NodeKind::Leaf),
    ]);
    assert_eq!(
        route_choices(&r),
        vec![("34.2".to_string(), "Journal".to_string()), ("35".to_string(), "Health".to_string())]
    );
}
