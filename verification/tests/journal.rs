use mailroom::envelope::{Payload, Source};
use mailroom::journal::{JournalEntry, JournalResponse, SummaryResponse};
use mailroom::journal::{
    entries_text, has_content, is_today_entry, journal_dir, journal_envelope, no_entries_message,
    summary_context, summary_document, summary_filename, summary_meta, summary_meta_filename,
    summary_prompt,
};

#[test]
fn journal_envelope_is_addressed_to_the_journal() {
    let e = journal_envelope(JournalEntry { content: "Dear diary".to_string(), created_at: None });
    assert!(matches!(e.source, Source::Manual));
    assert_eq!(e.data_type, "text/journal");
    assert_eq!(e.jd_address, Some("34.2".to_string()));
    assert!(matches!(e.payload, Payload::Text(ref t) if t == "Dear diary"));
    assert!(e.created_at.is_none());
}

#[test]
fn day_entries_skip_sidecars_and_summaries() {
    assert!(is_today_entry("20260625T020721Z_MAN_34.2_eff58236.md", "20260625"));
    assert!(!is_today_entry("20260625T020721Z_MAN_34.2_eff58236.meta.json", "20260625"));
    assert!(!is_today_entry("20260625T000000Z_INT_34.2_SUMMARY_.md", "20260625"));
    assert!(!is_today_entry("20260624T020721Z_MAN_34.2_eff58236.md", "20260625"));
    assert!(has_content("  x "));
    assert!(!has_content(" \n\t "));
}

#[test]
fn entries_are_numbered_and_divided() {
    let e = vec!["  first \n".to_string(), "second".to_string()];
    assert_eq!(entries_text(&e), "Entry 1:\nfirst\n\n---\n\nEntry 2:\nsecond");
    assert_eq!(entries_text(&vec![]), "");
}

#[test]
fn texts_for_the_model_and_the_file() {
    assert_eq!(
        summary_context("20260625"),
        "These are journal entries written on 20260625. This is a personal journal in a system organised by Johnny Decimal. The journal (34.2) is part of 34_My-story which captures daily life, reflections, and experiences."
    );
    assert!(summary_prompt("BODY").ends_with("Keep it to 2-3 paragraphs.\n\nBODY"));
    assert_eq!(summary_filename("20260625"), "20260625T000000Z_INT_34.2_SUMMARY_.md");
    assert_eq!(
        summary_document("20260625", "Text", "2026-06-25T10:00:00Z"),
        "# Daily Summary — 20260625\n\nText\n\n---\n*Generated by Mailroom at 2026-06-25T10:00:00Z*\n"
    );
    assert_eq!(no_entries_message("20260625"), "No journal entries for 20260625 yet.");
    assert_eq!(journal_dir("/lib"), "/lib/34_My-story/34.2_Journal/entries");
}

#[test]
fn journal_answers() {
    let r = JournalResponse::written("id".into(), "/f.md".into());
    assert_eq!((r.envelope_id.as_str(), r.file.as_str(), r.jd_address.as_str()), ("id", "/f.md", "34.2"));
    let s = SummaryResponse::no_journal_yet("20260625".into());
    assert_eq!(s.summary, "No journal entries found yet.");
    assert_eq!(s.entry_count, 0);
    let s = SummaryResponse::nothing_today("20260625".into());
    assert_eq!(s.summary, "No journal entries for 20260625 yet.");
    assert!(s.saved_to.is_none());
}

#[test]
fn the_daily_summary_is_filed_as_a_pinned_entry() {
    let at = mailroom::envelope::Timestamp { secs: 1_750_000_000, nanos: 0 };
    let m = summary_meta("20260625", 0x72f489ec_def5_4bca_8e7d_8c25bc60c637, at);
    assert!(m.pinned);
    assert!(!m.starred);
    assert_eq!(m.content_file, "20260625T000000Z_INT_34.2_SUMMARY_.md");
    assert_eq!(m.jd_address, Some("34.2".to_string()));
    assert_eq!(m.data_type, "text/journal");
    assert_eq!(m.source, "Internal(\"summary\")");
    assert_eq!(m.envelope_id, "72f489ec-def5-4bca-8e7d-8c25bc60c637");
    assert_eq!(summary_meta_filename("20260625"), "20260625T000000Z_INT_34.2_SUMMARY_.meta.json");
}
