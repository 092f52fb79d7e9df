// The journal (34.2_Journal): POST /journal wraps text in an envelope
// addressed there; GET /journal/summary gathers today's entries, asks the
// model for a summary and files it back as a pinned entry.
//
// This module shapes the envelope, picks the day's files, and writes the
// texts that go to the model and to disk.
use vstd::prelude::*;

use crate::envelope::{Envelope, InboundEnvelope, Payload, Source, Timestamp, uuid_text};
use crate::store::{EntryMeta, debug_text};
use crate::paths::{join_path, joined};
use crate::text::{
    chars_of, contains, contains_seq, decimal, decimal_string, ends_with, has_prefix, has_suffix, owned,
    push_all, starts_with, trim, trim_ws,
};

verus! {

/// The journal's address.
pub open spec fn journal_address() -> Seq<char> {
    "34.2"@
}

/// The data type journal entries carry.
pub open spec fn journal_type() -> Seq<char> {
    "text/journal"@
}

/// What POST /journal takes: the text, and when it was written if not
/// now (for entries written offline).
#[derive(Debug, Clone)]
pub struct JournalEntry {
    pub content: String,
    pub created_at: Option<Timestamp>,
}

/// The envelope POST /journal makes of an entry: manual, `text/journal`,
/// addressed to 34.2, created at the entry's time when given.
pub fn journal_envelope(entry: JournalEntry) -> (r: InboundEnvelope)
    ensures
        r.source == Source::Manual,
        r.data_type@ == journal_type(),
        r.payload == Payload::Text(entry.content),
        r.jd_address matches Some(a) && a@ == journal_address(),
        r.meta@.len() == 0,
        r.tags@.len() == 0,
        r.created_at == entry.created_at,
{
    InboundEnvelope {
        source: Source::Manual,
        data_type: owned("text/journal"),
        payload: Payload::Text(entry.content),
        jd_address: Some(owned("34.2")),
        meta: Vec::new(),
        tags: Vec::new(),
        created_at: entry.created_at,
    }
}

/// The journal's entries directory under the library root.
pub open spec fn journal_dir_of(library_root: Seq<char>) -> Seq<char> {
    joined(joined(joined(library_root, "34_My-story"@), "34.2_Journal"@), "entries"@)
}

/// `{library}/34_My-story/34.2_Journal/entries`.
pub fn journal_dir(library_root: &str) -> (r: String)
    ensures
        r@ == journal_dir_of(library_root@),
{
    let a = join_path(library_root, "34_My-story");
    let b = join_path(a.as_str(), "34.2_Journal");
    join_path(b.as_str(), "entries")
}

/// Whether a file of the journal directory is one of the day's entries:
/// named for `today` (`YYYYMMDD`), not a sidecar, not an earlier summary.
pub open spec fn is_day_entry(name: Seq<char>, today: Seq<char>) -> bool {
    &&& !has_suffix(name, ".meta.json"@)
    &&& !contains_seq(name, "_SUMMARY_"@)
    &&& has_prefix(name, today)
}

/// Whether the file `name` holds one of `today`'s entries.
pub fn is_today_entry(name: &str, today: &str) -> (r: bool)
    ensures
        r == is_day_entry(name@, today@),
{
    if ends_with(name, ".meta.json") || contains(name, "_SUMMARY_") {
        return false;
    }
    starts_with(name, today)
}

/// Whether an entry's text counts: something is left once white space is
/// trimmed.
pub fn has_content(text: &str) -> (r: bool)
    ensures
        r == (trim_ws(text@).len() > 0),
{
    let t = trim(text);
    let cs = chars_of(t.as_str());
    cs.len() > 0
}

/// `Entry {n}:` and a newline, then the trimmed text.
pub open spec fn entry_block(n: nat, text: Seq<char>) -> Seq<char> {
    "Entry "@ + decimal(n) + ":\n"@ + trim_ws(text)
}

/// The numbered entries, divided by a Markdown rule.
pub open spec fn entries_body(s: Seq<String>) -> Seq<char>
    decreases s.len(),
{
    if s.len() == 0 {
        Seq::empty()
    } else if s.len() == 1 {
        entry_block(1, s[0]@)
    } else {
        entries_body(s.drop_last()) + "\n\n---\n\n"@ + entry_block(s.len(), s.last()@)
    }
}

/// The day's entries as the model reads them: `Entry 1:` and the first
/// trimmed text, then `---` between each and the next.
pub fn entries_text(entries: &Vec<String>) -> (r: String)
    requires
        entries.len() < u64::MAX,
    ensures
        r@ == entries_body(entries@),
{
    let mut r = String::new();
    let mut i: usize = 0;
    while i < entries.len()
        invariant
            i <= entries.len() < u64::MAX,
            r@ == entries_body(entries@.take(i as int)),
        decreases entries.len() - i,
    {
        if i > 0 {
            push_all(&mut r, "\n\n---\n\n");
        }
        push_all(&mut r, "Entry ");
        let n = decimal_string((i + 1) as u64);
        push_all(&mut r, n.as_str());
        push_all(&mut r, ":\n");
        let t = trim(entries[i].as_str());
        push_all(&mut r, t.as_str());
        proof {
            let s = entries@.take(i + 1);
            assert(s.drop_last() =~= entries@.take(i as int));
            assert(s.last() == entries@[i as int]);
        }
        i = i + 1;
    }
    proof {
        assert(entries@.take(entries.len() as int) =~= entries@);
    }
    r
}

/// The context handed to the model with the day's entries.
pub open spec fn context_text(today: Seq<char>) -> Seq<char> {
    "These are journal entries written on "@ + today
        + ". This is a personal journal in a system organised by Johnny Decimal. The journal (34.2) is part of 34_My-story which captures daily life, reflections, and experiences."@
}

/// The context handed to the model with the day's entries.
pub fn summary_context(today: &str) -> (r: String)
    ensures
        r@ == context_text(today@),
{
    let mut r = owned("These are journal entries written on ");
    push_all(&mut r, today);
    push_all(
        &mut r,
        ". This is a personal journal in a system organised by Johnny Decimal. The journal (34.2) is part of 34_My-story which captures daily life, reflections, and experiences.",
    );
    r
}

/// The request to the model, followed by the day's entries.
pub open spec fn prompt_text(body: Seq<char>) -> Seq<char> {
    "Please write a concise daily summary of these journal entries. Capture the key themes, events, and any notable reflections. Write in second person (\"You...\") as if reflecting back to the author. Keep it to 2-3 paragraphs.\n\n"@
        + body
}

/// The request to the model, followed by the day's entries.
pub fn summary_prompt(body: &str) -> (r: String)
    ensures
        r@ == prompt_text(body@),
{
    let mut r = owned(
        "Please write a concise daily summary of these journal entries. Capture the key themes, events, and any notable reflections. Write in second person (\"You...\") as if reflecting back to the author. Keep it to 2-3 paragraphs.\n\n",
    );
    push_all(&mut r, body);
    r
}

/// `{today}T000000Z_INT_34.2_SUMMARY_.md`: midnight, internal origin, so
/// it sorts before the day's entries and is skipped when they are read.
pub fn summary_filename(today: &str) -> (r: String)
    ensures
        r@ == today@ + "T000000Z_INT_34.2_SUMMARY_.md"@,
{
    let mut r = owned(today);
    push_all(&mut r, "T000000Z_INT_34.2_SUMMARY_.md");
    r
}

/// `{today}T000000Z_INT_34.2_SUMMARY_.meta.json`: the sidecar beside the
/// summary.
pub fn summary_meta_filename(today: &str) -> (r: String)
    ensures
        r@ == today@ + "T000000Z_INT_34.2_SUMMARY_.meta.json"@,
{
    let mut r = owned(today);
    push_all(&mut r, "T000000Z_INT_34.2_SUMMARY_.meta.json");
    r
}

/// Whether `m` is the sidecar of the day's summary: an internal
/// `text/journal` entry at 34.2 with id `id`, made at `at`, describing the
/// summary file, with no metadata, and pinned (so listings show it first),
/// not starred.
pub open spec fn summary_sidecar(m: EntryMeta, today: Seq<char>, id: u128, at: Timestamp) -> bool {
    &&& m.envelope_id@ == uuid_text(id)
    &&& m.jd_address matches Some(a) && a@ == journal_address()
    &&& m.data_type@ == journal_type()
    &&& m.source@ == "Internal("@ + debug_text("summary"@) + ")"@
    &&& m.created_at == at
    &&& m.received_at == at
    &&& m.meta@.len() == 0
    &&& m.content_file@ == today + "T000000Z_INT_34.2_SUMMARY_.md"@
    &&& m.pinned
    &&& !m.starred
}

/// The sidecar filed with the day's summary: a pinned entry, so the
/// summary is listed before everything else. `id` and `at` are the
/// summary's identity and the time it was filed.
pub fn summary_meta(today: &str, id: u128, at: Timestamp) -> (m: EntryMeta)
    ensures
        summary_sidecar(m, today@, id, at),
{
    let file = summary_filename(today);
    let e = Envelope::with_identity(
        id,
        at,
        Source::Internal(owned("summary")),
        owned("text/journal"),
        Payload::Text(owned("")),
        Some(owned("34.2")),
    );
    let mut m = EntryMeta::from_envelope(e, file.as_str());
    m.pinned = true;
    proof {
        reveal_strlit("summary");
        reveal_strlit("Internal(");
        reveal_strlit(")");
        reveal_strlit("34.2");
        reveal_strlit("text/journal");
        assert(seq!['I', 'n', 't', 'e', 'r', 'n', 'a', 'l', '('] =~= "Internal("@);
        assert(seq![')'] =~= ")"@);
        assert(m.jd_address.unwrap()@ =~= journal_address());
        assert(m.data_type@ =~= journal_type());
    }
    m
}

/// The summary as filed: a heading with the day, the text, and a footer
/// with the time it was generated.
pub open spec fn summary_doc(today: Seq<char>, text: Seq<char>, generated_at: Seq<char>) -> Seq<char> {
    "# Daily Summary — "@ + today + "\n\n"@ + text + "\n\n---\n*Generated by Mailroom at "@
        + generated_at + "*\n"@
}

/// The summary as filed.
pub fn summary_document(today: &str, text: &str, generated_at: &str) -> (r: String)
    ensures
        r@ == summary_doc(today@, text@, generated_at@),
{
    let mut r = owned("# Daily Summary — ");
    push_all(&mut r, today);
    push_all(&mut r, "\n\n");
    push_all(&mut r, text);
    push_all(&mut r, "\n\n---\n*Generated by Mailroom at ");
    push_all(&mut r, generated_at);
    push_all(&mut r, "*\n");
    r
}

/// The answer when the day has no entries.
pub fn no_entries_message(today: &str) -> (r: String)
    ensures
        r@ == "No journal entries for "@ + today@ + " yet."@,
{
    let mut r = owned("No journal entries for ");
    push_all(&mut r, today);
    push_all(&mut r, " yet.");
    r
}

/// The answer to POST /journal.
#[derive(Debug, Clone)]
pub struct JournalResponse {
    pub envelope_id: String,
    /// The content file written.
    pub file: String,
    pub jd_address: String,
}

impl JournalResponse {
    /// The answer once the entry is written to `file`.
    pub fn written(envelope_id: String, file: String) -> (r: JournalResponse)
        ensures
            r.envelope_id == envelope_id,
            r.file == file,
            r.jd_address@ == journal_address(),
    {
        JournalResponse { envelope_id, file, jd_address: owned("34.2") }
    }
}

/// The answer to GET /journal/summary.
#[derive(Debug, Clone)]
pub struct SummaryResponse {
    /// The day, `YYYYMMDD`.
    pub date: String,
    pub entry_count: usize,
    pub summary: String,
    /// Where the summary was filed, when that worked.
    pub saved_to: Option<String>,
}

impl SummaryResponse {
    /// The answer when the journal has no entries directory yet.
    pub fn no_journal_yet(date: String) -> (r: SummaryResponse)
        ensures
            r.date == date,
            r.entry_count == 0,
            r.summary@ == "No journal entries found yet."@,
            r.saved_to is None,
    {
        SummaryResponse { date, entry_count: 0, summary: owned("No journal entries found yet."), saved_to: None }
    }

    /// The answer when the day has no entries.
    pub fn nothing_today(date: String) -> (r: SummaryResponse)
        ensures
            r.date == date,
            r.entry_count == 0,
            r.summary@ == "No journal entries for "@ + date@ + " yet."@,
            r.saved_to is None,
    {
        let summary = no_entries_message(date.as_str());
        SummaryResponse { date, entry_count: 0, summary, saved_to: None }
    }
}

/// Law: the day's filed summary is never read back as one of the day's
/// entries.
pub proof fn law_summary_is_not_an_entry(today: Seq<char>)
    ensures
        !is_day_entry(today + "T000000Z_INT_34.2_SUMMARY_.md"@, today),
{
    reveal_strlit("T000000Z_INT_34.2_SUMMARY_.md");
    reveal_strlit("_SUMMARY_");
    let name = today + "T000000Z_INT_34.2_SUMMARY_.md"@;
    let at: int = today.len() as int + 17;
    assert(name.subrange(at, at + 9) =~= "_SUMMARY_"@);
    assert(crate::text::occurs_at(name, "_SUMMARY_"@, at));
}

} // verus!
