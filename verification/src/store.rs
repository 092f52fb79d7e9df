// How an accepted envelope is laid down on disk.
//
// Every stored envelope makes two files in `{library}/{nest}/entries/`:
//   {timestamp}_{origin}_{jd}_{short-id}.{ext}       the content
//   {timestamp}_{origin}_{jd}_{short-id}.meta.json   the index entry
// This module names them and says what goes in them; writing them is the
// caller's business.
use vstd::prelude::*;

use crate::envelope::{
    Envelope, Payload, Source, Timestamp, format_utc, plain_utc_format, utc_formatted, uuid_string,
    uuid_text,
};
use crate::paths::{join_path, joined};
use crate::text::{chars_of, owned, push_all, push_char, string_from_range};

verus! {

/// The three-letter origin code of a source.
pub open spec fn origin_of(source: Source) -> Seq<char> {
    match source {
        Source::Manual => seq!['M', 'A', 'N'],
        Source::Device(_) => seq!['D', 'E', 'V'],
        Source::WebHook(_) => seq!['W', 'E', 'B'],
        Source::Internal(_) => seq!['I', 'N', 'T'],
        Source::Forwarded(_) => seq!['F', 'W', 'D'],
        Source::Other(_) => seq!['O', 'T', 'H'],
    }
}

/// Short upper-case code for where an envelope came from, embedded in its
/// file name.
pub fn origin_code(source: &Source) -> (r: &'static str)
    ensures
        r@ == origin_of(*source),
{
    proof {
        reveal_strlit("MAN");
        reveal_strlit("DEV");
        reveal_strlit("WEB");
        reveal_strlit("INT");
        reveal_strlit("FWD");
        reveal_strlit("OTH");
    }
    match source {
        Source::Manual => "MAN",
        Source::Device(_) => "DEV",
        Source::WebHook(_) => "WEB",
        Source::Internal(_) => "INT",
        Source::Forwarded(_) => "FWD",
        Source::Other(_) => "OTH",
    }
}

/// The content file's extension for a payload.
pub open spec fn extension_of(payload: Payload) -> Seq<char> {
    match payload {
        Payload::Text(_) => seq!['m', 'd'],
        Payload::Json(_) => seq!['j', 's', 'o', 'n'],
        Payload::Bytes(_) => seq!['b', 'i', 'n'],
        Payload::FilePath(_) => seq!['r', 'e', 'f'],
        Payload::Url(_) => seq!['u', 'r', 'l'],
    }
}

/// The content file's extension: `md` for text, `json`, `bin` for raw
/// bytes, `ref` for a file reference, `url` for a link.
pub fn content_extension(payload: &Payload) -> (r: &'static str)
    ensures
        r@ == extension_of(*payload),
{
    proof {
        reveal_strlit("md");
        reveal_strlit("json");
        reveal_strlit("bin");
        reveal_strlit("ref");
        reveal_strlit("url");
    }
    match payload {
        Payload::Text(_) => "md",
        Payload::Json(_) => "json",
        Payload::Bytes(_) => "bin",
        Payload::FilePath(_) => "ref",
        Payload::Url(_) => "url",
    }
}

/// The address part of a file name: the envelope's address, or `XX`.
pub open spec fn jd_part(jd: Option<String>) -> Seq<char> {
    match jd {
        Some(a) => a@,
        None => seq!['X', 'X'],
    }
}

/// The file names' time stamp: UTC, compact, e.g. 20250616T143200Z.
pub open spec fn stamp_format() -> Seq<char> {
    "%Y%m%dT%H%M%SZ"@
}

/// `{timestamp}_{origin}_{jd}_{short-id}` for these parts; the short id is
/// the first eight characters of the envelope's UUID.
pub open spec fn filename_from(stamp: Seq<char>, e: Envelope) -> Seq<char> {
    stamp + seq!['_'] + origin_of(e.source) + seq!['_'] + jd_part(e.jd_address) + seq!['_']
        + uuid_text(e.id).take(8)
}

/// The base file name of an envelope, or `None` when its creation time
/// cannot be rendered.
pub open spec fn base_filename(e: Envelope) -> Option<Seq<char>> {
    match utc_formatted(e.created_at.secs, e.created_at.nanos, stamp_format()) {
        Some(stamp) => Some(filename_from(stamp, e)),
        None => None,
    }
}

/// The base file name (no extension) of an envelope, e.g.
/// `20250616T143200Z_MAN_34.2_72f489ec`; `None` when its creation time is
/// outside what chrono can render.
pub fn build_filename(envelope: &Envelope) -> (r: Option<String>)
    ensures
        match r {
            Some(s) => base_filename(*envelope) == Some(s@),
            None => base_filename(*envelope) is None,
        },
{
    proof {
        reveal_strlit("%Y%m%dT%H%M%SZ");
        assert(plain_utc_format("%Y%m%dT%H%M%SZ"@));
    }
    let stamp = match format_utc(envelope.created_at, "%Y%m%dT%H%M%SZ") {
        Some(s) => s,
        None => {
            return None;
        },
    };
    let mut r = stamp;
    push_char(&mut r, '_');
    push_all(&mut r, origin_code(&envelope.source));
    push_char(&mut r, '_');
    proof {
        reveal_strlit("XX");
    }
    match &envelope.jd_address {
        Some(a) => push_all(&mut r, a.as_str()),
        None => push_all(&mut r, "XX"),
    }
    push_char(&mut r, '_');
    let id = uuid_string(envelope.id);
    let cs = chars_of(id.as_str());
    let short = string_from_range(&cs, 0, 8);
    push_all(&mut r, short.as_str());
    proof {
        assert(cs@.subrange(0, 8) =~= uuid_text(envelope.id).take(8));
    }
    Some(r)
}

/// The content file name for a base name and payload.
pub open spec fn content_filename_of(base: Seq<char>, payload: Payload) -> Seq<char> {
    base + seq!['.'] + extension_of(payload)
}

/// The sidecar file name for a base name.
pub open spec fn meta_filename_of(base: Seq<char>) -> Seq<char> {
    base + seq!['.', 'm', 'e', 't', 'a', '.', 'j', 's', 'o', 'n']
}

/// What `format!("{:?}", s)` writes for a string: the quoted, escaped
/// form.
pub uninterp spec fn debug_text(s: Seq<char>) -> Seq<char>;

/// `<str as Debug>::fmt`, as `format!("{:?}", s)` renders it: `s` in
/// double quotes with quotes, backslashes and control characters escaped.
/// Its result depends on `s` alone; the escaping itself is not restated.
#[verifier::external_body]
pub(crate) fn debug_quoted(s: &str) -> (r: String)
    ensures
        r@ == debug_text(s@),
{
    format!("{:?}", s)
}

/// The `Debug` rendering of a source, as the sidecar records it:
/// `Manual`, or the variant's name with its quoted text, e.g.
/// `Device("phone")`.
pub open spec fn source_text(source: Source) -> Seq<char> {
    match source {
        Source::Manual => seq!['M', 'a', 'n', 'u', 'a', 'l'],
        Source::Device(s) => seq!['D', 'e', 'v', 'i', 'c', 'e', '('] + debug_text(s@) + seq![')'],
        Source::WebHook(s) => seq!['W', 'e', 'b', 'H', 'o', 'o', 'k', '('] + debug_text(s@) + seq![
            ')',
        ],
        Source::Internal(s) => seq!['I', 'n', 't', 'e', 'r', 'n', 'a', 'l', '('] + debug_text(s@)
            + seq![')'],
        Source::Forwarded(s) => seq!['F', 'o', 'r', 'w', 'a', 'r', 'd', 'e', 'd', '('] + debug_text(
            s@,
        ) + seq![')'],
        Source::Other(s) => seq!['O', 't', 'h', 'e', 'r', '('] + debug_text(s@) + seq![')'],
    }
}

/// `name(` + the quoted text + `)`.
fn tagged(name: &str, s: &str) -> (r: String)
    ensures
        r@ == name@ + seq!['('] + debug_text(s@) + seq![')'],
{
    let mut r = owned(name);
    push_char(&mut r, '(');
    let q = debug_quoted(s);
    push_all(&mut r, q.as_str());
    push_char(&mut r, ')');
    r
}

/// The `Debug` rendering of a source.
pub fn source_label(source: &Source) -> (r: String)
    ensures
        r@ == source_text(*source),
{
    proof {
        reveal_strlit("Manual");
        reveal_strlit("Device");
        reveal_strlit("WebHook");
        reveal_strlit("Internal");
        reveal_strlit("Forwarded");
        reveal_strlit("Other");
    }
    match source {
        Source::Manual => owned("Manual"),
        Source::Device(s) => tagged("Device", s.as_str()),
        Source::WebHook(s) => tagged("WebHook", s.as_str()),
        Source::Internal(s) => tagged("Internal", s.as_str()),
        Source::Forwarded(s) => tagged("Forwarded", s.as_str()),
        Source::Other(s) => tagged("Other", s.as_str()),
    }
}

/// The sidecar written beside every content file: everything about the
/// envelope but its payload.
#[derive(Debug, Clone)]
pub struct EntryMeta {
    /// The envelope's UUID, hyphenated.
    pub envelope_id: String,
    pub jd_address: Option<String>,
    pub data_type: String,
    /// The `Debug` rendering of the envelope's source.
    pub source: String,
    pub created_at: Timestamp,
    pub received_at: Timestamp,
    /// The envelope's metadata pairs, each key once (`keys_unique`).
    pub meta: Vec<(String, String)>,
    /// The content file's name (no directory).
    pub content_file: String,
    /// Pinned entries sort first.
    pub pinned: bool,
    /// Starred entries sort after pinned ones, before the rest.
    pub starred: bool,
}

/// The sidecar that describes `e`, whose content went to `content_file`.
pub open spec fn describes(m: EntryMeta, e: Envelope, content_file: Seq<char>) -> bool {
    &&& m.envelope_id@ == uuid_text(e.id)
    &&& m.jd_address == e.jd_address
    &&& m.data_type == e.data_type
    &&& m.source@ == source_text(e.source)
    &&& m.created_at == e.created_at
    &&& m.received_at == e.received_at
    &&& m.meta == e.meta
    &&& m.content_file@ == content_file
    &&& !m.pinned
    &&& !m.starred
}

impl EntryMeta {
    /// The sidecar for an envelope whose content went to
    /// `content_filename`; neither pinned nor starred.
    pub fn from_envelope(envelope: Envelope, content_filename: &str) -> (m: EntryMeta)
        ensures
            describes(m, envelope, content_filename@),
    {
        let source = source_label(&envelope.source);
        EntryMeta {
            envelope_id: uuid_string(envelope.id),
            jd_address: envelope.jd_address,
            data_type: envelope.data_type,
            source,
            created_at: envelope.created_at,
            received_at: envelope.received_at,
            meta: envelope.meta,
            content_file: owned(content_filename),
            pinned: false,
            starred: false,
        }
    }
}

/// What the content file holds.
pub enum ContentBody<'a> {
    /// Text, written as UTF-8.
    Text(String),
    /// Raw bytes, written as they are.
    Bytes(&'a Vec<u8>),
}

/// What `serde_json::to_string_pretty` gives for a JSON value; `None`
/// when it fails.
pub uninterp spec fn pretty_json(v: serde_json::Value) -> Option<Seq<char>>;

/// The content a payload writes: text as it is, JSON pretty-printed, raw
/// bytes, a file reference as `ref: {path}` and a newline (the file
/// itself stays where it is), a link as its text. `None` when the JSON
/// cannot be printed.
pub fn payload_body<'a>(payload: &'a Payload) -> (r: Option<ContentBody<'a>>)
    ensures
        match *payload {
            Payload::Text(t) => r matches Some(ContentBody::Text(s)) && s@ == t@,
            Payload::Json(v) => match pretty_json(v) {
                Some(j) => r matches Some(ContentBody::Text(s)) && s@ == j,
                None => r is None,
            },
            Payload::Bytes(b) => r matches Some(ContentBody::Bytes(x)) && *x == b,
            Payload::FilePath(p) => r matches Some(ContentBody::Text(s)) && s@ == seq![
                'r',
                'e',
                'f',
                ':',
                ' ',
            ] + p@ + seq!['\n'],
            Payload::Url(u) => r matches Some(ContentBody::Text(s)) && s@ == u@,
        },
{
    match payload {
        Payload::Text(t) => Some(ContentBody::Text(owned(t.as_str()))),
        Payload::Json(v) => match json_text(v) {
            Some(s) => Some(ContentBody::Text(s)),
            None => None,
        },
        Payload::Bytes(b) => Some(ContentBody::Bytes(b)),
        Payload::FilePath(p) => {
            proof {
                reveal_strlit("ref: ");
            }
            let mut s = owned("ref: ");
            push_all(&mut s, p.as_str());
            push_char(&mut s, '\n');
            Some(ContentBody::Text(s))
        },
        Payload::Url(u) => Some(ContentBody::Text(owned(u.as_str()))),
    }
}

/// `serde_json::to_string_pretty` on a JSON value.
#[verifier::external_body]
fn json_text(v: &serde_json::Value) -> (r: Option<String>)
    ensures
        match r {
            Some(s) => pretty_json(*v) == Some(s@),
            None => pretty_json(*v) is None,
        },
{
    serde_json::to_string_pretty(v).ok()
}

/// Where and under which names an envelope is written.
pub struct StorePlan {
    /// `{library}/{nest}/entries`, to be created if missing.
    pub entries_dir: String,
    pub content_filename: String,
    pub content_path: String,
    pub meta_path: String,
    /// The sidecar to write, as JSON, at `meta_path`.
    pub meta: EntryMeta,
}

/// The directory a Nest's entries go to.
pub open spec fn entries_dir_of(library_root: Seq<char>, jd_path: Seq<char>) -> Seq<char> {
    joined(joined(library_root, jd_path), seq!['e', 'n', 't', 'r', 'i', 'e', 's'])
}

/// The plan for writing `e` under the Nest at `jd_path`.
pub open spec fn plans(p: StorePlan, e: Envelope, library_root: Seq<char>, jd_path: Seq<char>, base: Seq<char>) -> bool {
    let dir = entries_dir_of(library_root, jd_path);
    &&& p.entries_dir@ == dir
    &&& p.content_filename@ == content_filename_of(base, e.payload)
    &&& p.content_path@ == joined(dir, content_filename_of(base, e.payload))
    &&& p.meta_path@ == joined(dir, meta_filename_of(base))
    &&& describes(p.meta, e, content_filename_of(base, e.payload))
}

/// Where the envelope goes under `library_root/jd_path/entries/`, the
/// two file names, and the sidecar; `None` when its creation time cannot
/// be rendered into a file name.
pub fn plan_store(envelope: Envelope, library_root: &str, jd_path: &str) -> (r: Option<StorePlan>)
    ensures
        match base_filename(envelope) {
            Some(base) => r matches Some(p) && plans(p, envelope, library_root@, jd_path@, base),
            None => r is None,
        },
{
    let base = match build_filename(&envelope) {
        Some(b) => b,
        None => {
            return None;
        },
    };
    proof {
        reveal_strlit("entries");
        reveal_strlit(".meta.json");
        assert("entries"@ =~= seq!['e', 'n', 't', 'r', 'i', 'e', 's']);
    }
    let node_dir = join_path(library_root, jd_path);
    let entries_dir = join_path(node_dir.as_str(), "entries");
    let mut content_filename = owned(base.as_str());
    push_char(&mut content_filename, '.');
    push_all(&mut content_filename, content_extension(&envelope.payload));
    let mut meta_filename = owned(base.as_str());
    push_all(&mut meta_filename, ".meta.json");
    proof {
        assert(meta_filename@ =~= meta_filename_of(base@));
        assert(content_filename@ =~= content_filename_of(base@, envelope.payload));
    }
    let content_path = join_path(entries_dir.as_str(), content_filename.as_str());
    let meta_path = join_path(entries_dir.as_str(), meta_filename.as_str());
    let meta = EntryMeta::from_envelope(envelope, content_filename.as_str());
    Some(StorePlan { entries_dir, content_filename, content_path, meta_path, meta })
}

/// The two files a store wrote.
#[derive(Debug, Clone)]
pub struct WriteResult {
    pub content_path: String,
    pub meta_path: String,
}

impl StorePlan {
    /// What was written once the plan is carried out.
    pub fn written(&self) -> (r: WriteResult)
        ensures
            r.content_path == self.content_path,
            r.meta_path == self.meta_path,
    {
        WriteResult { content_path: self.content_path.clone(), meta_path: self.meta_path.clone() }
    }
}

/// Law: an envelope's base file name is
/// `{stamp}_{origin}_{address}_{first eight characters of its id}`, with a
/// three-letter origin code (MAN, DEV, WEB, INT, FWD or OTH by source);
/// the address field is the envelope's address
/// whenever it has one, whatever its source, and "XX" only when it has
/// none. No name is given when the creation time cannot be rendered.
pub proof fn law_file_name_carries_the_address(e: Envelope)
    ensures
        utc_formatted(e.created_at.secs, e.created_at.nanos, "%Y%m%dT%H%M%SZ"@) is None ==> base_filename(e) is None,
        utc_formatted(e.created_at.secs, e.created_at.nanos, "%Y%m%dT%H%M%SZ"@) matches Some(st) ==> exists|o: Seq<char>|
            #![trigger o.len()]
            o.len() == 3 && o == match e.source {
                Source::Manual => "MAN"@,
                Source::Device(_) => "DEV"@,
                Source::WebHook(_) => "WEB"@,
                Source::Internal(_) => "INT"@,
                Source::Forwarded(_) => "FWD"@,
                Source::Other(_) => "OTH"@,
            } && base_filename(e) == Some(
                st + "_"@ + o + "_"@ + match e.jd_address {
                    Some(a) => a@,
                    None => "XX"@,
                } + "_"@ + uuid_text(e.id).take(8),
            ),
{
    reveal_strlit("_");
    reveal_strlit("XX");
    reveal_strlit("MAN");
    reveal_strlit("DEV");
    reveal_strlit("WEB");
    reveal_strlit("INT");
    reveal_strlit("FWD");
    reveal_strlit("OTH");
    reveal_strlit("%Y%m%dT%H%M%SZ");
    assert(stamp_format() =~= "%Y%m%dT%H%M%SZ"@);
    if let Some(st) = utc_formatted(e.created_at.secs, e.created_at.nanos, "%Y%m%dT%H%M%SZ"@) {
        let o = origin_of(e.source);
        assert(o.len() == 3);
        assert(o == match e.source {
            Source::Manual => "MAN"@,
            Source::Device(_) => "DEV"@,
            Source::WebHook(_) => "WEB"@,
            Source::Internal(_) => "INT"@,
            Source::Forwarded(_) => "FWD"@,
            Source::Other(_) => "OTH"@,
        });
        assert(seq!['_'] =~= "_"@);
        assert(seq!['X', 'X'] =~= "XX"@);
        assert(base_filename(e) == Some(
            st + "_"@ + o + "_"@ + match e.jd_address {
                Some(a) => a@,
                None => "XX"@,
            } + "_"@ + uuid_text(e.id).take(8),
        ));
    }
}

} // verus!
