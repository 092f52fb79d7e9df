// The attendant of a Rookery: a Nest whose `nest` file sets
// `mailroom.mints_subnests`. An envelope addressed there gets a child Nest
// of its own, addressed by its content: `{gate}-{first 8 hex chars of the
// content hash}`. The same content sent twice finds the child it already
// has (a dedup hit) and nothing more is written.
use vstd::prelude::*;
use vstd::utf8::encode_utf8;

use crate::cleanup::{clean, cleaned};
use crate::envelope::{Envelope, Payload, compact_json, json_compact, meta_get, meta_value, uuid_string, uuid_text};
use crate::manifest::{
    MailroomConfig, Manifest, NodeKind, StoreKind, effective_path_of,
};
use crate::registry::{Registry, ids_distinct, insert_into, law_insert_then_lookup, lookup};
use crate::slug::{slug_of, slugify};
use crate::text::{chars_of, owned, push_all, push_char, same_text, string_from_range};

verus! {

/// The child addressing strategy a Rookery asks for: `content_hash`
/// unless its `[mailroom]` table names another.
pub open spec fn strategy_of(gate: Manifest) -> Seq<char> {
    match gate.mailroom {
        Some(c) => match c.child_addressing {
            Some(s) => s@,
            None => "content_hash"@,
        },
        None => "content_hash"@,
    }
}

/// Why the attendant could not take an envelope.
#[derive(Debug, Clone)]
pub enum IntakeError {
    /// The Rookery names a strategy other than `content_hash`.
    UnknownStrategy { gate_id: String, strategy: String },
    /// The payload has nothing local to hash (a bare link, say).
    NothingToHash,
}

impl IntakeError {
    /// The error text.
    pub fn message(&self) -> (r: String)
        ensures
            match self {
                IntakeError::UnknownStrategy { gate_id, strategy } => r@ == "Rookery "@ + gate_id@
                    + " requests unknown child_addressing strategy '"@ + strategy@
                    + "' — only 'content_hash' exists today"@,
                IntakeError::NothingToHash => r@
                    == "content_hash addressing needs hashable content — this envelope's payload (e.g. a bare Url) has nothing local to hash"@,
            },
    {
        match self {
            IntakeError::UnknownStrategy { gate_id, strategy } => {
                let mut r = owned("Rookery ");
                push_all(&mut r, gate_id.as_str());
                push_all(&mut r, " requests unknown child_addressing strategy '");
                push_all(&mut r, strategy.as_str());
                push_all(&mut r, "' — only 'content_hash' exists today");
                r
            },
            IntakeError::NothingToHash => owned(
                "content_hash addressing needs hashable content — this envelope's payload (e.g. a bare Url) has nothing local to hash",
            ),
        }
    }
}

/// `{gate}-{first eight characters of the hash}`.
pub open spec fn child_id_of(gate_id: Seq<char>, hash: Seq<char>) -> Seq<char> {
    gate_id + seq!['-'] + hash.take(8)
}

/// The SHA-256 digest of `data`, written as lower-case hexadecimal, as
/// the sha2 crate computes it.
pub uninterp spec fn sha256_hex(data: Seq<u8>) -> Seq<char>;

/// `Sha256::digest(data)` from the sha2 crate, formatted with `{:x}`:
/// generic-array writes each of the 32 digest bytes as two lower-case hex
/// digits, so the text is 64 characters long. The digest depends on the
/// bytes alone.
#[verifier::external_body]
fn sha256_of(data: &Vec<u8>) -> (r: String)
    ensures
        r@ == sha256_hex(data@),
        r@.len() == 64,
{
    format!("{:x}", <sha2::Sha256 as sha2::Digest>::digest(data.as_slice()))
}

/// Where a payload's content hash is taken from.
#[derive(Debug, Clone)]
pub enum HashSource {
    /// These bytes.
    Bytes(Vec<u8>),
    /// The bytes of the file at this path on the Mailroom's disk.
    File(String),
    /// Nothing local to hash (a link).
    Nothing,
}

/// What a payload's content is, for hashing: text as UTF-8, JSON as the
/// UTF-8 of its compact text, raw bytes as they are, a file by its path;
/// a link has nothing to hash.
pub open spec fn hash_source_of(p: Payload, r: HashSource) -> bool {
    match p {
        Payload::Text(t) => r matches HashSource::Bytes(b) && b@ == encode_utf8(t@),
        Payload::Json(v) => r matches HashSource::Bytes(b) && b@ == encode_utf8(compact_json(v)),
        Payload::Bytes(d) => r matches HashSource::Bytes(b) && b@ == d@,
        Payload::FilePath(f) => r matches HashSource::File(g) && g@ == f@,
        Payload::Url(_) => r is Nothing,
    }
}

/// Where the content hash of `payload` comes from.
pub fn hash_source(payload: &Payload) -> (r: HashSource)
    ensures
        hash_source_of(*payload, r),
{
    match payload {
        Payload::Text(t) => HashSource::Bytes(t.as_str().as_bytes_vec()),
        Payload::Json(v) => {
            let text = json_compact(v);
            HashSource::Bytes(text.as_str().as_bytes_vec())
        },
        Payload::Bytes(d) => {
            let mut out: Vec<u8> = Vec::new();
            let mut i: usize = 0;
            while i < d.len()
                invariant
                    i <= d@.len(),
                    out@ == d@.take(i as int),
                decreases d.len() - i,
            {
                out.push(d[i]);
                proof {
                    assert(d@.take(i + 1) =~= d@.take(i as int).push(d@[i as int]));
                }
                i = i + 1;
            }
            proof {
                assert(d@.take(d@.len() as int) =~= d@);
            }
            HashSource::Bytes(out)
        },
        Payload::FilePath(f) => HashSource::File(owned(f.as_str())),
        Payload::Url(_) => HashSource::Nothing,
    }
}

/// The child's address for content `content` under content-hash
/// addressing: `{gate}-{first eight hex digits of its SHA-256}`; an error
/// when there was nothing to hash.
pub fn content_hash_child_id(gate: &Manifest, content: Option<&Vec<u8>>) -> (r: Result<String, IntakeError>)
    ensures
        match content {
            Some(b) => r matches Ok(id) && id@ == child_id_of(gate.id@, sha256_hex(b@)),
            None => r matches Err(e) && e is NothingToHash,
        },
{
    match content {
        None => Err(IntakeError::NothingToHash),
        Some(b) => {
            let h = sha256_of(b);
            let cs = chars_of(h.as_str());
            let short = string_from_range(&cs, 0, 8);
            let mut id = owned(gate.id.as_str());
            push_char(&mut id, '-');
            push_all(&mut id, short.as_str());
            proof {
                assert(cs@.subrange(0, 8) =~= h@.take(8));
            }
            Ok(id)
        },
    }
}

/// The text a child's name is made from: the envelope's `title`, else its
/// `filename`, else its id.
pub open spec fn slug_source(e: Envelope) -> Seq<char> {
    match meta_value(e.meta@, "title"@) {
        Some(t) => t@,
        None => match meta_value(e.meta@, "filename"@) {
            Some(f) => f@,
            None => uuid_text(e.id),
        },
    }
}

/// The child's folder name: the cleaned title (or file name, or id),
/// slugged.
pub open spec fn child_name_of(e: Envelope, phrases: Seq<Seq<char>>) -> Seq<char> {
    slug_of(cleaned(slug_source(e), phrases))
}

/// A short readable slug for the child's folder: the title, else the file
/// name, else the envelope id, cleaned of the listed phrases and made
/// filesystem-safe.
pub fn child_slug(envelope: &Envelope, cleanup_phrases: &[String]) -> (r: String)
    ensures
        r@ == child_name_of(*envelope, cleanup_phrases@.map_values(|p: String| p@)),
{
    let raw = match meta_get(&envelope.meta, "title") {
        Some(t) => owned(t.as_str()),
        None => match meta_get(&envelope.meta, "filename") {
            Some(f) => owned(f.as_str()),
            None => uuid_string(envelope.id),
        },
    };
    let cleaned_title = clean(raw.as_str(), cleanup_phrases);
    slugify(cleaned_title.as_str())
}

/// The Nest minted for an envelope: a leaf at `{gate path}/{id}_{name}`
/// that takes the envelope's data type, overwrites, is active and mints
/// nothing itself, and carries the envelope's call number.
pub open spec fn minted_child(m: Manifest, gate: Manifest, e: Envelope, id: Seq<char>, name: Seq<char>) -> bool {
    &&& m.id@ == id
    &&& m.name@ == name
    &&& m.path matches Some(p) && p@ == effective_path_of(gate) + seq!['/'] + id + seq!['_'] + name
    &&& m.kind == NodeKind::Leaf
    &&& m.accepts@.len() == 1
    &&& m.accepts@[0]@ == e.data_type@
    &&& m.store == Some(StoreKind::Overwrite)
    &&& m.routing is None
    &&& m.library is None
    &&& m.mailroom matches Some(c) && c.active && !c.requires_auth && !c.notify_on_write
        && !c.ai_classify && !c.mints_subnests && c.child_addressing is None
    &&& m.about is None
    &&& m.known_tags@.len() == 0
    &&& match meta_value(e.meta@, "call_number"@) {
        Some(c) => m.call_number matches Some(n) && n@ == c@,
        None => m.call_number is None,
    }
}

/// The child Nest for an envelope, with this address and name.
pub fn child_manifest(gate: &Manifest, envelope: &Envelope, child_id: &str, name: &str) -> (m: Manifest)
    ensures
        minted_child(m, *gate, *envelope, child_id@, name@),
{
    let mut path = gate.effective_path();
    push_char(&mut path, '/');
    push_all(&mut path, child_id);
    push_char(&mut path, '_');
    push_all(&mut path, name);
    assert(path@ =~= effective_path_of(*gate) + seq!['/'] + child_id@ + seq!['_'] + name@);
    let mut accepts: Vec<String> = Vec::new();
    accepts.push(owned(envelope.data_type.as_str()));
    let call_number = match meta_get(&envelope.meta, "call_number") {
        Some(c) => Some(owned(c.as_str())),
        None => None,
    };
    Manifest {
        id: owned(child_id),
        name: owned(name),
        path: Some(path),
        kind: NodeKind::Leaf,
        accepts,
        store: Some(StoreKind::Overwrite),
        routing: None,
        library: None,
        mailroom: Some(
            MailroomConfig {
                active: true,
                requires_auth: false,
                notify_on_write: false,
                ai_classify: false,
                mints_subnests: false,
                child_addressing: None,
            },
        ),
        about: None,
        known_tags: Vec::new(),
        call_number,
    }
}

/// What the attendant does with an envelope.
pub enum Intake<'a> {
    /// The same content already has this Nest: answer with it, write
    /// nothing.
    Existing(&'a Manifest),
    /// Create this Nest's directory and `nest` file, register it, store
    /// the envelope under it, and answer with it.
    Mint(Manifest),
}

/// The attendant's decision for an envelope at Rookery `gate`, whose
/// content is `content` (the bytes `hash_source` names; `None` when there
/// is nothing to hash): an unknown strategy or nothing to hash is refused; a child
/// already registered under the content's address is reused; otherwise a
/// fresh child is minted.
pub fn plan_intake<'a>(
    registry: &'a Registry,
    envelope: &Envelope,
    gate: &Manifest,
    content: Option<&Vec<u8>>,
    cleanup_phrases: &[String],
) -> (r: Result<Intake<'a>, IntakeError>)
    requires
        registry.wf(),
    ensures
        strategy_of(*gate) != "content_hash"@ ==> (r matches Err(IntakeError::UnknownStrategy {
            gate_id,
            strategy,
        }) && gate_id@ == gate.id@ && strategy@ == strategy_of(*gate)),
        strategy_of(*gate) == "content_hash"@ ==> match content {
            None => r matches Err(e) && e is NothingToHash,
            Some(b) => {
                let id = child_id_of(gate.id@, sha256_hex(b@));
                match lookup(registry@, id) {
                    Some(existing) => r matches Ok(Intake::Existing(m)) && *m == existing,
                    None => r matches Ok(Intake::Mint(m)) && minted_child(
                        m,
                        *gate,
                        *envelope,
                        id,
                        child_name_of(*envelope, cleanup_phrases@.map_values(|p: String| p@)),
                    ),
                }
            },
        },
{
    let strategy = match &gate.mailroom {
        Some(c) => match &c.child_addressing {
            Some(s) => owned(s.as_str()),
            None => owned("content_hash"),
        },
        None => owned("content_hash"),
    };
    if !same_text(strategy.as_str(), "content_hash") {
        return Err(IntakeError::UnknownStrategy { gate_id: owned(gate.id.as_str()), strategy });
    }
    let child_id = match content_hash_child_id(gate, content) {
        Ok(id) => id,
        Err(e) => {
            return Err(e);
        },
    };
    match registry.get(child_id.as_str()) {
        Some(existing) => Ok(Intake::Existing(existing)),
        None => {
            let name = child_slug(envelope, cleanup_phrases);
            Ok(Intake::Mint(child_manifest(gate, envelope, child_id.as_str(), name.as_str())))
        },
    }
}

/// Law: once the child minted for some content is registered, the same
/// content sent to the same Rookery again (in any envelope) finds that
/// child, a dedup hit: its address is the one the second call computes,
/// and the registry holds the child there. So a second `plan_intake` over
/// the updated registry answers `Existing` with that child, and mints
/// nothing.
pub proof fn law_same_content_finds_its_child(
    reg: Seq<Manifest>,
    gate: Manifest,
    first: Envelope,
    content: Seq<u8>,
    again: Seq<u8>,
    name: Seq<char>,
    child: Manifest,
)
    requires
        ids_distinct(reg),
        minted_child(child, gate, first, child_id_of(gate.id@, sha256_hex(content)), name),
        again == content,
    ensures
        lookup(insert_into(reg, child), child_id_of(gate.id@, sha256_hex(again))) == Some(child),
        ids_distinct(insert_into(reg, child)),
{
    law_insert_then_lookup(reg, child, child_id_of(gate.id@, sha256_hex(content)));
}

} // verus!
