// The Envelope: everything that enters the Mailroom travels in one.
//
// Ids are UUIDs held as their 128-bit value; times are UTC instants held
// as seconds and nanoseconds since the Unix epoch. The uuid and chrono
// crates do the generating and the rendering.
use vstd::prelude::*;

use crate::text::{owned, same_text};

verus! {

#[verifier::external_type_specification]
#[verifier::external_body]
pub struct ExJsonValue(serde_json::Value);

/// `Clone` for `serde_json::Value`: a copy of the tree. Nothing is stated
/// of the copy; the library never looks inside a JSON value.
pub assume_specification[<serde_json::Value as Clone>::clone](v: &serde_json::Value) -> (r:
    serde_json::Value);

/// A UTC instant: seconds and nanoseconds since 1970-01-01T00:00:00Z.
#[derive(Debug, Clone, Copy, PartialEq, Eq, Structural)]
pub struct Timestamp {
    pub secs: i64,
    pub nanos: u32,
}

/// Time order of instants.
pub open spec fn earlier(a: Timestamp, b: Timestamp) -> bool {
    a.secs < b.secs || (a.secs == b.secs && a.nanos < b.nanos)
}

pub fn is_earlier(a: Timestamp, b: Timestamp) -> (r: bool)
    ensures
        r == earlier(a, b),
{
    a.secs < b.secs || (a.secs == b.secs && a.nanos < b.nanos)
}

/// `chrono::Utc::now()`, as seconds and nanoseconds since the epoch. The
/// clock decides; nothing is stated of the result.
#[verifier::external_body]
pub(crate) fn now() -> Timestamp {
    let t = chrono::Utc::now();
    Timestamp { secs: t.timestamp(), nanos: t.timestamp_subsec_nanos() }
}

/// `uuid::Uuid::new_v4()`, as its 128-bit value. Random; nothing is stated
/// of the result.
#[verifier::external_body]
pub(crate) fn fresh_uuid() -> u128 {
    uuid::Uuid::new_v4().as_u128()
}

/// `16` to the power `e`.
pub open spec fn pow16(e: nat) -> nat
    decreases e,
{
    if e == 0 {
        1
    } else {
        16 * pow16((e - 1) as nat)
    }
}

/// The lower-case hexadecimal digit for `n` (below 16).
pub open spec fn hex_digit(n: nat) -> char {
    if n < 10 {
        (('0' as nat) + n) as char
    } else {
        (('a' as nat) + n - 10) as char
    }
}

/// The 32 hexadecimal digits of `id`, most significant first.
pub open spec fn hex32(id: u128) -> Seq<char> {
    Seq::new(32, |k: int| hex_digit(((id as nat) / pow16((31 - k) as nat)) % 16))
}

/// The hyphenated lower-case text of the UUID with this value, as
/// `Uuid::to_string` writes it: its 32 hexadecimal digits (the value's
/// big-endian bytes, which `Uuid::from_u128` keeps) in groups of 8, 4, 4,
/// 4 and 12, joined by '-'.
pub open spec fn uuid_text(id: u128) -> Seq<char> {
    let h = hex32(id);
    h.subrange(0, 8) + seq!['-'] + h.subrange(8, 12) + seq!['-'] + h.subrange(12, 16) + seq!['-']
        + h.subrange(16, 20) + seq!['-'] + h.subrange(20, 32)
}

/// `Uuid::from_u128(id).to_string()`: the hyphenated form, 36 characters
/// (`Hyphenated::LENGTH`).
#[verifier::external_body]
pub(crate) fn uuid_string(id: u128) -> (r: String)
    ensures
        r@ == uuid_text(id),
        r@.len() == 36,
{
    uuid::Uuid::from_u128(id).to_string()
}

/// What `DateTime::from_timestamp(secs, nanos)` formatted with the chrono
/// format string `fmt` gives; `None` when chrono cannot represent the
/// instant.
pub uninterp spec fn utc_formatted(secs: i64, nanos: u32, fmt: Seq<char>) -> Option<Seq<char>>;

/// A chrono format string that uses only the year, month, day, hour,
/// minute and second specifiers besides literal text: chrono renders such
/// a string for every representable instant (an unknown specifier would
/// make rendering fail, and `to_string` panic).
pub open spec fn plain_utc_format(fmt: Seq<char>) -> bool {
    forall|i: int|
        0 <= i < fmt.len() && #[trigger] fmt[i] == '%' ==> i + 1 < fmt.len() && (fmt[i + 1] == 'Y'
            || fmt[i + 1] == 'm' || fmt[i + 1] == 'd' || fmt[i + 1] == 'H' || fmt[i + 1] == 'M'
            || fmt[i + 1] == 'S')
}

/// `chrono::DateTime::from_timestamp(secs, nanos)` rendered with the
/// format string `fmt`; `None` when chrono rejects the instant as out of
/// range.
#[verifier::external_body]
pub(crate) fn format_utc(t: Timestamp, fmt: &str) -> (r: Option<String>)
    requires
        plain_utc_format(fmt@),
    ensures
        r matches Some(s) ==> utc_formatted(t.secs, t.nanos, fmt@) == Some(s@),
        r is None ==> utc_formatted(t.secs, t.nanos, fmt@) is None,
{
    chrono::DateTime::from_timestamp(t.secs, t.nanos).map(|d| d.format(fmt).to_string())
}

/// What `serde_json::Value::to_string` gives: the compact JSON text.
pub uninterp spec fn compact_json(v: serde_json::Value) -> Seq<char>;

/// `serde_json::Value::to_string`: the compact JSON text of the value
/// (its `Display`). Its result depends on the value alone.
#[verifier::external_body]
pub(crate) fn json_compact(v: &serde_json::Value) -> (r: String)
    ensures
        r@ == compact_json(*v),
{
    v.to_string()
}

/// Where an envelope came from.
#[derive(Debug, Clone)]
pub enum Source {
    Manual,
    Device(String),
    WebHook(String),
    Internal(String),
    Forwarded(String),
    Other(String),
}

/// What an envelope carries.
#[derive(Debug, Clone)]
pub enum Payload {
    Text(String),
    Json(serde_json::Value),
    Bytes(Vec<u8>),
    /// A path on the Mailroom's own disk; a reference, not a copy.
    FilePath(String),
    Url(String),
}

/// No key occurs twice in a list of metadata pairs.
pub open spec fn keys_unique(meta: Seq<(String, String)>) -> bool {
    forall|i: int, j: int| 0 <= i < j < meta.len() ==> #[trigger] meta[i].0@ != #[trigger] meta[j].0@
}

/// The value stored under `key` in a list of metadata pairs (the first
/// pair with that key).
pub open spec fn meta_value(meta: Seq<(String, String)>, key: Seq<char>) -> Option<String>
    decreases meta.len(),
{
    if meta.len() == 0 {
        None
    } else if meta[0].0@ == key {
        Some(meta[0].1)
    } else {
        meta_value(meta.drop_first(), key)
    }
}

/// Looking past a prefix in which `key` does not occur changes nothing.
proof fn lemma_meta_value_skip(meta: Seq<(String, String)>, i: int, key: Seq<char>)
    requires
        0 <= i <= meta.len(),
        forall|k: int| 0 <= k < i ==> #[trigger] meta[k].0@ != key,
    ensures
        meta_value(meta, key) == meta_value(meta.skip(i), key),
    decreases i,
{
    if i > 0 {
        assert forall|k: int| 0 <= k < i - 1 implies #[trigger] meta.drop_first()[k].0@ != key by {
            assert(meta.drop_first()[k] == meta[k + 1]);
        }
        lemma_meta_value_skip(meta.drop_first(), i - 1, key);
        assert(meta.drop_first().skip(i - 1) =~= meta.skip(i));
    } else {
        assert(meta.skip(0) =~= meta);
    }
}

/// The value stored under `key`.
pub fn meta_get<'a>(meta: &'a Vec<(String, String)>, key: &str) -> (r: Option<&'a String>)
    ensures
        match r {
            Some(v) => meta_value(meta@, key@) == Some(*v),
            None => meta_value(meta@, key@) is None,
        },
{
    let mut i: usize = 0;
    while i < meta.len()
        invariant
            i <= meta.len(),
            forall|k: int| 0 <= k < i ==> #[trigger] meta@[k].0@ != key@,
        decreases meta.len() - i,
    {
        if same_text(meta[i].0.as_str(), key) {
            proof {
                lemma_meta_value_skip(meta@, i as int, key@);
                assert(meta@.skip(i as int)[0] == meta@[i as int]);
            }
            return Some(&meta[i].1);
        }
        i = i + 1;
    }
    proof {
        lemma_meta_value_skip(meta@, i as int, key@);
    }
    None
}

/// Sets `key` to `value`: the pair with that key gets the new value in
/// place, or a pair is appended when the key is new.
pub fn set_meta(meta: &mut Vec<(String, String)>, key: &str, value: String)
    ensures
        meta_value(final(meta)@, key@) == Some(value),
        forall|k: Seq<char>| k != key@ ==> meta_value(final(meta)@, k) == meta_value(old(meta)@, k),
        keys_unique(old(meta)@) ==> keys_unique(final(meta)@),
{
    let mut i: usize = 0;
    while i < meta.len()
        invariant
            i <= meta.len(),
            meta@ == old(meta)@,
            forall|k: int| 0 <= k < i ==> #[trigger] meta@[k].0@ != key@,
        decreases meta.len() - i,
    {
        if same_text(meta[i].0.as_str(), key) {
            let k = owned(meta[i].0.as_str());
            let ghost before = meta@;
            meta.set(i, (k, value));
            proof {
                assert forall|q: Seq<char>|
                    #![trigger meta_value(meta@, q)]
                    meta_value(meta@, q) == if q == key@ {
                        Some(value)
                    } else {
                        meta_value(before, q)
                    } by {
                    lemma_meta_value_update(before, i as int, key@, meta@, q);
                }
                assert(keys_unique(before) ==> keys_unique(meta@)) by {
                    if keys_unique(before) {
                        assert forall|a: int, b: int| 0 <= a < b < meta@.len() implies #[trigger] meta@[a].0@
                            != #[trigger] meta@[b].0@ by {
                            assert(before[a].0@ != before[b].0@);
                        }
                    }
                }
            }
            return;
        }
        i = i + 1;
    }
    let ghost before = meta@;
    meta.push((owned(key), value));
    proof {
        assert forall|q: Seq<char>|
            #![trigger meta_value(meta@, q)]
            meta_value(meta@, q) == if q == key@ {
                Some(value)
            } else {
                meta_value(before, q)
            } by {
            lemma_meta_value_push(before, key@, meta@, q);
        }
        assert(keys_unique(before) ==> keys_unique(meta@)) by {
            if keys_unique(before) {
                assert forall|a: int, b: int| 0 <= a < b < meta@.len() implies #[trigger] meta@[a].0@
                    != #[trigger] meta@[b].0@ by {
                    if b == before.len() {
                        assert(meta@[a] == before[a]);
                    } else {
                        assert(before[a].0@ != before[b].0@);
                    }
                }
            }
        }
    }
}

proof fn lemma_meta_value_update(
    before: Seq<(String, String)>,
    i: int,
    key: Seq<char>,
    after: Seq<(String, String)>,
    q: Seq<char>,
)
    requires
        0 <= i < before.len(),
        before[i].0@ == key,
        forall|k: int| 0 <= k < i ==> #[trigger] before[k].0@ != key,
        after.len() == before.len(),
        after[i].0@ == key,
        forall|k: int| 0 <= k < before.len() && k != i ==> #[trigger] after[k] == before[k],
    ensures
        meta_value(after, q) == if q == key {
            Some(after[i].1)
        } else {
            meta_value(before, q)
        },
    decreases i,
{
    if i > 0 {
        assert forall|k: int| 0 <= k < i - 1 implies #[trigger] before.drop_first()[k].0@ != key by {
            assert(before.drop_first()[k] == before[k + 1]);
        }
        assert forall|k: int|
            0 <= k < before.len() - 1 && k != i - 1 implies #[trigger] after.drop_first()[k]
            == before.drop_first()[k] by {
            assert(after[k + 1] == before[k + 1]);
        }
        lemma_meta_value_update(before.drop_first(), i - 1, key, after.drop_first(), q);
        assert(after[0] == before[0]);
    } else {
        assert(after.drop_first() =~= before.drop_first());
    }
}

proof fn lemma_meta_value_push(
    before: Seq<(String, String)>,
    key: Seq<char>,
    after: Seq<(String, String)>,
    q: Seq<char>,
)
    requires
        forall|k: int| 0 <= k < before.len() ==> #[trigger] before[k].0@ != key,
        after.len() == before.len() + 1,
        forall|k: int| 0 <= k < before.len() ==> #[trigger] after[k] == before[k],
        after[before.len() as int].0@ == key,
    ensures
        meta_value(after, q) == if q == key {
            Some(after[before.len() as int].1)
        } else {
            meta_value(before, q)
        },
    decreases before.len(),
{
    if before.len() > 0 {
        assert forall|k: int|
            0 <= k < before.drop_first().len() implies #[trigger] before.drop_first()[k].0@ != key by {
            assert(before.drop_first()[k] == before[k + 1]);
        }
        assert forall|k: int|
            0 <= k < before.drop_first().len() implies #[trigger] after.drop_first()[k]
            == before.drop_first()[k] by {
            assert(after[k + 1] == before[k + 1]);
        }
        lemma_meta_value_push(before.drop_first(), key, after.drop_first(), q);
        assert(after.drop_first()[before.drop_first().len() as int] == after[before.len() as int]);
        assert(after[0] == before[0]);
        assert(before[0].0@ != key);
    } else {
        assert(after.drop_first().len() == 0);
        assert(meta_value(after.drop_first(), q) is None);
        assert(meta_value(before, q) is None);
    }
}

/// An envelope: one item travelling through the Mailroom.
#[derive(Debug, Clone)]
pub struct Envelope {
    pub id: u128,
    pub source: Source,
    pub data_type: String,
    pub payload: Payload,
    pub jd_address: Option<String>,
    /// Metadata pairs, each key once (`keys_unique`; `set_meta` keeps it).
    pub meta: Vec<(String, String)>,
    pub tags: Vec<String>,
    pub created_at: Timestamp,
    pub received_at: Timestamp,
}

/// An envelope as a caller sends it in, before the Mailroom gives it an
/// id and a reception time.
#[derive(Debug, Clone)]
pub struct InboundEnvelope {
    pub source: Source,
    pub data_type: String,
    pub payload: Payload,
    pub jd_address: Option<String>,
    /// Metadata pairs, each key once (`keys_unique`; `set_meta` keeps it).
    pub meta: Vec<(String, String)>,
    pub tags: Vec<String>,
    pub created_at: Option<Timestamp>,
}

impl Envelope {
    /// An envelope with this id, received (and, unless stated, created) at
    /// `now`.
    pub fn with_identity(
        id: u128,
        now: Timestamp,
        source: Source,
        data_type: String,
        payload: Payload,
        jd_address: Option<String>,
    ) -> (e: Envelope)
        ensures
            e.id == id,
            e.created_at == now,
            e.received_at == now,
            e.source == source,
            e.data_type == data_type,
            e.payload == payload,
            e.jd_address == jd_address,
            e.meta@.len() == 0,
            e.tags@.len() == 0,
    {
        Envelope {
            id,
            source,
            data_type,
            payload,
            jd_address,
            meta: Vec::new(),
            tags: Vec::new(),
            created_at: now,
            received_at: now,
        }
    }

    /// A fresh envelope: a new random id, created and received now.
    pub fn new(source: Source, data_type: String, payload: Payload, jd_address: Option<String>) -> (e:
        Envelope)
        ensures
            e.created_at == e.received_at,
            e.source == source,
            e.data_type == data_type,
            e.payload == payload,
            e.jd_address == jd_address,
            e.meta@.len() == 0,
            e.tags@.len() == 0,
    {
        let id = fresh_uuid();
        let t = now();
        Envelope::with_identity(id, t, source, data_type, payload, jd_address)
    }

    /// This envelope with metadata `key` set to `value`.
    pub fn with_meta(self, key: &str, value: String) -> (e: Envelope)
        ensures
            meta_value(e.meta@, key@) == Some(value),
            forall|k: Seq<char>| k != key@ ==> meta_value(e.meta@, k) == meta_value(self.meta@, k),
            keys_unique(self.meta@) ==> keys_unique(e.meta@),
            e.id == self.id,
            e.source == self.source,
            e.data_type == self.data_type,
            e.payload == self.payload,
            e.jd_address == self.jd_address,
            e.tags == self.tags,
            e.created_at == self.created_at,
            e.received_at == self.received_at,
    {
        let mut e = self;
        set_meta(&mut e.meta, key, value);
        e
    }
}

impl InboundEnvelope {
    /// The envelope this becomes with this id, received at `now` and
    /// created at its own `created_at` when given, else at `now`.
    pub fn into_envelope_at(self, id: u128, now: Timestamp) -> (e: Envelope)
        ensures
            e.id == id,
            e.received_at == now,
            e.created_at == match self.created_at {
                Some(t) => t,
                None => now,
            },
            e.source == self.source,
            e.data_type == self.data_type,
            e.payload == self.payload,
            e.jd_address == self.jd_address,
            e.meta == self.meta,
            e.tags == self.tags,
    {
        let created_at = match self.created_at {
            Some(t) => t,
            None => now,
        };
        Envelope {
            id,
            source: self.source,
            data_type: self.data_type,
            payload: self.payload,
            jd_address: self.jd_address,
            meta: self.meta,
            tags: self.tags,
            created_at,
            received_at: now,
        }
    }

    /// The envelope this becomes: a new random id, received now.
    pub fn into_envelope(self) -> (e: Envelope)
        ensures
            self.created_at matches Some(t) ==> e.created_at == t,
            self.created_at is None ==> e.created_at == e.received_at,
            e.source == self.source,
            e.data_type == self.data_type,
            e.payload == self.payload,
            e.jd_address == self.jd_address,
            e.meta == self.meta,
            e.tags == self.tags,
    {
        let id = fresh_uuid();
        let t = now();
        self.into_envelope_at(id, t)
    }
}

} // verus!
