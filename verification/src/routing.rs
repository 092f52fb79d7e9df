// The routing decision: what the Mailroom does with an envelope that
// arrives at POST /envelope or POST /envelope/upload.
//
// The handlers alternate between deciding and doing (writing to disk,
// minting a child Nest). The deciding lives here: each step says what to
// do next, or what to answer.
use vstd::prelude::*;

use crate::envelope::{Envelope, Payload, Source, Timestamp, fresh_uuid, meta_value, now};
use crate::manifest::{Manifest, mints_subnests_of};
use crate::registry::{Registry, lookup};
use crate::text::{
    chars_of, has_prefix, is_ascii_digit, lemma_tail_len_unique, owned, push_all, same_text,
    starts_with,
    string_from_range, trim, trim_end_by, trim_ws,
};

verus! {

/// What the Mailroom decided to do with an envelope.
#[derive(Debug, Clone, Copy, PartialEq, Eq, Structural)]
pub enum RoutingAction {
    /// Address found in the registry; the envelope is stored there.
    Accepted,
    /// No address was given: it is queued at 82.2 for classification;
    /// nothing is stored.
    PendingClassification,
    /// The address given is not in the registry; it goes to 82.2 for a
    /// human to sort.
    Unclassified,
    /// The Nest exists but does not take this data type; it goes to 82.2.
    TypeMismatch,
}

/// The answer to the caller: where the envelope went and why.
#[derive(Debug, Clone)]
pub struct RoutingDecision {
    pub envelope_id: u128,
    pub routed_to: String,
    pub node_name: Option<String>,
    pub action: RoutingAction,
}

/// An HTTP status and the decision sent with it.
#[derive(Debug, Clone)]
pub struct Reply {
    pub status: u16,
    pub decision: RoutingDecision,
}

/// The next step for an envelope at POST /envelope.
pub enum Dispatch<'a> {
    /// Answer now; nothing is written.
    Answer(Reply),
    /// Write the envelope under this Nest, then answer
    /// `accepted(id, nest.id, nest.name)`.
    Store(&'a Manifest),
    /// Hand the envelope to the attendant of this Rookery, then answer
    /// `accepted` with the Nest it landed in (the Rookery itself if the
    /// attendant fails).
    Mint(&'a Manifest),
}

/// The address of the holding Nest every envelope without a usable home
/// goes to.
pub open spec fn holding_address() -> Seq<char> {
    seq!['8', '2', '.', '2']
}

/// The name of the holding Nest (82.2, Unclassified).
pub open spec fn holding_name() -> Seq<char> {
    seq!['U', 'n', 'c', 'l', 'a', 's', 's', 'i', 'f', 'i', 'e', 'd']
}

/// A decision that sends the envelope to the holding Nest (82.2, Unclassified).
pub open spec fn is_held(d: RoutingDecision, id: u128, action: RoutingAction) -> bool {
    &&& d.envelope_id == id
    &&& d.routed_to@ == holding_address()
    &&& d.node_name matches Some(n) && n@ == holding_name()
    &&& d.action == action
}

/// A decision that accepts the envelope at `routed_to`, named `name`.
pub open spec fn is_accepted(d: RoutingDecision, id: u128, routed_to: Seq<char>, name: Seq<char>) -> bool {
    &&& d.envelope_id == id
    &&& d.routed_to@ == routed_to
    &&& d.node_name matches Some(n) && n@ == name
    &&& d.action == RoutingAction::Accepted
}

/// Sends the envelope to the holding Nest (82.2, Unclassified) with this action.
pub fn hold(id: u128, action: RoutingAction, status: u16) -> (r: Reply)
    ensures
        r.status == status,
        is_held(r.decision, id, action),
{
    proof {
        reveal_strlit("82.2");
        reveal_strlit("Unclassified");
        assert("82.2"@ =~= holding_address());
        assert("Unclassified"@ =~= holding_name());
    }
    let routed_to = owned("82.2");
    let name = owned("Unclassified");
    Reply {
        status,
        decision: RoutingDecision { envelope_id: id, routed_to, node_name: Some(name), action },
    }
}

/// Accepts the envelope at `routed_to`, in the Nest named `name`.
pub fn accepted(id: u128, routed_to: &str, name: &str, status: u16) -> (r: Reply)
    ensures
        r.status == status,
        is_accepted(r.decision, id, routed_to@, name@),
{
    Reply {
        status,
        decision: RoutingDecision {
            envelope_id: id,
            routed_to: owned(routed_to),
            node_name: Some(owned(name)),
            action: RoutingAction::Accepted,
        },
    }
}

/// The character `*`.
pub open spec fn is_star(c: char) -> bool {
    c == '*'
}

/// Whether one `accepts` entry takes data type `dt`: `any`, the type
/// itself, or a prefix pattern such as `text/*` (trailing `*`s removed,
/// then a prefix test).
pub open spec fn pattern_accepts(pattern: Seq<char>, dt: Seq<char>) -> bool {
    ||| pattern == seq!['a', 'n', 'y']
    ||| pattern == dt
    ||| has_prefix(dt, trim_end_by(pattern, |c: char| is_star(c)))
}

/// Whether a Nest with this `accepts` list takes data type `dt`: an empty
/// list takes anything.
pub open spec fn accepts_type(accepts: Seq<String>, dt: Seq<char>) -> bool {
    accepts.len() == 0 || exists|i: int| 0 <= i < accepts.len() && pattern_accepts(#[trigger] accepts[i]@, dt)
}

/// `str::trim_end_matches('*')`.
pub fn trim_stars(s: &str) -> (r: String)
    ensures
        r@ == trim_end_by(s@, |c: char| is_star(c)),
{
    let ghost p = |c: char| is_star(c);
    let cs = chars_of(s);
    let mut to = cs.len();
    while to > 0 && cs[to - 1] == '*'
        invariant
            to <= cs.len(),
            forall|i: int| to <= i < cs.len() ==> is_star(#[trigger] cs@[i]),
        decreases to,
    {
        to = to - 1;
    }
    proof {
        lemma_tail_len_unique(cs@, p, cs.len() - to);
        assert(cs@.subrange(0, to as int) =~= cs@.take(to as int));
    }
    string_from_range(&cs, 0, to)
}

/// Whether one `accepts` entry takes data type `dt`.
pub fn pattern_takes(pattern: &str, dt: &str) -> (r: bool)
    ensures
        r == pattern_accepts(pattern@, dt@),
{
    proof {
        reveal_strlit("any");
        assert("any"@ =~= seq!['a', 'n', 'y']);
    }
    if same_text(pattern, "any") || same_text(pattern, dt) {
        return true;
    }
    let stem = trim_stars(pattern);
    starts_with(dt, stem.as_str())
}

/// Whether a Nest with this `accepts` list takes data type `dt`.
pub fn takes_type(accepts: &Vec<String>, dt: &str) -> (r: bool)
    ensures
        r == accepts_type(accepts@, dt@),
{
    if accepts.len() == 0 {
        return true;
    }
    let mut i: usize = 0;
    while i < accepts.len()
        invariant
            i <= accepts.len(),
            forall|k: int| 0 <= k < i ==> !pattern_accepts(#[trigger] accepts@[k]@, dt@),
        decreases accepts.len() - i,
    {
        if pattern_takes(accepts[i].as_str(), dt) {
            return true;
        }
        i = i + 1;
    }
    false
}

/// Whether a classifier's answer looks like a JD address: after trimming
/// white space it is non-empty and starts with an ASCII digit ("34",
/// "34.2", "34.2-A"; not "I think this belongs in…").
pub open spec fn looks_like_address(s: Seq<char>) -> bool {
    trim_ws(s).len() > 0 && is_ascii_digit(trim_ws(s)[0])
}

/// Whether a classifier's answer looks like a JD address.
pub fn is_valid_jd_address(s: &str) -> (r: bool)
    ensures
        r == looks_like_address(s@),
{
    let t = trim(s);
    let cs = chars_of(t.as_str());
    if cs.len() == 0 {
        return false;
    }
    let c = cs[0];
    '0' <= c && c <= '9'
}

/// What POST /envelope does with `e` first.
pub open spec fn first_step(reg: Seq<Manifest>, e: Envelope, d: Dispatch) -> bool {
    match e.jd_address {
        None => d matches Dispatch::Answer(r) && r.status == 202 && is_held(
            r.decision,
            e.id,
            RoutingAction::PendingClassification,
        ),
        Some(a) => match lookup(reg, a@) {
            None => d matches Dispatch::Answer(r) && r.status == 202 && is_held(
                r.decision,
                e.id,
                RoutingAction::Unclassified,
            ),
            Some(m) => if !accepts_type(m.accepts@, e.data_type@) {
                d matches Dispatch::Answer(r) && r.status == 200 && is_held(
                    r.decision,
                    e.id,
                    RoutingAction::TypeMismatch,
                )
            } else if mints_subnests_of(m) {
                d matches Dispatch::Mint(g) && *g == m
            } else {
                d matches Dispatch::Store(n) && *n == m
            },
        },
    }
}

/// The first routing step for an envelope at POST /envelope: no address
/// is queued for classification (202, held at 82.2, nothing stored); an
/// address not in the registry goes to 82.2 as unclassified (202); a Nest that does not take the data type sends
/// it to 82.2 (200); a Rookery mints a child; any other Nest stores it.
pub fn route<'a>(registry: &'a Registry, envelope: &Envelope) -> (d: Dispatch<'a>)
    requires
        registry.wf(),
    ensures
        first_step(registry@, *envelope, d),
{
    match &envelope.jd_address {
        None => Dispatch::Answer(hold(envelope.id, RoutingAction::PendingClassification, 202)),
        Some(address) => match registry.get(address.as_str()) {
            None => Dispatch::Answer(hold(envelope.id, RoutingAction::Unclassified, 202)),
            Some(m) => {
                if !takes_type(&m.accepts, envelope.data_type.as_str()) {
                    Dispatch::Answer(hold(envelope.id, RoutingAction::TypeMismatch, 200))
                } else if m.mints_subnests() {
                    Dispatch::Mint(m)
                } else {
                    Dispatch::Store(m)
                }
            },
        },
    }
}

/// The fields of a POST /envelope/upload form, as they arrived.
#[derive(Debug, Clone)]
pub struct UploadForm {
    /// The `file` field's bytes.
    pub file: Option<Vec<u8>>,
    /// The file name the `file` field carried.
    pub filename: Option<String>,
    pub data_type: Option<String>,
    pub jd_address: Option<String>,
    pub title: Option<String>,
}

/// Why an upload was refused (400 Bad Request).
#[derive(Debug, Clone)]
pub enum UploadError {
    /// One of `file`, `data_type`, `jd_address` is missing.
    MissingFields,
    /// No Nest has this address.
    UnknownAddress(String),
}

impl UploadError {
    /// The error text sent back to the caller.
    pub fn message(&self) -> (r: String)
        ensures
            match self {
                UploadError::MissingFields => r@
                    == "upload requires 'file', 'data_type', and 'jd_address' fields"@,
                UploadError::UnknownAddress(a) => r@ == "unknown jd_address: "@ + a@,
            },
    {
        match self {
            UploadError::MissingFields => owned(
                "upload requires 'file', 'data_type', and 'jd_address' fields",
            ),
            UploadError::UnknownAddress(a) => {
                let mut r = owned("unknown jd_address: ");
                push_all(&mut r, a.as_str());
                r
            },
        }
    }
}

/// The metadata keys an upload may set.
pub open spec fn title_key() -> Seq<char> {
    seq!['t', 'i', 't', 'l', 'e']
}

pub open spec fn filename_key() -> Seq<char> {
    seq!['f', 'i', 'l', 'e', 'n', 'a', 'm', 'e']
}

/// The envelope an upload form makes, with this id, received at `t`.
pub open spec fn upload_made(form: UploadForm, id: u128, t: Timestamp, e: Envelope) -> bool {
    &&& e.id == id
    &&& e.created_at == t
    &&& e.received_at == t
    &&& e.source == Source::Manual
    &&& e.data_type == form.data_type.unwrap()
    &&& e.payload == Payload::Bytes(form.file.unwrap())
    &&& e.jd_address == form.jd_address
    &&& meta_value(e.meta@, title_key()) == form.title
    &&& meta_value(e.meta@, filename_key()) == form.filename
    &&& forall|k: Seq<char>|
        k != title_key() && k != filename_key() ==> #[trigger] meta_value(e.meta@, k) is None
    &&& e.tags@.len() == 0
}

/// Whether the form has the three required fields.
pub open spec fn upload_complete(form: UploadForm) -> bool {
    form.file is Some && form.data_type is Some && form.jd_address is Some
}

/// The envelope an upload form makes, with this id, received at `t`: a
/// manual envelope carrying the file's bytes, addressed as the form says,
/// with the form's title and file name as metadata.
pub fn upload_envelope_at(form: UploadForm, id: u128, t: Timestamp) -> (r: Result<Envelope, UploadError>)
    ensures
        upload_complete(form) <==> r is Ok,
        r matches Ok(e) ==> upload_made(form, id, t, e),
        r matches Err(err) ==> err is MissingFields,
{
    let UploadForm { file, filename, data_type, jd_address, title } = form;
    let (bytes, data_type, jd_address) = match (file, data_type, jd_address) {
        (Some(b), Some(d), Some(j)) => (b, d, j),
        _ => {
            return Err(UploadError::MissingFields);
        },
    };
    let mut e = Envelope::with_identity(
        id,
        t,
        Source::Manual,
        data_type,
        Payload::Bytes(bytes),
        Some(jd_address),
    );
    proof {
        reveal_strlit("title");
        reveal_strlit("filename");
        assert("title"@ =~= title_key());
        assert("filename"@ =~= filename_key());
        assert(title_key() != filename_key()) by {
            assert(title_key().len() != filename_key().len());
        }
        assert forall|k: Seq<char>| #[trigger] meta_value(e.meta@, k) is None by {}
    }
    match title {
        Some(v) => {
            e = e.with_meta("title", v);
        },
        None => {},
    }
    match filename {
        Some(v) => {
            e = e.with_meta("filename", v);
        },
        None => {},
    }
    Ok(e)
}

/// The envelope an upload form makes: a fresh id, received now.
pub fn upload_envelope(form: UploadForm) -> (r: Result<Envelope, UploadError>)
    ensures
        upload_complete(form) <==> r is Ok,
        r matches Ok(e) ==> upload_made(form, e.id, e.received_at, e),
        r matches Err(err) ==> err is MissingFields,
{
    let id = fresh_uuid();
    let t = now();
    upload_envelope_at(form, id, t)
}

/// Where an uploaded envelope goes.
pub enum UploadTarget<'a> {
    /// Write it under this Nest, then answer `accepted(id, nest.id,
    /// nest.name, 201)`.
    Store(&'a Manifest),
    /// Hand it to the attendant of this Rookery, then answer `accepted`
    /// with the Nest it landed in (201).
    Mint(&'a Manifest),
}

/// Where an upload addressed to `jd_address` goes: a Rookery mints a
/// child, any other Nest stores it (uploads skip the data-type check);
/// an unknown address is refused.
pub fn upload_target<'a>(registry: &'a Registry, jd_address: &str) -> (r: Result<UploadTarget<'a>, UploadError>)
    requires
        registry.wf(),
    ensures
        match lookup(registry@, jd_address@) {
            None => r matches Err(UploadError::UnknownAddress(a)) && a@ == jd_address@,
            Some(m) => if mints_subnests_of(m) {
                r matches Ok(UploadTarget::Mint(g)) && *g == m
            } else {
                r matches Ok(UploadTarget::Store(n)) && *n == m
            },
        },
{
    match registry.get(jd_address) {
        None => Err(UploadError::UnknownAddress(owned(jd_address))),
        Some(m) => if m.mints_subnests() {
            Ok(UploadTarget::Mint(m))
        } else {
            Ok(UploadTarget::Store(m))
        },
    }
}

/// Law: whenever POST /envelope answers without storing anything (no
/// address, an unknown address, a rejected data type), the envelope is
/// sent to the holding Nest (82.2, Unclassified), never Accepted; and an
/// envelope with no address is always answered that way, as pending
/// classification.
pub proof fn law_unstored_goes_to_holding(reg: Seq<Manifest>, e: Envelope, d: Dispatch)
    ensures
        first_step(reg, e, d) && d is Answer ==> ({
            let r = d->Answer_0;
            &&& r.decision.routed_to@ == holding_address()
            &&& r.decision.node_name matches Some(n) && n@ == holding_name()
            &&& r.decision.action != RoutingAction::Accepted
        }),
        first_step(reg, e, d) && e.jd_address is None ==> (d matches Dispatch::Answer(r)
            && r.decision.action == RoutingAction::PendingClassification),
{
}

/// Law: a Nest takes data type `dt` exactly when its `accepts` list is
/// empty, or some entry of the list, at any position, is "any", is `dt`
/// itself, or (without its trailing '*'s) is a prefix of `dt`. So a type
/// that the `k`-th entry alone takes is taken by the whole list, and adding
/// an entry to a non-empty list never turns a taken type away (an empty
/// list takes everything, so its first entry narrows it).
pub proof fn law_any_entry_takes_the_type(accepts: Seq<String>, dt: Seq<char>, k: int, extra: String)
    ensures
        accepts.len() == 0 ==> accepts_type(accepts, dt),
        0 <= k < accepts.len() && (accepts[k]@ == dt || accepts[k]@ == "any"@) ==> accepts_type(accepts, dt),
        0 <= k < accepts.len() && has_prefix(dt, trim_end_by(accepts[k]@, |c: char| c == '*')) ==> accepts_type(
            accepts,
            dt,
        ),
        accepts.len() > 0 && accepts_type(accepts, dt) ==> exists|i: int|
            0 <= i < accepts.len() && (#[trigger] accepts[i]@ == "any"@ || accepts[i]@ == dt || has_prefix(
                dt,
                trim_end_by(accepts[i]@, |c: char| c == '*'),
            )),
        accepts.len() > 0 && accepts_type(accepts, dt) ==> accepts_type(accepts.push(extra), dt),
{
    reveal_strlit("any");
    assert(seq!['a', 'n', 'y'] =~= "any"@);
    assert((|c: char| c == '*') =~= (|c: char| is_star(c)));
    if 0 <= k < accepts.len() && (accepts[k]@ == dt || accepts[k]@ == "any"@ || has_prefix(
        dt,
        trim_end_by(accepts[k]@, |c: char| c == '*'),
    )) {
        assert(pattern_accepts(accepts[k]@, dt));
    }
    if accepts.len() > 0 && accepts_type(accepts, dt) {
        let i = choose|i: int| 0 <= i < accepts.len() && pattern_accepts(#[trigger] accepts[i]@, dt);
        assert(accepts[i]@ == "any"@ || accepts[i]@ == dt || has_prefix(
            dt,
            trim_end_by(accepts[i]@, |c: char| c == '*'),
        ));
    }
    if accepts.len() > 0 && accepts_type(accepts, dt) {
        let a2 = accepts.push(extra);
        let i = choose|i: int| 0 <= i < accepts.len() && pattern_accepts(#[trigger] accepts[i]@, dt);
        assert(a2[i] == accepts[i]);
    }
}

/// Law: what POST /envelope does with an envelope. With no address it is
/// answered 202 at once, held at 82.2 (Unclassified) as pending
/// classification; with an address the registry does not know, 202 and
/// held at 82.2 as unclassified; at a known Nest that does not take its
/// data type, 200 and held at 82.2 as a type mismatch; at a known Rookery
/// that takes it, a child is minted under that Rookery; at any other known
/// Nest that takes it, it is stored in that Nest. Each answer carries the
/// envelope's id.
pub proof fn law_route_decides(reg: Seq<Manifest>, e: Envelope, d: Dispatch)
    requires
        first_step(reg, e, d),
    ensures
        e.jd_address is None ==> (d matches Dispatch::Answer(r) && r.status == 202 && r.decision.envelope_id
            == e.id && r.decision.routed_to@ == "82.2"@ && r.decision.node_name == Some(
            r.decision.node_name.unwrap(),
        ) && r.decision.node_name.unwrap()@ == "Unclassified"@ && r.decision.action
            == RoutingAction::PendingClassification),
        e.jd_address matches Some(a) && lookup(reg, a@) is None ==> (d matches Dispatch::Answer(r)
            && r.status == 202 && r.decision.envelope_id == e.id && r.decision.routed_to@ == "82.2"@
            && r.decision.action == RoutingAction::Unclassified),
        e.jd_address matches Some(a) ==> (lookup(reg, a@) matches Some(m) ==> (!accepts_type(
            m.accepts@,
            e.data_type@,
        ) ==> (d matches Dispatch::Answer(r) && r.status == 200 && r.decision.envelope_id == e.id
            && r.decision.routed_to@ == "82.2"@ && r.decision.action == RoutingAction::TypeMismatch))),
        e.jd_address matches Some(a) ==> (lookup(reg, a@) matches Some(m) ==> (accepts_type(
            m.accepts@,
            e.data_type@,
        ) && mints_subnests_of(m) ==> (d matches Dispatch::Mint(g) && *g == m))),
        e.jd_address matches Some(a) ==> (lookup(reg, a@) matches Some(m) ==> (accepts_type(
            m.accepts@,
            e.data_type@,
        ) && !mints_subnests_of(m) ==> (d matches Dispatch::Store(n) && *n == m))),
{
    reveal_strlit("82.2");
    reveal_strlit("Unclassified");
    assert(holding_address() =~= "82.2"@);
    assert(holding_name() =~= "Unclassified"@);
}

} // verus!
