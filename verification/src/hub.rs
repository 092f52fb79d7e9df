// 82_Mailroom, the hub: takes data in from devices (camera, microphone,
// video, text, files, webhooks), wraps it in an envelope and hands it to
// the agents that take it; and routes chat requests to a model backend by
// model alias or by Johnny Decimal area.
use vstd::prelude::*;

use crate::jd_index::{JdEntry, JohnnyDecimalIndex, index_agent};
use crate::envelope::{compact_json, fresh_uuid, json_compact, now, uuid_string, uuid_text, Timestamp};
use crate::text::{
    chars_of, contains, contains_seq, decimal, decimal_string, has_prefix, owned,
    push_all, same_text, starts_with, string_from_range,
};

verus! {

/// Where a piece of data came from.
#[derive(Debug, Clone)]
pub enum SourceKind {
    Camera,
    Microphone,
    Video,
    Text,
    File,
    Webhook,
    /// Any other source, by name.
    Custom(String),
}

/// The name of a source kind.
pub open spec fn source_name(s: SourceKind) -> Seq<char> {
    match s {
        SourceKind::Camera => "camera"@,
        SourceKind::Microphone => "microphone"@,
        SourceKind::Video => "video"@,
        SourceKind::Text => "text"@,
        SourceKind::File => "file"@,
        SourceKind::Webhook => "webhook"@,
        SourceKind::Custom(n) => n@,
    }
}

impl SourceKind {
    /// The source's name: the variant in lower case, or a custom source's
    /// own name.
    pub fn as_str(&self) -> (r: &str)
        ensures
            r@ == source_name(*self),
    {
        match self {
            SourceKind::Camera => "camera",
            SourceKind::Microphone => "microphone",
            SourceKind::Video => "video",
            SourceKind::Text => "text",
            SourceKind::File => "file",
            SourceKind::Webhook => "webhook",
            SourceKind::Custom(s) => s.as_str(),
        }
    }
}

/// What a hub envelope carries.
#[derive(Debug, Clone)]
pub enum Payload {
    /// Raw bytes (a frame, an audio chunk, a clip, a file) with their MIME
    /// type.
    Binary { mime_type: String, data: Vec<u8> },
    /// Text with its MIME type.
    Text { content: String, mime_type: String },
    /// Structured JSON.
    Json(serde_json::Value),
}

/// An item travelling through the hub.
#[derive(Debug, Clone)]
pub struct Envelope {
    pub id: u128,
    pub timestamp: Timestamp,
    pub source: SourceKind,
    pub jd_address: Option<String>,
    /// The agent it is meant for; `None` sends it to every agent that
    /// takes its source.
    pub destination: Option<String>,
    pub payload: Payload,
    /// Metadata pairs (device, sample rate, file name, ...), each key once.
    pub meta: Vec<(String, serde_json::Value)>,
}

impl Envelope {
    /// A fresh envelope from `source`: a new id, stamped now, no address,
    /// no destination, no metadata.
    pub fn new(source: SourceKind, payload: Payload) -> (e: Envelope)
        ensures
            e.source == source,
            e.payload == payload,
            e.jd_address is None,
            e.destination is None,
            e.meta@.len() == 0,
    {
        Envelope {
            id: fresh_uuid(),
            timestamp: now(),
            source,
            jd_address: None,
            destination: None,
            payload,
            meta: Vec::new(),
        }
    }

    /// This envelope addressed to `addr`.
    pub fn with_jd(self, addr: String) -> (e: Envelope)
        ensures
            e == (Envelope { jd_address: Some(addr), ..self }),
    {
        let mut e = self;
        e.jd_address = Some(addr);
        e
    }

    /// This envelope meant for agent `agent` only.
    pub fn for_agent(self, agent: String) -> (e: Envelope)
        ensures
            e == (Envelope { destination: Some(agent), ..self }),
    {
        let mut e = self;
        e.destination = Some(agent);
        e
    }

    /// Sets metadata `key` to `value`, replacing an earlier value of the
    /// same key in place.
    pub fn insert_meta(&mut self, key: &str, value: serde_json::Value)
        ensures
            final(self).id == old(self).id,
            final(self).timestamp == old(self).timestamp,
            final(self).source == old(self).source,
            final(self).jd_address == old(self).jd_address,
            final(self).destination == old(self).destination,
            final(self).payload == old(self).payload,
            meta_keys(final(self).meta@) == if meta_keys(old(self).meta@).contains(key@) {
                meta_keys(old(self).meta@)
            } else {
                meta_keys(old(self).meta@).push(key@)
            },
            meta_holds(final(self).meta@, key@, value),
            meta_keys(old(self).meta@).no_duplicates() ==> meta_keys(final(self).meta@).no_duplicates(),
            !meta_keys(old(self).meta@).contains(key@) ==> final(self).meta@ == old(self).meta@.push(
                final(self).meta@.last(),
            ),
            meta_keys(old(self).meta@).contains(key@) ==> exists|i: int|
                0 <= i < old(self).meta@.len() && old(self).meta@[i].0@ == key@ && final(self).meta@
                    == #[trigger] old(self).meta@.update(i, (old(self).meta@[i].0, value)),
    {
        let mut i: usize = 0;
        while i < self.meta.len()
            invariant
                i <= self.meta.len(),
                self.meta@ == old(self).meta@,
                self.id == old(self).id,
                self.timestamp == old(self).timestamp,
                self.source == old(self).source,
                self.jd_address == old(self).jd_address,
                self.destination == old(self).destination,
                self.payload == old(self).payload,
                forall|k: int| 0 <= k < i ==> #[trigger] self.meta@[k].0@ != key@,
            decreases self.meta.len() - i,
        {
            if same_text(self.meta[i].0.as_str(), key) {
                let k = self.meta[i].0.clone();
                let ghost before = self.meta@;
                self.meta.set(i, (k, value));
                proof {
                    assert(meta_keys(self.meta@) =~= meta_keys(before));
                    assert(meta_keys(before)[i as int] == key@);
                    assert(self.meta@[i as int].1 == value);
                    assert(self.meta@ == before.update(i as int, (before[i as int].0, value)));
                }
                return;
            }
            i = i + 1;
        }
        let ghost before = self.meta@;
        self.meta.push((owned(key), value));
        proof {
            assert(meta_keys(self.meta@) =~= meta_keys(before).push(key@));
            assert(!meta_keys(before).contains(key@)) by {
                if meta_keys(before).contains(key@) {
                    let k = choose|k: int| 0 <= k < meta_keys(before).len() && meta_keys(before)[k] == key@;
                    assert(before[k].0@ == key@);
                }
            }
            assert(self.meta@[before.len() as int].1 == value);
            assert(self.meta@ =~= before.push(self.meta@.last()));
        }
    }
}

/// Whether some pair of the list holds `value` under `key`.
pub open spec fn meta_holds(meta: Seq<(String, serde_json::Value)>, key: Seq<char>, value: serde_json::Value) -> bool {
    exists|k: int| 0 <= k < meta.len() && meta[k].0@ == key && #[trigger] meta[k].1 == value
}

/// The keys of a metadata list, in order.
pub open spec fn meta_keys(meta: Seq<(String, serde_json::Value)>) -> Seq<Seq<char>> {
    meta.map_values(|p: (String, serde_json::Value)| p.0@)
}

/// A downstream agent, as configured.
#[derive(Debug, Clone)]
pub struct AgentConfig {
    pub name: String,
    /// Base URL of the agent's API, e.g. "http://localhost:11434".
    pub base_url: String,
    /// The source kinds it takes (`*` for all).
    pub accepts: Vec<String>,
    /// The JD area it is associated with, if any.
    pub jd_prefix: Option<String>,
}

/// The hub's configuration.
#[derive(Debug, Clone)]
pub struct MailroomConfig {
    pub bind_addr: String,
    pub agents: Vec<AgentConfig>,
    /// The directory holding the JD index.
    pub jd_root: String,
}

/// The address the hub listens on unless configured.
pub fn default_bind() -> (r: String)
    ensures
        r@ == "0.0.0.0:3000"@,
{
    owned("0.0.0.0:3000")
}

/// The JD index directory unless configured.
pub fn default_jd_root() -> (r: String)
    ensures
        r@ == "./jd"@,
{
    owned("./jd")
}

/// Whether an agent takes a source: one of its `accepts` entries is the
/// source's name or `*`.
pub open spec fn agent_takes(a: AgentConfig, source: Seq<char>) -> bool {
    exists|k: int| 0 <= k < a.accepts@.len() && (#[trigger] a.accepts@[k]@ == source || a.accepts@[k]@ == "*"@)
}

/// The agent an envelope asks for by name: its destination if it names
/// one, else the agent the Johnny Decimal index names for its address.
pub open spec fn wanted_agent(e: Envelope, index: Seq<JdEntry>) -> Option<Seq<char>> {
    match e.destination {
        Some(d) => Some(d@),
        None => match e.jd_address {
            Some(a) => index_agent(index, a@),
            None => None,
        },
    }
}

/// The agents an envelope goes to, in configuration order: the agents
/// with the name it asks for (`wanted_agent`: its destination, else the
/// index's agent for its address), or else every agent that takes its
/// source.
pub open spec fn targets_of(agents: Seq<AgentConfig>, e: Envelope, index: Seq<JdEntry>) -> Seq<AgentConfig>
    decreases agents.len(),
{
    if agents.len() == 0 {
        Seq::empty()
    } else {
        let rest = targets_of(agents.drop_last(), e, index);
        let a = agents.last();
        let chosen = match wanted_agent(e, index) {
            Some(n) => a.name@ == n,
            None => agent_takes(a, source_name(e.source)),
        };
        if chosen {
            rest.push(a)
        } else {
            rest
        }
    }
}

/// Whether the envelope would go to agent `a`, read off the envelope and
/// the index directly.
pub open spec fn picked(a: AgentConfig, e: Envelope, index: Seq<JdEntry>) -> bool {
    match e.destination {
        Some(d) => a.name@ == d@,
        None => {
            let by_index = match e.jd_address {
                Some(addr) => index_agent(index, addr@),
                None => None,
            };
            match by_index {
                Some(n) => a.name@ == n,
                None => exists|k: int|
                    0 <= k < a.accepts@.len() && (#[trigger] a.accepts@[k]@ == source_name(e.source)
                        || a.accepts@[k]@ == "*"@),
            }
        },
    }
}

/// Law: an envelope goes to an agent exactly when the agent is configured
/// and is picked: by name when the envelope names one, else by the name
/// the Johnny Decimal index gives for its address, else because one of the
/// agent's `accepts` entries is the envelope's source or "*". No agent is
/// added, and the configuration order is kept (each target is a
/// configured agent, at most as many as configured).
pub proof fn law_dispatch_goes_to_the_picked_agents(
    agents: Seq<AgentConfig>,
    e: Envelope,
    index: Seq<JdEntry>,
    a: AgentConfig,
)
    ensures
        targets_of(agents, e, index).contains(a) <==> (agents.contains(a) && picked(a, e, index)),
        targets_of(agents, e, index).len() <= agents.len(),
    decreases agents.len(),
{
    if agents.len() > 0 {
        law_dispatch_goes_to_the_picked_agents(agents.drop_last(), e, index, a);
        let rest = targets_of(agents.drop_last(), e, index);
        let x = agents.last();
        assert(agents.contains(a) <==> (agents.drop_last().contains(a) || x == a)) by {
            if agents.contains(a) {
                let k = choose|k: int| 0 <= k < agents.len() && agents[k] == a;
                if k < agents.len() - 1 {
                    assert(agents.drop_last()[k] == a);
                }
            }
            if agents.drop_last().contains(a) {
                let k = choose|k: int| 0 <= k < agents.drop_last().len() && agents.drop_last()[k] == a;
                assert(agents[k] == a);
            }
            if x == a {
                assert(agents[agents.len() - 1] == a);
            }
        }
        assert(agent_takes(x, source_name(e.source)) == (exists|k: int|
            0 <= k < x.accepts@.len() && (#[trigger] x.accepts@[k]@ == source_name(e.source)
                || x.accepts@[k]@ == "*"@)));
        let chosen = match wanted_agent(e, index) {
            Some(n) => x.name@ == n,
            None => agent_takes(x, source_name(e.source)),
        };
        assert(chosen == picked(x, e, index));
        if chosen {
            assert(rest.push(x).contains(a) <==> (rest.contains(a) || x == a)) by {
                if rest.push(x).contains(a) {
                    let k = choose|k: int| 0 <= k < rest.push(x).len() && rest.push(x)[k] == a;
                    if k < rest.len() {
                        assert(rest[k] == a);
                    }
                }
                if rest.contains(a) {
                    let k = choose|k: int| 0 <= k < rest.len() && rest[k] == a;
                    assert(rest.push(x)[k] == a);
                }
                if x == a {
                    assert(rest.push(x)[rest.len() as int] == a);
                }
            }
        }
    }
}

/// Whether agent `a` takes source `source`.
fn takes_source(a: &AgentConfig, source: &str) -> (r: bool)
    ensures
        r == agent_takes(*a, source@),
{
    let mut k: usize = 0;
    while k < a.accepts.len()
        invariant
            k <= a.accepts@.len(),
            forall|j: int| 0 <= j < k ==> !(#[trigger] a.accepts@[j]@ == source@ || a.accepts@[j]@ == "*"@),
        decreases a.accepts.len() - k,
    {
        if same_text(a.accepts[k].as_str(), source) || same_text(a.accepts[k].as_str(), "*") {
            return true;
        }
        k = k + 1;
    }
    false
}

/// Whether two agent configurations say the same.
pub open spec fn same_agent(a: AgentConfig, b: AgentConfig) -> bool {
    &&& a.name == b.name
    &&& a.base_url == b.base_url
    &&& a.accepts@ == b.accepts@
    &&& a.jd_prefix == b.jd_prefix
}

/// Two agent lists that say the same, position by position.
pub open spec fn same_agents(a: Seq<AgentConfig>, b: Seq<AgentConfig>) -> bool {
    &&& a.len() == b.len()
    &&& forall|i: int| 0 <= i < a.len() ==> same_agent(#[trigger] a[i], b[i])
}

/// A registry made from a configuration dispatches every envelope to the
/// agents that the configuration itself selects, in the same order.
pub proof fn law_registry_dispatches_as_configured(
    configs: Seq<AgentConfig>,
    registry: AgentRegistry,
    e: Envelope,
    index: Seq<JdEntry>,
)
    requires
        same_agents(registry.agents@, configs),
    ensures
        same_agents(targets_of(registry.agents@, e, index), targets_of(configs, e, index)),
{
    lemma_targets_respect_same(registry.agents@, configs, e, index);
}

proof fn lemma_targets_respect_same(a: Seq<AgentConfig>, b: Seq<AgentConfig>, e: Envelope, index: Seq<JdEntry>)
    requires
        same_agents(a, b),
    ensures
        same_agents(targets_of(a, e, index), targets_of(b, e, index)),
    decreases a.len(),
{
    if a.len() > 0 {
        assert(same_agents(a.drop_last(), b.drop_last()));
        lemma_targets_respect_same(a.drop_last(), b.drop_last(), e, index);
        let x = a.last();
        let y = b.last();
        assert(same_agent(x, y));
        assert(agent_takes(x, source_name(e.source)) == agent_takes(y, source_name(e.source)));
        let ta = targets_of(a.drop_last(), e, index);
        let tb = targets_of(b.drop_last(), e, index);
        assert(same_agents(ta.push(x), tb.push(y)));
    }
}

fn copy_strings(v: &Vec<String>) -> (r: Vec<String>)
    ensures
        r@ == v@,
{
    let mut out: Vec<String> = Vec::new();
    let mut i: usize = 0;
    while i < v.len()
        invariant
            i <= v@.len(),
            out@ == v@.take(i as int),
        decreases v.len() - i,
    {
        out.push(v[i].clone());
        proof {
            assert(v@.take(i + 1) =~= v@.take(i as int).push(v@[i as int]));
        }
        i = i + 1;
    }
    proof {
        assert(v@.take(v@.len() as int) =~= v@);
    }
    out
}

fn copy_agent(a: &AgentConfig) -> (r: AgentConfig)
    ensures
        r.name == a.name,
        r.base_url == a.base_url,
        r.accepts@ == a.accepts@,
        r.jd_prefix == a.jd_prefix,
{
    AgentConfig {
        name: a.name.clone(),
        base_url: a.base_url.clone(),
        accepts: copy_strings(&a.accepts),
        jd_prefix: a.jd_prefix.clone(),
    }
}

/// The downstream agents the hub dispatches to, in configuration order.
#[derive(Debug)]
pub struct AgentRegistry {
    pub agents: Vec<AgentConfig>,
}

impl AgentRegistry {
    /// A registry of the configured agents, in their order.
    pub fn from_config(configs: &[AgentConfig]) -> (r: AgentRegistry)
        ensures
            same_agents(r.agents@, configs@),
    {
        let mut agents: Vec<AgentConfig> = Vec::new();
        let mut i: usize = 0;
        while i < configs.len()
            invariant
                i <= configs@.len(),
                agents@.len() == i,
                forall|j: int| 0 <= j < i ==> same_agent(#[trigger] agents@[j], configs@[j]),
            decreases configs.len() - i,
        {
            let a = copy_agent(&configs[i]);
            agents.push(a);
            i = i + 1;
        }
        AgentRegistry { agents }
    }

    /// The agents an envelope is dispatched to: those named as its
    /// destination, else the agent the index names for its address, or
    /// else every agent that takes its source (`targets_of`).
    pub fn dispatch_targets(&self, envelope: &Envelope, index: &JohnnyDecimalIndex) -> (r: Vec<&AgentConfig>)
        ensures
            r@.map_values(|a: &AgentConfig| *a) == targets_of(self.agents@, *envelope, index.entries@),
    {
        let source = envelope.source.as_str();
        let wanted: Option<&str> = match &envelope.destination {
            Some(d) => Some(d.as_str()),
            None => match &envelope.jd_address {
                Some(a) => index.agent_for(a.as_str()),
                None => None,
            },
        };
        let mut out: Vec<&AgentConfig> = Vec::new();
        let mut i: usize = 0;
        while i < self.agents.len()
            invariant
                i <= self.agents@.len(),
                source@ == source_name(envelope.source),
                match wanted_agent(*envelope, index.entries@) {
                    Some(n) => wanted matches Some(w) && w@ == n,
                    None => wanted is None,
                },
                out@.map_values(|a: &AgentConfig| *a) == targets_of(self.agents@.take(i as int), *envelope, index.entries@),
            decreases self.agents.len() - i,
        {
            proof {
                assert(self.agents@.take(i + 1).drop_last() =~= self.agents@.take(i as int));
            }
            let a = &self.agents[i];
            let chosen = match wanted {
                Some(w) => same_text(a.name.as_str(), w),
                None => takes_source(a, source),
            };
            if chosen {
                let ghost before = out@;
                out.push(a);
                proof {
                    assert(out@.map_values(|a: &AgentConfig| *a) =~= before.map_values(
                        |a: &AgentConfig| *a,
                    ).push(*a));
                }
            }
            i = i + 1;
        }
        proof {
            assert(self.agents@.take(self.agents@.len() as int) =~= self.agents@);
        }
        out
    }
}

/// The names of the targets whose send succeeded (`ok[k]` for target
/// `k`), in target order.
pub open spec fn sent_names(targets: Seq<AgentConfig>, ok: Seq<bool>) -> Seq<Seq<char>>
    decreases targets.len(),
{
    if targets.len() == 0 {
        Seq::empty()
    } else {
        let rest = sent_names(targets.drop_last(), ok);
        if ok[targets.len() - 1] {
            rest.push(targets.last().name@)
        } else {
            rest
        }
    }
}

/// What a dispatch answers: the names of exactly the targets that took the
/// envelope (`ok[k]` says whether target `k` did), in target order.
pub fn dispatched_names(targets: &Vec<&AgentConfig>, ok: &Vec<bool>) -> (r: Vec<String>)
    requires
        ok@.len() == targets@.len(),
    ensures
        r@.map_values(|n: String| n@) == sent_names(targets@.map_values(|a: &AgentConfig| *a), ok@),
{
    let ghost ts = targets@.map_values(|a: &AgentConfig| *a);
    let mut out: Vec<String> = Vec::new();
    let mut i: usize = 0;
    while i < targets.len()
        invariant
            i <= targets@.len(),
            ok@.len() == targets@.len(),
            ts == targets@.map_values(|a: &AgentConfig| *a),
            out@.map_values(|n: String| n@) == sent_names(ts.take(i as int), ok@),
        decreases targets.len() - i,
    {
        proof {
            assert(ts.take(i + 1).drop_last() =~= ts.take(i as int));
            assert(ts.take(i + 1).last() == *targets@[i as int]);
        }
        if ok[i] {
            let ghost before = out@;
            out.push(targets[i].name.clone());
            proof {
                assert(out@.map_values(|n: String| n@) =~= before.map_values(|n: String| n@).push(
                    targets@[i as int].name@,
                ));
            }
        }
        i = i + 1;
    }
    proof {
        assert(ts.take(targets@.len() as int) =~= ts);
    }
    out
}

/// `s` without trailing '/'s (`str::trim_end_matches('/')`).
pub open spec fn trim_slashes(s: Seq<char>) -> Seq<char>
    decreases s.len(),
{
    if s.len() > 0 && s.last() == '/' {
        trim_slashes(s.drop_last())
    } else {
        s
    }
}

/// `s` without trailing '/'s.
pub fn trim_end_slashes(s: &str) -> (r: String)
    ensures
        r@ == trim_slashes(s@),
{
    let cs = chars_of(s);
    let mut to = cs.len();
    proof {
        assert(cs@.take(cs@.len() as int) =~= cs@);
    }
    while to > 0 && cs[to - 1] == '/'
        invariant
            to <= cs@.len(),
            trim_slashes(cs@) == trim_slashes(cs@.take(to as int)),
        decreases to,
    {
        proof {
            assert(cs@.take(to as int).drop_last() =~= cs@.take(to - 1));
        }
        to = to - 1;
    }
    proof {
        assert(cs@.take(cs@.len() as int) =~= cs@);
        assert(cs@.subrange(0, to as int) =~= cs@.take(to as int));
    }
    string_from_range(&cs, 0, to)
}

/// How an envelope reaches an agent.
#[derive(Debug, Clone)]
pub enum Adapter {
    /// A local Ollama (its base URL names port 11434): see `ollama_request`.
    Ollama,
    /// Any other agent: the envelope as JSON, POSTed to this URL.
    Generic { url: String },
}

/// The adapter for an agent: Ollama when its base URL contains "11434",
/// else a POST to `{base_url}/receive` (trailing '/'s dropped).
pub fn adapter_for(agent: &AgentConfig) -> (r: Adapter)
    ensures
        contains_seq(agent.base_url@, "11434"@) ==> r is Ollama,
        !contains_seq(agent.base_url@, "11434"@) ==> (r matches Adapter::Generic { url } && url@
            == trim_slashes(agent.base_url@) + "/receive"@),
{
    if contains(agent.base_url.as_str(), "11434") {
        Adapter::Ollama
    } else {
        let mut url = trim_end_slashes(agent.base_url.as_str());
        push_all(&mut url, "/receive");
        Adapter::Generic { url }
    }
}

/// The character of the standard base64 alphabet (RFC 4648) for a 6-bit
/// value `n`: `A`-`Z`, `a`-`z`, `0`-`9`, `+`, `/`.
pub open spec fn b64_char(n: int) -> char {
    if n < 26 {
        (('A' as int) + n) as char
    } else if n < 52 {
        (('a' as int) + n - 26) as char
    } else if n < 62 {
        (('0' as int) + n - 52) as char
    } else if n == 62 {
        '+'
    } else {
        '/'
    }
}

/// Standard, padded base64 of `data`: every three bytes give four
/// characters; a last group of one or two bytes is padded with `=`.
pub open spec fn base64_text(data: Seq<u8>) -> Seq<char>
    decreases data.len(),
{
    if data.len() == 0 {
        seq![]
    } else if data.len() == 1 {
        let b0 = data[0] as int;
        seq![b64_char(b0 / 4), b64_char((b0 % 4) * 16), '=', '=']
    } else if data.len() == 2 {
        let b0 = data[0] as int;
        let b1 = data[1] as int;
        seq![b64_char(b0 / 4), b64_char((b0 % 4) * 16 + b1 / 16), b64_char((b1 % 16) * 4), '=']
    } else {
        let b0 = data[0] as int;
        let b1 = data[1] as int;
        let b2 = data[2] as int;
        seq![
            b64_char(b0 / 4),
            b64_char((b0 % 4) * 16 + b1 / 16),
            b64_char((b1 % 16) * 4 + b2 / 64),
            b64_char(b2 % 64),
        ] + base64_text(data.subrange(3, data.len() as int))
    }
}

/// `STANDARD.encode(data)` from the base64 crate: the standard alphabet,
/// padded.
#[verifier::external_body]
fn base64_encode(data: &Vec<u8>) -> (r: String)
    ensures
        r@ == base64_text(data@),
{
    base64::Engine::encode(&base64::engine::general_purpose::STANDARD, data)
}

/// A request to Ollama's `/api/generate`.
#[derive(Debug, Clone)]
pub struct OllamaRequest {
    /// `{base_url}/api/generate`, trailing '/'s of the base dropped.
    pub url: String,
    pub model: String,
    pub prompt: String,
    /// Base64 images, for the vision model.
    pub images: Option<Vec<String>>,
    /// For text: the envelope's id, address and source name.
    pub context: Option<(u128, Option<String>, String)>,
}

/// `[Binary payload received: {n} bytes, type: {mime}. Source: {source}.]`
pub open spec fn binary_note(n: nat, mime: Seq<char>, source: Seq<char>) -> Seq<char> {
    "[Binary payload received: "@ + decimal(n) + " bytes, type: "@ + mime + ". Source: "@ + source
        + ".]"@
}

/// What is sent to Ollama for an envelope: text goes to `llama3` as the
/// prompt with the envelope's context; an image (by MIME type, or any
/// binary from a camera) goes to `llava` to be described; other binary
/// data to `llama3` as a note of its size and type; JSON to `llama3` to be
/// processed.
pub open spec fn ollama_body(agent: AgentConfig, e: Envelope, r: OllamaRequest) -> bool {
    &&& r.url@ == trim_slashes(agent.base_url@) + "/api/generate"@
    &&& match e.payload {
        Payload::Text { content, .. } => {
            &&& r.model@ == "llama3"@
            &&& r.prompt == content
            &&& r.images is None
            &&& r.context matches Some(c) && c.0 == e.id && c.1 == e.jd_address && c.2@ == source_name(
                e.source,
            )
        },
        Payload::Binary { mime_type, data } => if has_prefix(mime_type@, "image/"@)
            || e.source is Camera {
            &&& r.model@ == "llava"@
            &&& r.prompt@ == "Describe what you see in this image."@
            &&& r.images matches Some(v) && v@.len() == 1 && v@[0]@ == base64_text(data@)
            &&& r.context is None
        } else {
            r.model@ == "llama3"@ && r.prompt@ == binary_note(
                data@.len(),
                mime_type@,
                source_name(e.source),
            ) && r.images is None && r.context is None
        },
        Payload::Json(v) => r.model@ == "llama3"@ && r.prompt@ == "Process this JSON payload:\n"@
            + compact_json(v) && r.images is None && r.context is None,
    }
}

/// The Ollama request for an envelope.
pub fn ollama_request(agent: &AgentConfig, envelope: &Envelope) -> (r: OllamaRequest)
    requires
        envelope.payload matches Payload::Binary { data, .. } ==> data@.len() <= u64::MAX,
    ensures
        ollama_body(*agent, *envelope, r),
{
    let mut url = trim_end_slashes(agent.base_url.as_str());
    push_all(&mut url, "/api/generate");
    match &envelope.payload {
        Payload::Text { content, .. } => OllamaRequest {
            url,
            model: owned("llama3"),
            prompt: content.clone(),
            images: None,
            context: Some((envelope.id, envelope.jd_address.clone(), owned(envelope.source.as_str()))),
        },
        Payload::Binary { mime_type, data } => {
            let is_camera = match envelope.source {
                SourceKind::Camera => true,
                _ => false,
            };
            if starts_with(mime_type.as_str(), "image/") || is_camera {
                let mut images: Vec<String> = Vec::new();
                images.push(base64_encode(data));
                OllamaRequest {
                    url,
                    model: owned("llava"),
                    prompt: owned("Describe what you see in this image."),
                    images: Some(images),
                    context: None,
                }
            } else {
                let mut p = owned("[Binary payload received: ");
                let n = decimal_string(data.len() as u64);
                push_all(&mut p, n.as_str());
                push_all(&mut p, " bytes, type: ");
                push_all(&mut p, mime_type.as_str());
                push_all(&mut p, ". Source: ");
                push_all(&mut p, envelope.source.as_str());
                push_all(&mut p, ".]");
                OllamaRequest {
                    url,
                    model: owned("llama3"),
                    prompt: p,
                    images: None,
                    context: None,
                }
            }
        },
        Payload::Json(v) => {
            let mut p = owned("Process this JSON payload:\n");
            let j = json_compact(v);
            push_all(&mut p, j.as_str());
            OllamaRequest { url, model: owned("llama3"), prompt: p, images: None, context: None }
        },
    }
}

/// An agent as GET /agents lists it.
#[derive(Debug, Clone)]
pub struct AgentInfo {
    pub name: String,
    pub base_url: String,
    pub accepts: Vec<String>,
    pub jd_prefix: Option<String>,
}

/// What GET /agents says of an agent: its configuration as it stands.
pub fn agent_info(a: &AgentConfig) -> (r: AgentInfo)
    ensures
        r.name == a.name,
        r.base_url == a.base_url,
        r.accepts@ == a.accepts@,
        r.jd_prefix == a.jd_prefix,
{
    let mut accepts: Vec<String> = Vec::new();
    let mut i: usize = 0;
    while i < a.accepts.len()
        invariant
            i <= a.accepts@.len(),
            accepts@ == a.accepts@.take(i as int),
        decreases a.accepts.len() - i,
    {
        accepts.push(a.accepts[i].clone());
        proof {
            assert(a.accepts@.take(i + 1) =~= a.accepts@.take(i as int).push(a.accepts@[i as int]));
        }
        i = i + 1;
    }
    proof {
        assert(a.accepts@.take(a.accepts@.len() as int) =~= a.accepts@);
    }
    AgentInfo { name: a.name.clone(), base_url: a.base_url.clone(), accepts, jd_prefix: a.jd_prefix.clone() }
}

/// The answer to an ingest: the envelope's id and the agents that took
/// it.
#[derive(Debug, Clone)]
pub struct IngestResponse {
    pub envelope_id: String,
    pub routed_to: Vec<String>,
}

impl IngestResponse {
    /// The answer for envelope `e`, delivered to `routed_to`.
    pub fn for_envelope(e: &Envelope, routed_to: Vec<String>) -> (r: IngestResponse)
        ensures
            r.envelope_id@ == uuid_text(e.id),
            r.routed_to == routed_to,
    {
        IngestResponse { envelope_id: uuid_string(e.id), routed_to }
    }
}

/// What `serde_json::Value::String(s)` is.
pub uninterp spec fn json_string_of(s: Seq<char>) -> serde_json::Value;

/// `serde_json::Value::String(s)`: the JSON string holding `s`.
#[verifier::external_body]
fn json_string(s: String) -> (r: serde_json::Value)
    ensures
        r == json_string_of(s@),
{
    serde_json::Value::String(s)
}

/// What `serde_json::Value::from(n)` is for a `u32`.
pub uninterp spec fn json_u32_of(n: u32) -> serde_json::Value;

/// `serde_json::Value::from(n)` for a `u32`: the JSON number `n`.
#[verifier::external_body]
fn json_u32(n: u32) -> (r: serde_json::Value)
    ensures
        r == json_u32_of(n),
{
    serde_json::Value::from(n)
}

/// What `serde_json::Value::from(n)` is for a `u8`.
pub uninterp spec fn json_u8_of(n: u8) -> serde_json::Value;

/// `serde_json::Value::from(n)` for a `u8`: the JSON number `n`.
#[verifier::external_body]
fn json_u8(n: u8) -> (r: serde_json::Value)
    ensures
        r == json_u8_of(n),
{
    serde_json::Value::from(n)
}

/// What `mime_guess` makes of a file name.
pub uninterp spec fn guessed_mime(file_name: Seq<char>) -> Seq<char>;

/// `mime_guess::from_path(name).first_or_octet_stream()`, as text: the
/// MIME type the name's extension suggests, `application/octet-stream`
/// when it suggests none. Its result depends on the name alone.
#[verifier::external_body]
fn guess_mime(file_name: &str) -> (r: String)
    ensures
        r@ == guessed_mime(file_name@),
{
    mime_guess::from_path(file_name).first_or_octet_stream().to_string()
}

/// `e` addressed to `jd` and meant for `agent`, where given.
pub open spec fn addressed_as(r: Envelope, e: Envelope, jd: Option<String>, agent: Option<String>) -> bool {
    &&& r.id == e.id
    &&& r.timestamp == e.timestamp
    &&& r.source == e.source
    &&& r.payload == e.payload
    &&& r.jd_address == match jd {
        Some(j) => Some(j),
        None => e.jd_address,
    }
    &&& r.destination == match agent {
        Some(a) => Some(a),
        None => e.destination,
    }
    &&& r.meta == e.meta
}

/// Applies an ingest's `jd` and `agent` to an envelope.
pub fn addressed(e: Envelope, jd: Option<String>, agent: Option<String>) -> (r: Envelope)
    ensures
        addressed_as(r, e, jd, agent),
{
    let e1 = match jd {
        Some(j) => e.with_jd(j),
        None => e,
    };
    match agent {
        Some(a) => e1.for_agent(a),
        None => e1,
    }
}

/// The body of POST /ingest/text.
#[derive(Debug, Clone)]
pub struct TextBody {
    pub content: String,
    pub agent: Option<String>,
    pub jd: Option<String>,
    /// "user", "system", "tool_result", ...
    pub role: Option<String>,
}

/// The envelope of a text ingest: plain text from the text source,
/// addressed as asked, with its role as metadata.
pub fn text_envelope(body: TextBody) -> (r: Envelope)
    ensures
        r.source is Text,
        r.payload matches Payload::Text { content, mime_type } && content == body.content
            && mime_type@ == "text/plain"@,
        r.jd_address == body.jd,
        r.destination == body.agent,
        match body.role {
            Some(role) => meta_keys(r.meta@) == seq!["role"@] && meta_holds(r.meta@, "role"@, json_string_of(role@)),
            None => r.meta@.len() == 0,
        },
{
    let TextBody { content, agent, jd, role } = body;
    let e = Envelope::new(SourceKind::Text, Payload::Text { content, mime_type: owned("text/plain") });
    let mut e = addressed(e, jd, agent);
    match role {
        Some(r) => {
            let v = json_string(r);
            e.insert_meta("role", v);
            proof {
                assert(meta_keys(e.meta@) =~= seq!["role"@]);
            }
        },
        None => {},
    }
    e
}

/// The query of POST /ingest/webhook.
#[derive(Debug, Clone)]
pub struct WebhookQuery {
    pub agent: Option<String>,
    pub jd: Option<String>,
    /// The sending service, e.g. "github", "stripe", "n8n".
    pub source: Option<String>,
}

/// The envelope of a webhook: its JSON body from a custom source named
/// by the query (`unknown` when not), addressed as asked, with the source
/// name as metadata.
pub fn webhook_envelope(q: WebhookQuery, body: serde_json::Value) -> (r: Envelope)
    ensures
        ({
            let name = match q.source {
                Some(s) => s@,
                None => "unknown"@,
            };
            &&& r.source matches SourceKind::Custom(n) && n@ == name
            &&& r.payload == Payload::Json(body)
            &&& r.jd_address == q.jd
            &&& r.destination == q.agent
            &&& meta_keys(r.meta@) == seq!["webhook_source"@]
            &&& meta_holds(r.meta@, "webhook_source"@, json_string_of(name))
        }),
{
    let WebhookQuery { agent, jd, source } = q;
    let name = match source {
        Some(s) => s,
        None => owned("unknown"),
    };
    let e = Envelope::new(SourceKind::Custom(name.clone()), Payload::Json(body));
    let mut e = addressed(e, jd, agent);
    let v = json_string(name);
    e.insert_meta("webhook_source", v);
    proof {
        assert(meta_keys(e.meta@) =~= seq!["webhook_source"@]);
    }
    e
}

/// The query of POST /ingest/camera.
#[derive(Debug, Clone)]
pub struct CameraQuery {
    pub agent: Option<String>,
    pub jd: Option<String>,
    pub device_id: Option<String>,
}

/// The envelope of a camera frame: the bytes with the frame's content
/// type (`image/jpeg` when it has none), addressed as asked, with the
/// device as metadata.
pub fn camera_envelope(q: CameraQuery, content_type: Option<String>, data: Vec<u8>) -> (r: Envelope)
    ensures
        r.source is Camera,
        r.payload matches Payload::Binary { mime_type, data: d } && d == data && mime_type@ == match content_type {
            Some(c) => c@,
            None => "image/jpeg"@,
        },
        r.jd_address == q.jd,
        r.destination == q.agent,
        match q.device_id {
            Some(dev) => meta_keys(r.meta@) == seq!["device_id"@] && meta_holds(r.meta@, "device_id"@, json_string_of(dev@)),
            None => r.meta@.len() == 0,
        },
{
    let CameraQuery { agent, jd, device_id } = q;
    let mime_type = match content_type {
        Some(c) => c,
        None => owned("image/jpeg"),
    };
    let e = Envelope::new(SourceKind::Camera, Payload::Binary { mime_type, data });
    let mut e = addressed(e, jd, agent);
    match device_id {
        Some(dev) => {
            let v = json_string(dev);
            e.insert_meta("device_id", v);
            proof {
                assert(meta_keys(e.meta@) =~= seq!["device_id"@]);
            }
        },
        None => {},
    }
    e
}

/// The query of POST /ingest/microphone.
#[derive(Debug, Clone)]
pub struct MicQuery {
    pub agent: Option<String>,
    pub jd: Option<String>,
    pub sample_rate: Option<u32>,
    pub channels: Option<u8>,
}

/// The envelope of an audio chunk: the bytes with the chunk's content type
/// (`audio/wav` when it has none), addressed as asked, with the sample
/// rate and channel count as metadata when given.
pub fn microphone_envelope(q: MicQuery, content_type: Option<String>, data: Vec<u8>) -> (r: Envelope)
    ensures
        r.source is Microphone,
        r.payload matches Payload::Binary { mime_type, data: d } && d == data && mime_type@ == match content_type {
            Some(c) => c@,
            None => "audio/wav"@,
        },
        r.jd_address == q.jd,
        r.destination == q.agent,
        meta_keys(r.meta@) == (match q.sample_rate {
            Some(_) => seq!["sample_rate"@],
            None => Seq::<Seq<char>>::empty(),
        }) + (match q.channels {
            Some(_) => seq!["channels"@],
            None => Seq::<Seq<char>>::empty(),
        }),
        q.sample_rate matches Some(sr) ==> meta_holds(r.meta@, "sample_rate"@, json_u32_of(sr)),
        q.channels matches Some(ch) ==> meta_holds(r.meta@, "channels"@, json_u8_of(ch)),
{
    let MicQuery { agent, jd, sample_rate, channels } = q;
    let mime_type = match content_type {
        Some(c) => c,
        None => owned("audio/wav"),
    };
    let e = Envelope::new(SourceKind::Microphone, Payload::Binary { mime_type, data });
    let mut e = addressed(e, jd, agent);
    proof {
        reveal_strlit("sample_rate");
        reveal_strlit("channels");
    }
    match sample_rate {
        Some(sr) => {
            let v = json_u32(sr);
            e.insert_meta("sample_rate", v);
            proof {
                assert(meta_keys(e.meta@) =~= seq!["sample_rate"@]);
            }
        },
        None => {},
    }
    let ghost before = e.meta@;
    match channels {
        Some(ch) => {
            let v = json_u8(ch);
            e.insert_meta("channels", v);
            proof {
                assert("sample_rate"@ != "channels"@) by {
                    assert("sample_rate"@.len() != "channels"@.len());
                }
                assert(!meta_keys(before).contains("channels"@)) by {
                    if meta_keys(before).contains("channels"@) {
                        let k = choose|k: int| 0 <= k < meta_keys(before).len() && meta_keys(before)[k] == "channels"@;
                        assert(meta_keys(before)[k] == "sample_rate"@);
                    }
                }
                if sample_rate is Some {
                    let k = choose|k: int|
                        0 <= k < before.len() && before[k].0@ == "sample_rate"@ && #[trigger] before[k].1
                            == json_u32_of(sample_rate.unwrap());
                    assert(e.meta@[k] == before[k]);
                }
            }
        },
        None => {},
    }
    e
}

/// The query of POST /ingest/video. The frame rate is a float, and it is
/// filed as metadata only; it comes here as the JSON number it is filed
/// under.
#[derive(Debug, Clone)]
pub struct VideoQuery {
    pub agent: Option<String>,
    pub jd: Option<String>,
    pub fps: Option<serde_json::Value>,
}

/// The envelope of a video chunk: the bytes with the chunk's content type
/// (`video/mp4` when it has none), addressed as asked, with the frame rate
/// as metadata when given.
pub fn video_envelope(q: VideoQuery, content_type: Option<String>, data: Vec<u8>) -> (r: Envelope)
    ensures
        r.source is Video,
        r.payload matches Payload::Binary { mime_type, data: d } && d == data && mime_type@ == match content_type {
            Some(c) => c@,
            None => "video/mp4"@,
        },
        r.jd_address == q.jd,
        r.destination == q.agent,
        match q.fps {
            Some(f) => meta_keys(r.meta@) == seq!["fps"@] && meta_holds(r.meta@, "fps"@, f),
            None => r.meta@.len() == 0,
        },
{
    let VideoQuery { agent, jd, fps } = q;
    let mime_type = match content_type {
        Some(c) => c,
        None => owned("video/mp4"),
    };
    let e = Envelope::new(SourceKind::Video, Payload::Binary { mime_type, data });
    let mut e = addressed(e, jd, agent);
    match fps {
        Some(f) => {
            e.insert_meta("fps", f);
            proof {
                assert(meta_keys(e.meta@) =~= seq!["fps"@]);
            }
        },
        None => {},
    }
    e
}

/// The query of POST /ingest/file.
#[derive(Debug, Clone)]
pub struct FileQuery {
    pub agent: Option<String>,
    pub jd: Option<String>,
}

/// The MIME type of an uploaded file: its content type when the upload
/// gave one, else what its name suggests, else `application/octet-stream`.
pub open spec fn file_mime_of(file_name: Option<String>, content_type: Option<String>) -> Seq<char> {
    match content_type {
        Some(c) => c@,
        None => match file_name {
            Some(f) => guessed_mime(f@),
            None => "application/octet-stream"@,
        },
    }
}

/// The envelope of an uploaded file: the bytes with their MIME type (see
/// `file_mime_of`), addressed as asked, with the file name as metadata.
pub fn file_envelope(q: FileQuery, file_name: Option<String>, content_type: Option<String>, data: Vec<u8>) -> (r: Envelope)
    ensures
        r.source is File,
        r.payload matches Payload::Binary { mime_type, data: d } && d == data && mime_type@
            == file_mime_of(file_name, content_type),
        r.jd_address == q.jd,
        r.destination == q.agent,
        match file_name {
            Some(f) => meta_keys(r.meta@) == seq!["filename"@] && meta_holds(r.meta@, "filename"@, json_string_of(f@)),
            None => r.meta@.len() == 0,
        },
{
    let FileQuery { agent, jd } = q;
    let mime_type = match &content_type {
        Some(c) => c.clone(),
        None => match &file_name {
            Some(f) => guess_mime(f.as_str()),
            None => owned("application/octet-stream"),
        },
    };
    let e = Envelope::new(SourceKind::File, Payload::Binary { mime_type, data });
    let mut e = addressed(e, jd, agent);
    match file_name {
        Some(f) => {
            let v = json_string(f);
            e.insert_meta("filename", v);
            proof {
                assert(meta_keys(e.meta@) =~= seq!["filename"@]);
            }
        },
        None => {},
    }
    e
}

} // verus!
