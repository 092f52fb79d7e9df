// The model layer: a table of named tasks (classify, summarise, chat,
// transcribe, ...), each a backend URL, a model, a system prompt template
// and how much input it keeps. Running a task turns a payload into the
// request its backend expects; the sending is the caller's part.
//
// A task's sampling temperature is a float and stays with the caller.
use vstd::prelude::*;

use crate::envelope::{Envelope, Payload, compact_json, json_compact};
use crate::store::{debug_text, source_label, source_text};
use crate::text::{chars_of, owned, push_all, same_text, string_from_range, trim, trim_ws};

verus! {

/// The wire format of a task.
#[derive(Debug, Clone, Copy, PartialEq, Eq, Structural)]
pub enum TaskKind {
    /// OpenAI-compatible `/v1/chat/completions`.
    Chat,
    /// OpenAI-compatible `/v1/audio/transcriptions` (multipart).
    Audio,
}

/// One task of the table.
#[derive(Debug, Clone)]
pub struct TaskConfig {
    /// Base URL of the backend, e.g. "http://localhost:8090".
    pub base_url: String,
    pub model: String,
    /// The system prompt; `{context}` in it is replaced by the caller's
    /// context. For audio tasks it is Whisper's vocabulary hint.
    pub system_prompt: String,
    pub kind: TaskKind,
    /// Input beyond this many characters is cut off; `None` keeps it all.
    pub max_input_chars: Option<usize>,
}

/// The task table, by name; each name once.
#[derive(Debug, Clone)]
pub struct InferenceConfig {
    pub tasks: Vec<(String, TaskConfig)>,
}

/// The task registered under `name` (the first with that name).
pub open spec fn task_named(tasks: Seq<(String, TaskConfig)>, name: Seq<char>) -> Option<TaskConfig>
    decreases tasks.len(),
{
    if tasks.len() == 0 {
        None
    } else if tasks[0].0@ == name {
        Some(tasks[0].1)
    } else {
        task_named(tasks.drop_first(), name)
    }
}

/// The table with `(name, task)` registered: it replaces the task of that
/// name in place, or is appended.
pub open spec fn with_task(tasks: Seq<(String, TaskConfig)>, entry: (String, TaskConfig)) -> Seq<(String, TaskConfig)>
    decreases tasks.len(),
{
    if tasks.len() == 0 {
        seq![entry]
    } else if tasks[0].0@ == entry.0@ {
        seq![(tasks[0].0, entry.1)] + tasks.drop_first()
    } else {
        seq![tasks[0]] + with_task(tasks.drop_first(), entry)
    }
}

/// The table after registering each entry in order.
pub open spec fn tasks_from(entries: Seq<(String, TaskConfig)>) -> Seq<(String, TaskConfig)>
    decreases entries.len(),
{
    if entries.len() == 0 {
        Seq::empty()
    } else {
        with_task(tasks_from(entries.drop_last()), entries.last())
    }
}

proof fn lemma_with_task(tasks: Seq<(String, TaskConfig)>, entry: (String, TaskConfig), name: Seq<char>)
    ensures
        task_named(with_task(tasks, entry), name) == if name == entry.0@ {
            Some(entry.1)
        } else {
            task_named(tasks, name)
        },
    decreases tasks.len(),
{
    let r = with_task(tasks, entry);
    if tasks.len() > 0 && tasks[0].0@ != entry.0@ {
        let rest = with_task(tasks.drop_first(), entry);
        lemma_with_task(tasks.drop_first(), entry, name);
        assert(r == seq![tasks[0]] + rest);
        assert(r.drop_first() =~= rest);
        assert(r[0] == tasks[0]);
    } else if tasks.len() > 0 {
        assert(r == seq![(tasks[0].0, entry.1)] + tasks.drop_first());
        assert(r.drop_first() =~= tasks.drop_first());
        assert(r[0] == (tasks[0].0, entry.1));
    } else {
        assert(r == seq![entry]);
        assert(r.drop_first().len() == 0);
        assert(task_named(r.drop_first(), name) is None);
        assert(r[0] == entry);
    }
}

/// Law: registering a task makes it the one found under its name and
/// leaves every other name as it was; so in a table read from a file,
/// the last task of a name wins.
pub proof fn law_last_task_wins(tasks: Seq<(String, TaskConfig)>, entry: (String, TaskConfig), name: Seq<char>)
    ensures
        task_named(with_task(tasks, entry), entry.0@) == Some(entry.1),
        name != entry.0@ ==> task_named(with_task(tasks, entry), name) == task_named(tasks, name),
{
    lemma_with_task(tasks, entry, entry.0@);
    lemma_with_task(tasks, entry, name);
}

/// Registers a task.
fn add_task(tasks: &mut Vec<(String, TaskConfig)>, entry: (String, TaskConfig))
    ensures
        final(tasks)@ == with_task(old(tasks)@, entry),
{
    let mut i: usize = 0;
    proof {
        assert(tasks@.take(0) + with_task(tasks@.skip(0), entry) =~= with_task(tasks@, entry)) by {
            assert(tasks@.skip(0) =~= tasks@);
        }
    }
    while i < tasks.len()
        invariant
            i <= tasks@.len(),
            tasks@ == old(tasks)@,
            with_task(tasks@, entry) == tasks@.take(i as int) + with_task(tasks@.skip(i as int), entry),
        decreases tasks.len() - i,
    {
        let ghost rest = tasks@.skip(i as int);
        proof {
            assert(rest[0] == tasks@[i as int]);
            assert(rest.drop_first() =~= tasks@.skip(i + 1));
        }
        if same_text(tasks[i].0.as_str(), entry.0.as_str()) {
            let name = tasks[i].0.clone();
            let ghost before = tasks@;
            tasks.set(i, (name, entry.1));
            proof {
                assert(tasks@ =~= before.take(i as int) + (seq![(before[i as int].0, entry.1)]
                    + rest.drop_first()));
            }
            return;
        }
        proof {
            assert(tasks@.take(i + 1) =~= tasks@.take(i as int).push(tasks@[i as int]));
            assert(tasks@.take(i as int) + (seq![rest[0]] + with_task(rest.drop_first(), entry))
                =~= tasks@.take(i + 1) + with_task(tasks@.skip(i + 1), entry));
        }
        i = i + 1;
    }
    let ghost before = tasks@;
    tasks.push(entry);
    proof {
        assert(before.skip(i as int).len() == 0);
        assert(before.take(i as int) =~= before);
        assert(tasks@ =~= before + seq![entry]);
    }
}

impl InferenceConfig {
    /// The table of these `(name, task)` entries, read in order; a later
    /// task of a name already seen replaces the earlier.
    pub fn from_tasks(entries: Vec<(String, TaskConfig)>) -> (c: InferenceConfig)
        ensures
            c.tasks@ == tasks_from(entries@),
    {
        let mut tasks: Vec<(String, TaskConfig)> = Vec::new();
        let ghost all = entries@;
        for e in it: entries
            invariant
                all == it.seq(),
                tasks@ == tasks_from(all.take(it.index() as int)),
        {
            proof {
                assert(all.take(it.index() + 1).drop_last() =~= all.take(it.index() as int));
            }
            add_task(&mut tasks, e);
        }
        proof {
            assert(all.take(all.len() as int) =~= all);
        }
        InferenceConfig { tasks }
    }

    /// The task named `name`.
    pub fn task(&self, name: &str) -> (r: Option<&TaskConfig>)
        ensures
            match task_named(self.tasks@, name@) {
                Some(t) => r matches Some(x) && *x == t,
                None => r is None,
            },
    {
        let mut i: usize = 0;
        proof {
            assert(self.tasks@.skip(0) =~= self.tasks@);
        }
        while i < self.tasks.len()
            invariant
                i <= self.tasks@.len(),
                task_named(self.tasks@, name@) == task_named(self.tasks@.skip(i as int), name@),
            decreases self.tasks.len() - i,
        {
            proof {
                assert(self.tasks@.skip(i as int)[0] == self.tasks@[i as int]);
                assert(self.tasks@.skip(i as int).drop_first() =~= self.tasks@.skip(i + 1));
            }
            if same_text(self.tasks[i].0.as_str(), name) {
                return Some(&self.tasks[i].1);
            }
            i = i + 1;
        }
        None
    }
}

/// The prompt the default classify task gives the model.
pub open spec fn classify_prompt_text() -> Seq<char> {
    "You are a routing assistant for a personal knowledge system organised by Johnny Decimal addresses. Given a piece of data, return only the most appropriate JD address (e.g. '34.2'). No explanation. No punctuation. Just the address."@
}

/// The prompt the default summarise task gives the model.
pub open spec fn summarise_prompt_text() -> Seq<char> {
    "You are a summarisation assistant for a personal knowledge system. Summarise the following content concisely. Context about where this will be stored: {context}"@
}

/// The prompt the default chat task gives the model.
pub open spec fn chat_prompt_text() -> Seq<char> {
    "You are a helpful assistant integrated into a personal knowledge system organised by Johnny Decimal addresses."@
}

/// The settings the default tasks read from the environment.
#[derive(Debug, Clone)]
pub struct DefaultsEnv {
    /// `MAILROOM_LLM_URL`
    pub llm_url: Option<String>,
    /// `MAILROOM_CHAT_MODEL`
    pub chat_model: Option<String>,
    /// `MAILROOM_CLASSIFY_MODEL`
    pub classify_model: Option<String>,
    /// `MAILROOM_SUMMARISE_MODEL`
    pub summarise_model: Option<String>,
    /// `MAILROOM_TRANSCRIBE_MODEL`
    pub transcribe_model: Option<String>,
}

/// A value or its default.
pub open spec fn or_default(v: Option<String>, d: Seq<char>) -> Seq<char> {
    match v {
        Some(s) => s@,
        None => d,
    }
}

fn value_or(v: &Option<String>, d: &str) -> (r: String)
    ensures
        r@ == or_default(*v, d@),
{
    match v {
        Some(s) => s.clone(),
        None => owned(d),
    }
}

/// Whether `t` is an audio task on `url` with this model and prompt (the
/// prompt being Whisper's vocabulary hint), with no input cap.
pub open spec fn audio_task(t: TaskConfig, url: Seq<char>, model: Seq<char>, prompt: Seq<char>) -> bool {
    t.base_url@ == url && t.model@ == model && t.system_prompt@ == prompt && t.kind == TaskKind::Audio
        && t.max_input_chars is None
}

/// Whether `t` is a chat task on `url` with this model, prompt and input
/// cap.
pub open spec fn chat_task(t: TaskConfig, url: Seq<char>, model: Seq<char>, prompt: Seq<char>, cap: Option<usize>) -> bool {
    t.base_url@ == url && t.model@ == model && t.system_prompt@ == prompt && t.kind == TaskKind::Chat
        && t.max_input_chars == cap
}

impl InferenceConfig {
    /// The four tasks used when no task table is configured: `classify`
    /// (input cut to 500 characters), `summarise` and `chat`, with the
    /// configured models (each task's own, else the chat model, else
    /// "qwen_qwen3.5-0.8b"), and the audio task `transcribe` (its own
    /// model, else "whisper-1", with the caller's context as the
    /// vocabulary hint); all on the configured LLM URL (else
    /// "http://localhost:8090").
    pub fn from_env_defaults(env: &DefaultsEnv) -> (c: InferenceConfig)
        ensures
            c.tasks@.len() == 4,
            c.tasks@[0].0@ == "classify"@,
            c.tasks@[1].0@ == "summarise"@,
            c.tasks@[2].0@ == "chat"@,
            c.tasks@[3].0@ == "transcribe"@,
            ({
                let url = or_default(env.llm_url, "http://localhost:8090"@);
                let model = or_default(env.chat_model, "qwen_qwen3.5-0.8b"@);
                &&& chat_task(c.tasks@[0].1, url, or_default(env.classify_model, model), classify_prompt_text(), Some(500))
                &&& chat_task(c.tasks@[1].1, url, or_default(env.summarise_model, model), summarise_prompt_text(), None)
                &&& chat_task(c.tasks@[2].1, url, model, chat_prompt_text(), None)
                &&& audio_task(c.tasks@[3].1, url, or_default(env.transcribe_model, "whisper-1"@), "{context}"@)
            }),
    {
        let url = value_or(&env.llm_url, "http://localhost:8090");
        let model = value_or(&env.chat_model, "qwen_qwen3.5-0.8b");
        let classify_model = value_or(&env.classify_model, model.as_str());
        let summarise_model = value_or(&env.summarise_model, model.as_str());
        let transcribe_model = value_or(&env.transcribe_model, "whisper-1");
        let mut tasks: Vec<(String, TaskConfig)> = Vec::new();
        tasks.push(
            (
                owned("classify"),
                TaskConfig {
                    base_url: url.clone(),
                    model: classify_model,
                    system_prompt: owned(
                        "You are a routing assistant for a personal knowledge system organised by Johnny Decimal addresses. Given a piece of data, return only the most appropriate JD address (e.g. '34.2'). No explanation. No punctuation. Just the address.",
                    ),
                    kind: TaskKind::Chat,
                    max_input_chars: Some(500),
                },
            ),
        );
        tasks.push(
            (
                owned("summarise"),
                TaskConfig {
                    base_url: url.clone(),
                    model: summarise_model,
                    system_prompt: owned(
                        "You are a summarisation assistant for a personal knowledge system. Summarise the following content concisely. Context about where this will be stored: {context}",
                    ),
                    kind: TaskKind::Chat,
                    max_input_chars: None,
                },
            ),
        );
        tasks.push(
            (
                owned("chat"),
                TaskConfig {
                    base_url: url.clone(),
                    model,
                    system_prompt: owned(
                        "You are a helpful assistant integrated into a personal knowledge system organised by Johnny Decimal addresses.",
                    ),
                    kind: TaskKind::Chat,
                    max_input_chars: None,
                },
            ),
        );
        tasks.push(
            (
                owned("transcribe"),
                TaskConfig {
                    base_url: url,
                    model: transcribe_model,
                    system_prompt: owned("{context}"),
                    kind: TaskKind::Audio,
                    max_input_chars: None,
                },
            ),
        );
        InferenceConfig { tasks }
    }
}

/// `s` with every occurrence of `pat` (left to right, not overlapping)
/// replaced by `with` (`str::replace` for a non-empty pattern).
pub open spec fn replaced(s: Seq<char>, pat: Seq<char>, with: Seq<char>) -> Seq<char>
    decreases s.len(),
{
    if pat.len() == 0 || s.len() < pat.len() {
        s
    } else if s.take(pat.len() as int) == pat {
        with + replaced(s.skip(pat.len() as int), pat, with)
    } else {
        seq![s[0]] + replaced(s.drop_first(), pat, with)
    }
}

/// Whether `pat` occurs in `cs` at `i`.
fn occurs(cs: &Vec<char>, i: usize, pat: &Vec<char>) -> (r: bool)
    requires
        i <= cs@.len(),
    ensures
        r == (i + pat@.len() <= cs@.len() && cs@.subrange(i as int, i + pat@.len()) == pat@),
{
    let n = cs.len();
    if pat.len() > n - i {
        return false;
    }
    let mut k: usize = 0;
    while k < pat.len()
        invariant
            n == cs@.len(),
            i + pat@.len() <= n,
            k <= pat@.len(),
            forall|j: int| 0 <= j < k ==> cs@[i + j] == pat@[j],
        decreases pat.len() - k,
    {
        if cs[i + k] != pat[k] {
            assert(cs@.subrange(i as int, i + pat@.len())[k as int] != pat@[k as int]);
            return false;
        }
        k = k + 1;
    }
    assert(cs@.subrange(i as int, i + pat@.len()) =~= pat@);
    true
}

/// `s` with every `pat` replaced by `with`.
pub fn replace_all(s: &str, pat: &str, with: &str) -> (r: String)
    requires
        pat@.len() > 0,
    ensures
        r@ == replaced(s@, pat@, with@),
{
    let cs = chars_of(s);
    let ps = chars_of(pat);
    let mut out = String::new();
    let mut i: usize = 0;
    proof {
        assert(cs@.skip(0) =~= cs@);
    }
    while i < cs.len()
        invariant
            ps@ == pat@,
            ps@.len() > 0,
            i <= cs@.len(),
            replaced(s@, pat@, with@) == out@ + replaced(cs@.skip(i as int), pat@, with@),
            cs@ == s@,
        decreases cs.len() - i,
    {
        let ghost rest = cs@.skip(i as int);
        if occurs(&cs, i, &ps) {
            proof {
                assert(rest.take(ps@.len() as int) =~= cs@.subrange(i as int, i + ps@.len()));
                assert(rest.skip(ps@.len() as int) =~= cs@.skip(i + ps@.len()));
            }
            push_all(&mut out, with);
            i = i + ps.len();
        } else {
            proof {
                if rest.len() >= ps@.len() {
                    assert(rest.take(ps@.len() as int) =~= cs@.subrange(i as int, i + ps@.len()));
                }
                assert(rest[0] == cs@[i as int]);
                assert(rest.drop_first() =~= cs@.skip(i + 1));
                if rest.len() < ps@.len() {
                    // Too short for the pattern: the rest stays as it is.
                    assert(replaced(rest, pat@, with@) == rest);
                    assert(seq![rest[0]] + replaced(rest.drop_first(), pat@, with@) == rest) by {
                        assert(rest.drop_first().len() < pat@.len());
                        assert(seq![rest[0]] + rest.drop_first() =~= rest);
                    }
                }
            }
            crate::text::push_char(&mut out, cs[i]);
            proof {
                assert(out@ =~= (out@.drop_last()).push(cs@[i as int]));
            }
            i = i + 1;
        }
    }
    proof {
        assert(cs@.skip(i as int).len() == 0);
        assert(out@ + Seq::<char>::empty() =~= out@);
    }
    out
}

/// The first `n` characters of `s` (all of it when shorter).
pub open spec fn first_chars(s: Seq<char>, n: usize) -> Seq<char> {
    if s.len() <= n {
        s
    } else {
        s.take(n as int)
    }
}

/// A payload as the text a chat model reads: text and links as they are,
/// JSON compact, a file reference as `file: {path}`, bytes as
/// `[binary data]`.
pub open spec fn payload_text(p: Payload) -> Seq<char> {
    match p {
        Payload::Text(s) => s@,
        Payload::Json(v) => compact_json(v),
        Payload::Url(u) => u@,
        Payload::FilePath(f) => "file: "@ + f@,
        Payload::Bytes(_) => "[binary data]"@,
    }
}

/// A payload as chat text, cut to `max_chars` characters when given.
pub fn payload_as_text(payload: &Payload, max_chars: Option<usize>) -> (r: String)
    ensures
        r@ == match max_chars {
            Some(n) => first_chars(payload_text(*payload), n),
            None => payload_text(*payload),
        },
{
    let full = match payload {
        Payload::Text(s) => s.clone(),
        Payload::Json(v) => json_compact(v),
        Payload::Url(u) => u.clone(),
        Payload::FilePath(f) => {
            let mut r = owned("file: ");
            push_all(&mut r, f.as_str());
            r
        },
        Payload::Bytes(_) => owned("[binary data]"),
    };
    match max_chars {
        Some(n) => {
            let cs = chars_of(full.as_str());
            if cs.len() <= n {
                full
            } else {
                proof {
                    assert(cs@.subrange(0, n as int) =~= cs@.take(n as int));
                }
                string_from_range(&cs, 0, n)
            }
        },
        None => full,
    }
}

/// The error for a task name the table lacks.
pub fn unknown_task_message(task_name: &str) -> (r: String)
    ensures
        r@ == "no task named '"@ + task_name@ + "' configured — check Mailroom.toml's [[tasks]]"@,
{
    let mut r = owned("no task named '");
    push_all(&mut r, task_name);
    push_all(&mut r, "' configured — check Mailroom.toml's [[tasks]]");
    r
}

/// A chat request as it goes out (the temperature is added by the
/// caller).
#[derive(Debug, Clone)]
pub struct ChatPlan {
    /// `{base_url}/v1/chat/completions`
    pub url: String,
    pub model: String,
    /// (role, content) in order.
    pub messages: Vec<(String, String)>,
}

/// The messages as text.
pub open spec fn messages_view(m: Seq<(String, String)>) -> Seq<(Seq<char>, Seq<char>)> {
    m.map_values(|x: (String, String)| (x.0@, x.1@))
}

/// The chat request a chat task makes of a payload: the system prompt
/// with `{context}` replaced, then the payload as user text (cut to the
/// task's input cap).
pub fn chat_plan(task: &TaskConfig, input: &Payload, context: &str) -> (r: ChatPlan)
    ensures
        r.url@ == task.base_url@ + "/v1/chat/completions"@,
        r.model == task.model,
        messages_view(r.messages@) == seq![
            ("system"@, replaced(task.system_prompt@, "{context}"@, context@)),
            (
                "user"@,
                match task.max_input_chars {
                    Some(n) => first_chars(payload_text(*input), n),
                    None => payload_text(*input),
                },
            ),
        ],
{
    proof {
        reveal_strlit("{context}");
    }
    let system = replace_all(task.system_prompt.as_str(), "{context}", context);
    let user = payload_as_text(input, task.max_input_chars);
    let mut url = task.base_url.clone();
    push_all(&mut url, "/v1/chat/completions");
    let mut messages: Vec<(String, String)> = Vec::new();
    messages.push((owned("system"), system));
    messages.push((owned("user"), user));
    proof {
        assert(messages_view(messages@) =~= seq![
            ("system"@, replaced(task.system_prompt@, "{context}"@, context@)),
            (
                "user"@,
                match task.max_input_chars {
                    Some(n) => first_chars(payload_text(*input), n),
                    None => payload_text(*input),
                },
            ),
        ]);
    }
    ChatPlan { url, model: task.model.clone(), messages }
}

/// The answer of a chat completion: the first choice's content (empty
/// when there is none), trimmed when `trimmed`.
pub fn first_choice(contents: &Vec<String>, trimmed: bool) -> (r: String)
    ensures
        r@ == if contents@.len() == 0 {
            Seq::<char>::empty()
        } else if trimmed {
            trim_ws(contents@[0]@)
        } else {
            contents@[0]@
        },
{
    if contents.len() == 0 {
        proof {
            assert(trim_ws(Seq::<char>::empty()).len() == 0) by {
                crate::text::lemma_lead_len(Seq::<char>::empty(), |c: char| crate::text::is_white_space(c));
            }
        }
        return String::new();
    }
    if trimmed {
        trim(contents[0].as_str())
    } else {
        contents[0].clone()
    }
}

/// What `format!("{:?}", value)` writes for a JSON value.
pub uninterp spec fn json_debug_text(v: serde_json::Value) -> Seq<char>;

/// `<serde_json::Value as Debug>::fmt`, as `format!("{:?}", v)` renders
/// it (e.g. `Object {"a": Number(1)}`). Its result depends on the value
/// alone.
#[verifier::external_body]
fn json_debug(v: &serde_json::Value) -> (r: String)
    ensures
        r@ == json_debug_text(*v),
{
    format!("{:?}", v)
}

/// The `Debug` rendering of a payload that cannot be transcribed.
pub open spec fn payload_debug(p: Payload) -> Seq<char> {
    match p {
        Payload::Text(s) => "Text("@ + debug_text(s@) + ")"@,
        Payload::Json(v) => "Json("@ + json_debug_text(v) + ")"@,
        Payload::Url(u) => "Url("@ + debug_text(u@) + ")"@,
        Payload::Bytes(_) => Seq::empty(),
        Payload::FilePath(_) => Seq::empty(),
    }
}

/// Where the audio of a transcription comes from.
pub enum AudioSource<'a> {
    /// These bytes.
    Bytes(&'a Vec<u8>),
    /// The contents of this file.
    File(String),
}

/// A transcription request as it goes out.
pub struct AudioPlan<'a> {
    /// `{base_url}/v1/audio/transcriptions`
    pub url: String,
    pub model: String,
    /// Whisper's `prompt` field: the hint, when it is not blank.
    pub prompt: Option<String>,
    pub audio: AudioSource<'a>,
}

/// The transcription request an audio task makes of a payload: the audio
/// is the payload's bytes or the file it names; the hint is the system
/// prompt with `{context}` replaced, sent only when something is left of
/// it once trimmed. Any other payload is refused.
pub fn audio_plan<'a>(task: &TaskConfig, input: &'a Payload, context: &str) -> (r: Result<AudioPlan<'a>, String>)
    ensures
        match *input {
            Payload::Bytes(b) => r matches Ok(p) && p.audio matches AudioSource::Bytes(x) && *x == b,
            Payload::FilePath(f) => r matches Ok(p) && p.audio matches AudioSource::File(x) && x@
                == f@,
            _ => r matches Err(m) && m@ == "transcribe task requires a Bytes or FilePath payload, got "@
                + payload_debug(*input),
        },
        r matches Ok(p) ==> {
            let hint = replaced(task.system_prompt@, "{context}"@, context@);
            &&& p.url@ == task.base_url@ + "/v1/audio/transcriptions"@
            &&& p.model == task.model
            &&& if trim_ws(hint).len() > 0 {
                p.prompt matches Some(h) && h@ == hint
            } else {
                p.prompt is None
            }
        },
{
    let audio = match input {
        Payload::Bytes(b) => AudioSource::Bytes(b),
        Payload::FilePath(f) => AudioSource::File(f.clone()),
        other => {
            let mut m = owned("transcribe task requires a Bytes or FilePath payload, got ");
            match other {
                Payload::Text(s) => {
                    push_all(&mut m, "Text(");
                    push_all(&mut m, crate::store::debug_quoted(s.as_str()).as_str());
                    push_all(&mut m, ")");
                },
                Payload::Json(v) => {
                    push_all(&mut m, "Json(");
                    push_all(&mut m, json_debug(v).as_str());
                    push_all(&mut m, ")");
                },
                Payload::Url(u) => {
                    push_all(&mut m, "Url(");
                    push_all(&mut m, crate::store::debug_quoted(u.as_str()).as_str());
                    push_all(&mut m, ")");
                },
                _ => {},
            }
            return Err(m);
        },
    };
    proof {
        reveal_strlit("{context}");
    }
    let hint = replace_all(task.system_prompt.as_str(), "{context}", context);
    let t = trim(hint.as_str());
    let prompt = if chars_of(t.as_str()).len() > 0 {
        Some(hint)
    } else {
        None
    };
    let mut url = task.base_url.clone();
    push_all(&mut url, "/v1/audio/transcriptions");
    Ok(AudioPlan { url, model: task.model.clone(), prompt, audio })
}

/// The text the classify task is asked about: the data type, the source
/// (`Debug`) and the first 500 characters of the payload.
pub open spec fn classify_text(e: Envelope) -> Seq<char> {
    "Data type: "@ + e.data_type@ + "\nSource: "@ + source_text(e.source) + "\nContent preview: "@
        + first_chars(payload_text(e.payload), 500)
}

/// The payload handed to the classify task for an envelope.
pub fn classify_input(envelope: &Envelope) -> (r: Payload)
    ensures
        r matches Payload::Text(t) && t@ == classify_text(*envelope),
{
    let mut t = owned("Data type: ");
    push_all(&mut t, envelope.data_type.as_str());
    push_all(&mut t, "\nSource: ");
    push_all(&mut t, source_label(&envelope.source).as_str());
    push_all(&mut t, "\nContent preview: ");
    push_all(&mut t, payload_as_text(&envelope.payload, Some(500)).as_str());
    Payload::Text(t)
}

/// The default chat backend and system prompt.
pub open spec fn default_chat_model() -> Seq<char> {
    "qwen_qwen3.5-0.8b"@
}

/// A multi-turn chat request: model from the override, else the `chat`
/// task, else the default; URL and system prompt from the `chat` task,
/// else the defaults; the system prompt first, then the messages.
pub fn conversation_plan(
    config: &InferenceConfig,
    messages: Vec<(String, String)>,
    model_override: Option<&str>,
) -> (r: ChatPlan)
    ensures
        ({
            let task = task_named(config.tasks@, "chat"@);
            &&& r.model@ == match model_override {
                Some(m) => m@,
                None => match task {
                    Some(t) => t.model@,
                    None => default_chat_model(),
                },
            }
            &&& r.url@ == match task {
                Some(t) => t.base_url@,
                None => "http://localhost:8090"@,
            } + "/v1/chat/completions"@
            &&& messages_view(r.messages@) == seq![
                (
                    "system"@,
                    match task {
                        Some(t) => t.system_prompt@,
                        None => chat_prompt_text(),
                    },
                ),
            ] + messages_view(messages@)
        }),
{
    let task = config.task("chat");
    let model = match model_override {
        Some(m) => owned(m),
        None => match task {
            Some(t) => t.model.clone(),
            None => owned("qwen_qwen3.5-0.8b"),
        },
    };
    let mut url = match task {
        Some(t) => t.base_url.clone(),
        None => owned("http://localhost:8090"),
    };
    push_all(&mut url, "/v1/chat/completions");
    let system = match task {
        Some(t) => t.system_prompt.clone(),
        None => owned(
            "You are a helpful assistant integrated into a personal knowledge system organised by Johnny Decimal addresses.",
        ),
    };
    let mut all: Vec<(String, String)> = Vec::new();
    all.push((owned("system"), system));
    let ghost first = messages_view(all@);
    let ghost given = messages@;
    for m in it: messages
        invariant
            given == it.seq(),
            messages_view(all@) == first + messages_view(given.take(it.index() as int)),
    {
        let ghost before = all@;
        all.push(m);
        proof {
            assert(given.take(it.index() + 1) =~= given.take(it.index() as int).push(m));
            assert(messages_view(all@) =~= messages_view(before).push((m.0@, m.1@)));
            assert(messages_view(given.take(it.index() + 1)) =~= messages_view(
                given.take(it.index() as int),
            ).push((m.0@, m.1@)));
        }
    }
    proof {
        assert(given.take(given.len() as int) =~= given);
    }
    ChatPlan { url, model, messages: all }
}

} // verus!
