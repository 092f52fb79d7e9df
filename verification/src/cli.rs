// The command-line tools: `add-nest`, `refresh-schema`, `move-branch`.
//
// Arguments are read left to right: a flag that takes a value consumes
// the next argument (whatever it is), a switch stands alone, anything
// else is ignored with a notice. A later flag overrides an earlier one.
// This module reads the arguments, settles defaults and paths, and says
// what each tool will do; the tools' disk and process work is the
// caller's.
use vstd::prelude::*;

use crate::manifest::NodeKind;
use crate::move_branch::MergeStrategy;
use crate::paths::{file_name, file_name_of, join_path, joined};
use crate::text::{
    chars_of, is_ascii_alphanumeric, ascii_alphanumeric, has_prefix, owned, push_all, same_text,
    string_from_range,
};

verus! {

/// One argument as read: a flag with its value, a switch, or something
/// not recognised.
#[derive(Debug, Clone)]
pub enum ArgItem {
    Valued(String, String),
    Switch(String),
    Stray(String),
}

/// The tools, each with its own flags.
#[derive(Debug, Clone, Copy, PartialEq, Eq, Structural)]
pub enum Tool {
    AddNest,
    RefreshSchema,
    MoveBranch,
}

/// The flags of a tool that take a value.
pub open spec fn takes_value(tool: Tool, a: Seq<char>) -> bool {
    match tool {
        Tool::AddNest => a == "--id"@ || a == "--name"@ || a == "--vault"@ || a == "--target"@ || a
            == "--parent"@ || a == "--kind"@,
        Tool::RefreshSchema => a == "--vault"@ || a == "--script"@ || a == "--schema-path"@,
        Tool::MoveBranch => a == "--from"@ || a == "--to"@ || a == "--vault"@ || a == "--merge"@,
    }
}

/// The switches of a tool.
pub open spec fn is_switch(tool: Tool, a: Seq<char>) -> bool {
    match tool {
        Tool::AddNest => a == "--force"@,
        Tool::RefreshSchema => a == "--skip-pull"@,
        Tool::MoveBranch => a == "--dry-run"@,
    }
}

fn valued_flag(tool: Tool, a: &str) -> (r: bool)
    ensures
        r == takes_value(tool, a@),
{
    match tool {
        Tool::AddNest => same_text(a, "--id") || same_text(a, "--name") || same_text(a, "--vault")
            || same_text(a, "--target") || same_text(a, "--parent") || same_text(a, "--kind"),
        Tool::RefreshSchema => same_text(a, "--vault") || same_text(a, "--script") || same_text(
            a,
            "--schema-path",
        ),
        Tool::MoveBranch => same_text(a, "--from") || same_text(a, "--to") || same_text(a, "--vault")
            || same_text(a, "--merge"),
    }
}

fn switch_flag(tool: Tool, a: &str) -> (r: bool)
    ensures
        r == is_switch(tool, a@),
{
    match tool {
        Tool::AddNest => same_text(a, "--force"),
        Tool::RefreshSchema => same_text(a, "--skip-pull"),
        Tool::MoveBranch => same_text(a, "--dry-run"),
    }
}

/// The arguments read left to right: the items read, and the flag left
/// without its value at the end, if any (reading stops there).
pub open spec fn scan_args(tool: Tool, args: Seq<String>) -> (Seq<ArgItem>, Option<String>)
    decreases args.len(),
{
    if args.len() == 0 {
        (Seq::empty(), None)
    } else if takes_value(tool, args[0]@) {
        if args.len() < 2 {
            (Seq::empty(), Some(args[0]))
        } else {
            let rest = scan_args(tool, args.skip(2));
            (seq![ArgItem::Valued(args[0], args[1])] + rest.0, rest.1)
        }
    } else if is_switch(tool, args[0]@) {
        let rest = scan_args(tool, args.skip(1));
        (seq![ArgItem::Switch(args[0])] + rest.0, rest.1)
    } else {
        let rest = scan_args(tool, args.skip(1));
        (seq![ArgItem::Stray(args[0])] + rest.0, rest.1)
    }
}

/// Reads the arguments of a tool.
pub fn scan(tool: Tool, args: &[String]) -> (r: (Vec<ArgItem>, Option<String>))
    ensures
        (r.0@, r.1) == scan_args(tool, args@),
{
    let mut items: Vec<ArgItem> = Vec::new();
    let mut i: usize = 0;
    proof {
        assert(args@.skip(0) =~= args@);
        assert(items@ + scan_args(tool, args@).0 =~= scan_args(tool, args@).0);
    }
    while i < args.len()
        invariant
            i <= args@.len(),
            scan_args(tool, args@) == (items@ + scan_args(tool, args@.skip(i as int)).0, scan_args(
                tool,
                args@.skip(i as int),
            ).1),
        decreases args.len() - i,
    {
        let ghost rest = args@.skip(i as int);
        assert(rest[0] == args@[i as int]);
        let a = args[i].clone();
        if valued_flag(tool, a.as_str()) {
            if i + 1 >= args.len() {
                proof {
                    assert(items@ + Seq::<ArgItem>::empty() =~= items@);
                }
                return (items, Some(a));
            }
            assert(rest[1] == args@[i + 1]);
            assert(rest.skip(2) =~= args@.skip(i + 2));
            let v = args[i + 1].clone();
            let ghost before = items@;
            items.push(ArgItem::Valued(a, v));
            proof {
                let t = scan_args(tool, args@.skip(i + 2));
                assert(before + (seq![ArgItem::Valued(args@[i as int], args@[i + 1])] + t.0)
                    =~= items@ + t.0);
            }
            i = i + 2;
        } else {
            assert(rest.skip(1) =~= args@.skip(i + 1));
            let ghost before = items@;
            let sw = switch_flag(tool, a.as_str());
            if sw {
                items.push(ArgItem::Switch(a));
            } else {
                items.push(ArgItem::Stray(a));
            }
            proof {
                let t = scan_args(tool, args@.skip(i + 1));
                assert(before + (seq![items@.last()] + t.0) =~= items@ + t.0);
            }
            i = i + 1;
        }
    }
    proof {
        assert(args@.skip(i as int).len() == 0);
        assert(items@ + Seq::<ArgItem>::empty() =~= items@);
    }
    (items, None)
}

/// The value of the last occurrence of `flag` among the items.
pub open spec fn last_value(items: Seq<ArgItem>, flag: Seq<char>) -> Option<String>
    decreases items.len(),
{
    if items.len() == 0 {
        None
    } else {
        match items.last() {
            ArgItem::Valued(f, v) => if f@ == flag {
                Some(v)
            } else {
                last_value(items.drop_last(), flag)
            },
            _ => last_value(items.drop_last(), flag),
        }
    }
}

/// The value of the last occurrence of `flag`.
pub fn last_value_of(items: &Vec<ArgItem>, flag: &str) -> (r: Option<String>)
    ensures
        r == last_value(items@, flag@),
{
    let mut found: Option<String> = None;
    let mut i: usize = 0;
    while i < items.len()
        invariant
            i <= items@.len(),
            found == last_value(items@.take(i as int), flag@),
        decreases items.len() - i,
    {
        proof {
            assert(items@.take(i + 1).drop_last() =~= items@.take(i as int));
        }
        match &items[i] {
            ArgItem::Valued(f, v) => {
                if same_text(f.as_str(), flag) {
                    found = Some(v.clone());
                }
            },
            _ => {},
        }
        i = i + 1;
    }
    proof {
        assert(items@.take(items@.len() as int) =~= items@);
    }
    found
}

/// Whether switch `flag` occurs among the items.
pub open spec fn has_switch(items: Seq<ArgItem>, flag: Seq<char>) -> bool {
    exists|k: int| 0 <= k < items.len() && (#[trigger] items[k] matches ArgItem::Switch(f) && f@ == flag)
}

/// Whether switch `flag` occurs.
pub fn switch_given(items: &Vec<ArgItem>, flag: &str) -> (r: bool)
    ensures
        r == has_switch(items@, flag@),
{
    let mut i: usize = 0;
    while i < items.len()
        invariant
            i <= items@.len(),
            forall|k: int| 0 <= k < i ==> !(#[trigger] items@[k] matches ArgItem::Switch(f) && f@ == flag@),
        decreases items.len() - i,
    {
        match &items[i] {
            ArgItem::Switch(f) => {
                if same_text(f.as_str(), flag) {
                    return true;
                }
            },
            _ => {},
        }
        i = i + 1;
    }
    false
}

/// The node kind a `--kind` value names, if any.
pub open spec fn kind_named(raw: Seq<char>) -> Option<NodeKind> {
    if raw == "domain"@ {
        Some(NodeKind::Domain)
    } else if raw == "collection"@ {
        Some(NodeKind::Collection)
    } else if raw == "leaf"@ {
        Some(NodeKind::Leaf)
    } else if raw == "log"@ {
        Some(NodeKind::Log)
    } else if raw == "archive"@ {
        Some(NodeKind::Archive)
    } else if raw == "index"@ {
        Some(NodeKind::Index)
    } else if raw == "inferred"@ {
        Some(NodeKind::Inferred)
    } else {
        None
    }
}

/// Whether a `--kind` value names a node kind.
pub fn is_kind_name(raw: &str) -> (r: bool)
    ensures
        r == (kind_named(raw@) is Some),
{
    same_text(raw, "domain") || same_text(raw, "collection") || same_text(raw, "leaf") || same_text(
        raw,
        "log",
    ) || same_text(raw, "archive") || same_text(raw, "index") || same_text(raw, "inferred")
}

/// The node kind a `--kind` value names; `inferred` for anything else.
pub fn parse_kind(raw: &str) -> (k: NodeKind)
    ensures
        k == match kind_named(raw@) {
            Some(k) => k,
            None => NodeKind::Inferred,
        },
{
    if same_text(raw, "domain") {
        NodeKind::Domain
    } else if same_text(raw, "collection") {
        NodeKind::Collection
    } else if same_text(raw, "leaf") {
        NodeKind::Leaf
    } else if same_text(raw, "log") {
        NodeKind::Log
    } else if same_text(raw, "archive") {
        NodeKind::Archive
    } else if same_text(raw, "index") {
        NodeKind::Index
    } else {
        NodeKind::Inferred
    }
}

/// The notices reading prints, in order: each ignored argument, and each
/// `--kind` value that names no kind.
pub open spec fn notices_of(items: Seq<ArgItem>) -> Seq<Seq<char>>
    decreases items.len(),
{
    if items.len() == 0 {
        Seq::empty()
    } else {
        let before = notices_of(items.drop_last());
        match items.last() {
            ArgItem::Stray(a) => before.push("Unrecognized argument: "@ + a@ + " (ignoring)"@),
            ArgItem::Valued(f, v) => if f@ == "--kind"@ && kind_named(v@) is None {
                before.push("Unrecognized --kind '"@ + v@ + "', defaulting to inferred"@)
            } else {
                before
            },
            ArgItem::Switch(_) => before,
        }
    }
}

/// The notices for these items.
pub fn notices(items: &Vec<ArgItem>) -> (r: Vec<String>)
    ensures
        r@.map_values(|s: String| s@) == notices_of(items@),
{
    let mut out: Vec<String> = Vec::new();
    let mut i: usize = 0;
    while i < items.len()
        invariant
            i <= items@.len(),
            out@.map_values(|s: String| s@) == notices_of(items@.take(i as int)),
        decreases items.len() - i,
    {
        proof {
            assert(items@.take(i + 1).drop_last() =~= items@.take(i as int));
        }
        let ghost before = out@;
        match &items[i] {
            ArgItem::Stray(a) => {
                let mut m = owned("Unrecognized argument: ");
                push_all(&mut m, a.as_str());
                push_all(&mut m, " (ignoring)");
                out.push(m);
                proof {
                    assert(out@.map_values(|s: String| s@) =~= before.map_values(|s: String| s@).push(
                        out@.last()@,
                    ));
                }
            },
            ArgItem::Valued(f, v) => {
                if same_text(f.as_str(), "--kind") && !is_kind_name(v.as_str()) {
                    let mut m = owned("Unrecognized --kind '");
                    push_all(&mut m, v.as_str());
                    push_all(&mut m, "', defaulting to inferred");
                    out.push(m);
                    proof {
                        assert(out@.map_values(|s: String| s@) =~= before.map_values(
                            |s: String| s@,
                        ).push(out@.last()@));
                    }
                }
            },
            ArgItem::Switch(_) => {},
        }
        i = i + 1;
    }
    proof {
        assert(items@.take(items@.len() as int) =~= items@);
    }
    out
}

/// The reading of a tool's arguments: what it settled, or why it stopped,
/// and the notices printed on the way.
pub struct Parsed<T> {
    pub result: Result<T, String>,
    pub notices: Vec<String>,
}

/// `{flag} requires a value`.
pub open spec fn requires_value_msg(flag: Seq<char>) -> Seq<char> {
    flag + " requires a value"@
}

fn requires_value_message(flag: &str) -> (r: String)
    ensures
        r@ == requires_value_msg(flag@),
{
    let mut r = owned(flag);
    push_all(&mut r, " requires a value");
    r
}

/// The value after the flag at `*i`: on success the position moves past
/// both; an error when the flag is the last argument.
pub fn require_value(args: &[String], i: &mut usize, flag: &str) -> (r: Result<String, String>)
    requires
        *old(i) < usize::MAX - 1,
    ensures
        *old(i) + 1 < args@.len() ==> r == Ok::<String, String>(args@[*old(i) + 1]) && *final(i) == *old(i) + 2,
        *old(i) + 1 >= args@.len() ==> (r matches Err(m) && m@ == requires_value_msg(flag@)) && *final(i)
            == *old(i),
{
    if *i + 1 < args.len() {
        let v = args[*i + 1].clone();
        *i = *i + 2;
        Ok(v)
    } else {
        Err(requires_value_message(flag))
    }
}

/// What `add-nest` was asked.
#[derive(Debug, Clone)]
pub struct AddNestArgs {
    pub id: String,
    pub name: Option<String>,
    pub vault: Option<String>,
    pub target: Option<String>,
    pub parent: Option<String>,
    pub kind: NodeKind,
    pub force: bool,
}

/// The `--kind` given last, or `inferred`.
pub open spec fn kind_given(items: Seq<ArgItem>) -> NodeKind {
    match last_value(items, "--kind"@) {
        Some(v) => match kind_named(v@) {
            Some(k) => k,
            None => NodeKind::Inferred,
        },
        None => NodeKind::Inferred,
    }
}

/// What `add-nest` makes of its arguments: stop at a flag without its
/// value, then require `--id`.
pub open spec fn add_nest_reading(args: Seq<String>, r: Result<AddNestArgs, String>) -> bool {
    let (items, missing) = scan_args(Tool::AddNest, args);
    match missing {
        Some(f) => r matches Err(m) && m@ == requires_value_msg(f@),
        None => match last_value(items, "--id"@) {
            None => r matches Err(m) && m@ == "missing required --id"@,
            Some(id) => r matches Ok(a) && a.id == id && a.name == last_value(items, "--name"@)
                && a.vault == last_value(items, "--vault"@) && a.target == last_value(
                items,
                "--target"@,
            ) && a.parent == last_value(items, "--parent"@) && a.kind == kind_given(items) && a.force
                == has_switch(items, "--force"@),
        },
    }
}

/// Reads the arguments of `add-nest`.
pub fn parse_add_nest(args: &[String]) -> (p: Parsed<AddNestArgs>)
    ensures
        add_nest_reading(args@, p.result),
        p.notices@.map_values(|s: String| s@) == notices_of(scan_args(Tool::AddNest, args@).0),
{
    let (items, missing) = scan(Tool::AddNest, args);
    let notes = notices(&items);
    let result = match missing {
        Some(f) => Err(requires_value_message(f.as_str())),
        None => match last_value_of(&items, "--id") {
            None => Err(owned("missing required --id")),
            Some(id) => {
                let kind = match last_value_of(&items, "--kind") {
                    Some(v) => parse_kind(v.as_str()),
                    None => NodeKind::Inferred,
                };
                Ok(
                    AddNestArgs {
                        id,
                        name: last_value_of(&items, "--name"),
                        vault: last_value_of(&items, "--vault"),
                        target: last_value_of(&items, "--target"),
                        parent: last_value_of(&items, "--parent"),
                        kind,
                        force: switch_given(&items, "--force"),
                    },
                )
            },
        },
    };
    Parsed { result, notices: notes }
}

/// The vault root: `--vault`, else `MAILROOM_VAULT`, else `.`.
pub open spec fn vault_root_of(flag: Option<String>, env: Option<String>) -> Seq<char> {
    match flag {
        Some(v) => v@,
        None => match env {
            Some(e) => e@,
            None => "."@,
        },
    }
}

/// The vault root: `--vault`, else `MAILROOM_VAULT`, else `.`.
pub fn vault_root(flag: &Option<String>, env: &Option<String>) -> (r: String)
    ensures
        r@ == vault_root_of(*flag, *env),
{
    match flag {
        Some(v) => v.clone(),
        None => match env {
            Some(e) => e.clone(),
            None => owned("."),
        },
    }
}

/// Whether a directory's name stands for JD code `code`: compared without
/// case, the name starts with the code and the code is not followed by a
/// letter or digit ("12-B_x" and "12-b" match "12-B"; "12-BB" does not).
pub open spec fn names_code(lower_dir: Seq<char>, lower_code: Seq<char>) -> bool {
    &&& has_prefix(lower_dir, lower_code)
    &&& lower_dir.len() == lower_code.len() || !is_ascii_alphanumeric(lower_dir[lower_code.len() as int])
}

/// What `str::to_lowercase` gives.
pub uninterp spec fn lowercase_of(s: Seq<char>) -> Seq<char>;

/// `str::to_lowercase`: the Unicode lower-case mapping of every
/// character. Its result depends on the text alone; the mapping is not
/// restated.
#[verifier::external_body]
fn lowercase(s: &str) -> (r: String)
    ensures
        r@ == lowercase_of(s@),
{
    s.to_lowercase()
}

/// Whether directory name `dirname` matches JD code `code`, without case.
pub fn matches_code(dirname: &str, code: &str) -> (r: bool)
    ensures
        r == names_code(lowercase_of(dirname@), lowercase_of(code@)),
{
    let d = lowercase(dirname);
    let c = lowercase(code);
    let dc = chars_of(d.as_str());
    let cc = chars_of(c.as_str());
    if cc.len() > dc.len() {
        return false;
    }
    let mut k: usize = 0;
    while k < cc.len()
        invariant
            dc@ == lowercase_of(dirname@),
            cc@ == lowercase_of(code@),
            cc.len() <= dc.len(),
            k <= cc.len(),
            forall|j: int| 0 <= j < k ==> dc@[j] == cc@[j],
        decreases cc.len() - k,
    {
        if dc[k] != cc[k] {
            proof {
                assert(dc@.take(cc@.len() as int)[k as int] != cc@[k as int]);
            }
            return false;
        }
        k = k + 1;
    }
    proof {
        assert(dc@.take(cc@.len() as int) =~= cc@);
    }
    if dc.len() == cc.len() {
        true
    } else {
        !ascii_alphanumeric(dc[cc.len()])
    }
}

/// The number of bytes a character takes in UTF-8.
pub open spec fn utf8_width(c: char) -> nat {
    if (c as u32) < 0x80 {
        1
    } else if (c as u32) < 0x800 {
        2
    } else if (c as u32) < 0x10000 {
        3
    } else {
        4
    }
}

/// The number of bytes a text takes in UTF-8 (`str::len`).
pub open spec fn utf8_len(s: Seq<char>) -> nat
    decreases s.len(),
{
    if s.len() == 0 {
        0
    } else {
        utf8_len(s.drop_last()) + utf8_width(s.last())
    }
}

fn char_width(c: char) -> (w: usize)
    ensures
        w == utf8_width(c),
{
    let n: u32 = c as u32;
    if n < 0x80 {
        1
    } else if n < 0x800 {
        2
    } else if n < 0x10000 {
        3
    } else {
        4
    }
}

/// The name a Nest gets from its directory when none was given: the
/// directory name past the code's length (in bytes), with leading
/// characters that are not ASCII letters or digits dropped; the whole
/// directory name when that leaves nothing.
pub open spec fn name_from_dir(dirname: Seq<char>, code_bytes: nat) -> Seq<char> {
    if utf8_len(dirname) > code_bytes {
        let k = cut_index(dirname, code_bytes);
        let after = dirname.skip(k);
        let t = after.skip(lead_non_alnum(after) as int);
        if t.len() > 0 {
            t
        } else {
            dirname
        }
    } else {
        dirname
    }
}

/// The character position at which `s` reaches `n` bytes.
pub open spec fn cut_index(s: Seq<char>, n: nat) -> int {
    choose|k: int| 0 <= k <= s.len() && #[trigger] utf8_len(s.take(k)) == n
}

/// The number of leading characters that are not ASCII letters or digits.
pub open spec fn lead_non_alnum(s: Seq<char>) -> nat
    decreases s.len(),
{
    if s.len() > 0 && !is_ascii_alphanumeric(s[0]) {
        1 + lead_non_alnum(s.drop_first())
    } else {
        0
    }
}

/// Whether the code's length in bytes falls on a character boundary of
/// the directory name (else slicing there would panic).
pub open spec fn cut_on_boundary(dirname: Seq<char>, code_bytes: nat) -> bool {
    utf8_len(dirname) > code_bytes ==> exists|k: int|
        0 <= k <= dirname.len() && #[trigger] utf8_len(dirname.take(k)) == code_bytes
}

proof fn lemma_utf8_len_take(s: Seq<char>, k: int)
    requires
        0 <= k < s.len(),
    ensures
        utf8_len(s.take(k + 1)) == utf8_len(s.take(k)) + utf8_width(s[k]),
        utf8_len(s.take(k)) < utf8_len(s.take(k + 1)),
{
    assert(s.take(k + 1).drop_last() =~= s.take(k));
}

proof fn lemma_utf8_len_monotone(s: Seq<char>, j: int, k: int)
    requires
        0 <= j <= k <= s.len(),
    ensures
        utf8_len(s.take(j)) <= utf8_len(s.take(k)),
        j < k ==> utf8_len(s.take(j)) < utf8_len(s.take(k)),
    decreases k - j,
{
    if j < k {
        lemma_utf8_len_take(s, k - 1);
        lemma_utf8_len_monotone(s, j, k - 1);
    }
}

/// The directory name of `dir`, as text (empty when it has none).
pub open spec fn dir_name_text(dir: Seq<char>) -> Seq<char> {
    match file_name_of(dir) {
        Some(n) => n,
        None => Seq::empty(),
    }
}

/// The name a Nest gets from its directory `dir` when none was given.
pub fn derive_name(dir: &str, code: &str) -> (r: String)
    requires
        cut_on_boundary(dir_name_text(dir@), utf8_len(code@)),
        utf8_len(code@) < usize::MAX - 4,
    ensures
        r@ == name_from_dir(dir_name_text(dir@), utf8_len(code@)),
{
    let dirname = match file_name(dir) {
        Some(n) => n,
        None => String::new(),
    };
    let dc = chars_of(dirname.as_str());
    let cc = chars_of(code);
    let ghost dn = dc@;
    // Byte lengths of the code and of the directory name.
    let mut code_bytes: usize = 0;
    let mut i: usize = 0;
    while i < cc.len()
        invariant
            i <= cc@.len(),
            code_bytes == utf8_len(cc@.take(i as int)),
            cc@ == code@,
            utf8_len(code@) < usize::MAX - 4,
        decreases cc.len() - i,
    {
        proof {
            lemma_utf8_len_take(cc@, i as int);
            lemma_utf8_len_monotone(cc@, i + 1, cc@.len() as int);
            assert(cc@.take(cc@.len() as int) =~= cc@);
        }
        code_bytes = code_bytes + char_width(cc[i]);
        i = i + 1;
    }
    proof {
        assert(cc@.take(cc@.len() as int) =~= code@);
    }
    // The first character position at which the bytes so far reach the
    // code's byte length.
    let mut k: usize = 0;
    let mut bytes: usize = 0;
    while k < dc.len() && bytes < code_bytes
        invariant
            k <= dc@.len(),
            bytes == utf8_len(dc@.take(k as int)),
            k > 0 ==> utf8_len(dc@.take(k - 1)) < code_bytes,
            dc@ == dn,
            code_bytes == utf8_len(code@),
            utf8_len(code@) < usize::MAX - 4,
        decreases dc.len() - k,
    {
        proof {
            lemma_utf8_len_take(dc@, k as int);
        }
        bytes = bytes + char_width(dc[k]);
        k = k + 1;
    }
    proof {
        assert(dc@.take(dc@.len() as int) =~= dc@);
        lemma_utf8_len_monotone(dc@, k as int, dc@.len() as int);
    }
    if bytes > code_bytes || (k == dc.len() && bytes <= code_bytes) {
        // The name is no longer than the code in bytes.
        proof {
            if bytes > code_bytes {
                // Not reachable on a boundary cut: a longer name would have a
                // prefix of exactly `code_bytes` bytes.
                let j = cut_index(dn, utf8_len(code@));
                if j < k {
                    lemma_utf8_len_monotone(dn, j, k - 1);
                    lemma_utf8_len_take(dn, k - 1);
                } else {
                    lemma_utf8_len_monotone(dn, k as int, j);
                }
            }
        }
        return dirname;
    }
    // Here `bytes == code_bytes` and the name is longer.
    let mut s = k;
    while s < dc.len() && !ascii_alphanumeric(dc[s])
        invariant
            k <= s <= dc@.len(),
            forall|j: int| k <= j < s ==> !is_ascii_alphanumeric(#[trigger] dc@[j]),
        decreases dc.len() - s,
    {
        s = s + 1;
    }
    proof {
        let after = dn.skip(k as int);
        assert forall|j: int| 0 <= j < s - k implies !is_ascii_alphanumeric(#[trigger] after[j]) by {
            assert(after[j] == dc@[j + k]);
        }
        if s < dc@.len() {
            assert(after[s - k] == dc@[s as int]);
        }
        lemma_lead_non_alnum_unique(after, s - k);
        lemma_utf8_len_monotone(dn, k as int, dn.len() as int);
        assert(dn.take(dn.len() as int) =~= dn);
        assert(utf8_len(dn) > code_bytes);
        assert(utf8_len(dn.take(k as int)) == code_bytes);
        let j = cut_index(dn, utf8_len(code@));
        assert(0 <= j <= dn.len() && utf8_len(dn.take(j)) == utf8_len(code@));
        if j < k {
            lemma_utf8_len_monotone(dn, j, k as int);
        } else if j > k {
            lemma_utf8_len_monotone(dn, k as int, j);
        }
        assert(j == k);
        assert(dc@.subrange(s as int, dc@.len() as int) =~= after.skip(s - k));
        assert(dn == dir_name_text(dir@));
    }
    if s == dc.len() {
        dirname
    } else {
        string_from_range(&dc, s, dc.len())
    }
}

proof fn lemma_lead_non_alnum_unique(s: Seq<char>, n: int)
    requires
        0 <= n <= s.len(),
        forall|j: int| 0 <= j < n ==> !is_ascii_alphanumeric(#[trigger] s[j]),
        n < s.len() ==> is_ascii_alphanumeric(s[n]),
    ensures
        lead_non_alnum(s) == n,
    decreases n,
{
    if n > 0 {
        assert(!is_ascii_alphanumeric(s[0]));
        let t = s.drop_first();
        assert forall|j: int| 0 <= j < n - 1 implies !is_ascii_alphanumeric(#[trigger] t[j]) by {
            assert(t[j] == s[j + 1]);
        }
        if n < s.len() {
            assert(t[n - 1] == s[n]);
        }
        lemma_lead_non_alnum_unique(t, n - 1);
    }
}

/// What `add-nest` will do.
#[derive(Debug, Clone)]
pub enum AddNestPlan {
    /// Make a new `{id}_{name}` folder with a blank nest file under
    /// `parent`.
    CreateNew { id: String, name: String, kind: NodeKind, parent: String },
    /// Write a blank nest file into the existing directory `target`
    /// (unless one is there and `force` is off).
    InitInPlace { id: String, name: String, kind: NodeKind, target: String, force: bool },
    /// Look for the one directory under `vault_root` whose name matches
    /// `id` (see `matches_code`), then initialise it in place.
    Search { id: String, name: Option<String>, kind: NodeKind, force: bool, vault_root: String },
}

/// What `add-nest` does with what it was asked: `--parent` makes a new
/// node there (and needs `--name`); `--target` initialises that directory
/// (naming the Nest from the directory when no name was given); else the
/// vault is searched. Relative paths are taken from the vault root.
pub open spec fn add_nest_planned(a: AddNestArgs, env_vault: Option<String>, r: Result<AddNestPlan, String>) -> bool {
    let root = vault_root_of(a.vault, env_vault);
    match a.parent {
        Some(p) => match a.name {
            None => r matches Err(m) && m@
                == "--parent mode requires --name (a new folder is being created)"@,
            Some(n) => r matches Ok(AddNestPlan::CreateNew { id, name, kind, parent }) && id == a.id
                && name == n && kind == a.kind && parent@ == joined(root, p@),
        },
        None => match a.target {
            Some(t) => r matches Ok(AddNestPlan::InitInPlace { id, name, kind, target, force }) && id
                == a.id && kind == a.kind && force == a.force && target@ == joined(root, t@) && name@
                == match a.name {
                Some(n) => n@,
                None => name_from_dir(dir_name_text(joined(root, t@)), utf8_len(a.id@)),
            },
            None => r matches Ok(AddNestPlan::Search { id, name, kind, force, vault_root }) && id
                == a.id && name == a.name && kind == a.kind && force == a.force && vault_root@ == root,
        },
    }
}

/// Decides what `add-nest` does; `env_vault` is `MAILROOM_VAULT`.
pub fn plan_add_nest(args: AddNestArgs, env_vault: Option<String>) -> (r: Result<AddNestPlan, String>)
    requires
        args.parent is None && args.name is None && args.target is Some ==> cut_on_boundary(
            dir_name_text(joined(vault_root_of(args.vault, env_vault), args.target.unwrap()@)),
            utf8_len(args.id@),
        ),
        utf8_len(args.id@) < usize::MAX - 4,
    ensures
        add_nest_planned(args, env_vault, r),
{
    let root = vault_root(&args.vault, &env_vault);
    match args.parent {
        Some(p) => match args.name {
            None => Err(owned("--parent mode requires --name (a new folder is being created)")),
            Some(n) => Ok(
                AddNestPlan::CreateNew {
                    id: args.id,
                    name: n,
                    kind: args.kind,
                    parent: join_path(root.as_str(), p.as_str()),
                },
            ),
        },
        None => match args.target {
            Some(t) => {
                let target = join_path(root.as_str(), t.as_str());
                let name = match args.name {
                    Some(n) => n,
                    None => derive_name(target.as_str(), args.id.as_str()),
                };
                Ok(
                    AddNestPlan::InitInPlace {
                        id: args.id,
                        name,
                        kind: args.kind,
                        target,
                        force: args.force,
                    },
                )
            },
            None => Ok(
                AddNestPlan::Search {
                    id: args.id,
                    name: args.name,
                    kind: args.kind,
                    force: args.force,
                    vault_root: root,
                },
            ),
        },
    }
}

/// Why a vault search for a code found no single directory.
#[derive(Debug, Clone)]
pub enum SearchError {
    /// Nothing under the vault matches.
    NoMatch { vault_root: String, code: String },
    /// More than one directory matches; they are listed.
    Ambiguous { matches: Vec<String> },
}

impl SearchError {
    /// The error text.
    pub fn message(&self) -> (r: String)
        ensures
            match self {
                SearchError::NoMatch { vault_root, code } => r@ == "No directory under "@
                    + vault_root@ + " matches code \""@ + code@
                    + "\". Pass --target or --parent explicitly."@,
                SearchError::Ambiguous { .. } => r@ == "Ambiguous — pass --target to disambiguate."@,
            },
    {
        match self {
            SearchError::NoMatch { vault_root, code } => {
                let mut r = owned("No directory under ");
                push_all(&mut r, vault_root.as_str());
                push_all(&mut r, " matches code \"");
                push_all(&mut r, code.as_str());
                push_all(&mut r, "\". Pass --target or --parent explicitly.");
                r
            },
            SearchError::Ambiguous { .. } => owned("Ambiguous — pass --target to disambiguate."),
        }
    }
}

/// Whether add-nest writes the nest file in place: only where none exists
/// yet, or where `--force` was given.
pub fn should_write_nest(present: bool, force: bool) -> (r: bool)
    ensures
        r == (!present || force),
{
    !present || force
}

/// The verb add-nest reports after writing in place.
pub fn init_verb(force: bool) -> (r: &'static str)
    ensures
        force ==> r@ == "Re-initialized (forced)"@,
        !force ==> r@ == "Initialized"@,
{
    if force {
        "Re-initialized (forced)"
    } else {
        "Initialized"
    }
}

/// The one directory a vault search found for `code`.
pub fn pick_match(matches: Vec<String>, vault_root: &str, code: &str) -> (r: Result<String, SearchError>)
    ensures
        matches@.len() == 0 ==> (r matches Err(SearchError::NoMatch { vault_root: v, code: c })
            && v@ == vault_root@ && c@ == code@),
        matches@.len() == 1 ==> r == Ok::<String, SearchError>(matches@[0]),
        matches@.len() > 1 ==> (r matches Err(SearchError::Ambiguous { matches: m }) && m == matches),
{
    if matches.len() == 0 {
        Err(SearchError::NoMatch { vault_root: owned(vault_root), code: owned(code) })
    } else if matches.len() == 1 {
        let mut m = matches;
        let found = m.remove(0);
        Ok(found)
    } else {
        Err(SearchError::Ambiguous { matches })
    }
}

/// What `refresh-schema` was asked.
#[derive(Debug, Clone)]
pub struct RefreshArgs {
    pub vault: Option<String>,
    pub script: Option<String>,
    pub schema_path: Option<String>,
    pub skip_pull: bool,
}

/// What `refresh-schema` makes of its arguments.
pub open spec fn refresh_reading(args: Seq<String>, r: Result<RefreshArgs, String>) -> bool {
    let (items, missing) = scan_args(Tool::RefreshSchema, args);
    match missing {
        Some(f) => r matches Err(m) && m@ == requires_value_msg(f@),
        None => r matches Ok(a) && a.vault == last_value(items, "--vault"@) && a.script == last_value(
            items,
            "--script"@,
        ) && a.schema_path == last_value(items, "--schema-path"@) && a.skip_pull == has_switch(
            items,
            "--skip-pull"@,
        ),
    }
}

/// Reads the arguments of `refresh-schema`.
pub fn parse_refresh_schema(args: &[String]) -> (p: Parsed<RefreshArgs>)
    ensures
        refresh_reading(args@, p.result),
        p.notices@.map_values(|s: String| s@) == notices_of(scan_args(Tool::RefreshSchema, args@).0),
{
    let (items, missing) = scan(Tool::RefreshSchema, args);
    let notes = notices(&items);
    let result = match missing {
        Some(f) => Err(requires_value_message(f.as_str())),
        None => Ok(
            RefreshArgs {
                vault: last_value_of(&items, "--vault"),
                script: last_value_of(&items, "--script"),
                schema_path: last_value_of(&items, "--schema-path"),
                skip_pull: switch_given(&items, "--skip-pull"),
            },
        ),
    };
    Parsed { result, notices: notes }
}

/// The environment `refresh-schema` reads.
#[derive(Debug, Clone)]
pub struct RefreshEnv {
    /// `MAILROOM_VAULT`
    pub vault: Option<String>,
    /// `MAILROOM_SCHEMA_SCRIPT`
    pub script: Option<String>,
    /// `MAILROOM_SCHEMA_PATH`
    pub schema_path: Option<String>,
}

/// The three paths `refresh-schema` works with.
#[derive(Debug, Clone)]
pub struct RefreshPaths {
    pub vault_root: String,
    pub script_path: String,
    pub schema_path: String,
}

/// Each path: the flag, else the environment, else its place in the
/// vault (`18_shells-scripts/build-ron-from-index.py`, `schema.ron`).
pub open spec fn refresh_paths_of(a: RefreshArgs, env: RefreshEnv, p: RefreshPaths) -> bool {
    let root = vault_root_of(a.vault, env.vault);
    &&& p.vault_root@ == root
    &&& p.script_path@ == match a.script {
        Some(s) => s@,
        None => match env.script {
            Some(s) => s@,
            None => joined(root, "18_shells-scripts/build-ron-from-index.py"@),
        },
    }
    &&& p.schema_path@ == match a.schema_path {
        Some(s) => s@,
        None => match env.schema_path {
            Some(s) => s@,
            None => joined(root, "schema.ron"@),
        },
    }
}

/// Settles the paths of a `refresh-schema` run.
pub fn refresh_paths(args: &RefreshArgs, env: &RefreshEnv) -> (p: RefreshPaths)
    ensures
        refresh_paths_of(*args, *env, p),
{
    let root = vault_root(&args.vault, &env.vault);
    let script_path = match &args.script {
        Some(s) => s.clone(),
        None => match &env.script {
            Some(s) => s.clone(),
            None => join_path(root.as_str(), "18_shells-scripts/build-ron-from-index.py"),
        },
    };
    let schema_path = match &args.schema_path {
        Some(s) => s.clone(),
        None => match &env.schema_path {
            Some(s) => s.clone(),
            None => join_path(root.as_str(), "schema.ron"),
        },
    };
    RefreshPaths { vault_root: root, script_path, schema_path }
}

/// `Vault root {root} does not exist.`
pub fn missing_vault_message(vault_root: &str) -> (r: String)
    ensures
        r@ == "Vault root "@ + vault_root@ + " does not exist."@,
{
    let mut r = owned("Vault root ");
    push_all(&mut r, vault_root);
    push_all(&mut r, " does not exist.");
    r
}

/// The error when the schema script is missing.
pub fn missing_script_message(script_path: &str) -> (r: String)
    ensures
        r@ == "Schema script not found at "@ + script_path@
            + " (pass --script or set MAILROOM_SCHEMA_SCRIPT)."@,
{
    let mut r = owned("Schema script not found at ");
    push_all(&mut r, script_path);
    push_all(&mut r, " (pass --script or set MAILROOM_SCHEMA_SCRIPT).");
    r
}

/// The error when the schema generator fails, with what it wrote to
/// standard error.
pub fn generation_failed_message(stderr: &str) -> (r: String)
    ensures
        r@ == "Schema generation failed:\n"@ + stderr@,
{
    let mut r = owned("Schema generation failed:\n");
    push_all(&mut r, stderr);
    r
}

/// What `move-branch` was asked.
#[derive(Debug, Clone)]
pub struct MoveArgs {
    pub from_id: String,
    pub to_id: String,
    pub vault: Option<String>,
    pub dry_run: bool,
    pub merge: MergeStrategy,
}

/// The strategy a `--merge` value names.
pub open spec fn strategy_named(v: Seq<char>) -> Option<MergeStrategy> {
    if v == "keep-destination"@ {
        Some(MergeStrategy::KeepDestination)
    } else if v == "take-source"@ {
        Some(MergeStrategy::TakeSource)
    } else if v == "compare"@ {
        Some(MergeStrategy::Compare)
    } else {
        None
    }
}

/// The first `--merge` value that names no strategy, if any.
pub open spec fn first_bad_merge(items: Seq<ArgItem>) -> Option<String>
    decreases items.len(),
{
    if items.len() == 0 {
        None
    } else {
        match items[0] {
            ArgItem::Valued(f, v) => if f@ == "--merge"@ && strategy_named(v@) is None {
                Some(v)
            } else {
                first_bad_merge(items.drop_first())
            },
            _ => first_bad_merge(items.drop_first()),
        }
    }
}

/// The error for a `--merge` value that names no strategy.
pub open spec fn bad_merge_msg(v: Seq<char>) -> Seq<char> {
    "Unknown --merge value '"@ + v
        + "' — expected keep-destination, take-source, or compare"@
}

/// What `move-branch` makes of its arguments, reading left to right: a
/// bad `--merge` value or a flag without its value stops it, whichever
/// comes first; then `--from` and `--to` are required. The strategy is
/// the last `--merge` given, `compare` by default.
pub open spec fn move_reading(args: Seq<String>, r: Result<MoveArgs, String>) -> bool {
    let (items, missing) = scan_args(Tool::MoveBranch, args);
    match first_bad_merge(items) {
        Some(v) => r matches Err(m) && m@ == bad_merge_msg(v@),
        None => match missing {
            Some(f) => r matches Err(m) && m@ == requires_value_msg(f@),
            None => match (last_value(items, "--from"@), last_value(items, "--to"@)) {
                (None, _) => r matches Err(m) && m@ == "missing required --from"@,
                (Some(_), None) => r matches Err(m) && m@ == "missing required --to"@,
                (Some(from), Some(to)) => r matches Ok(a) && a.from_id == from && a.to_id == to
                    && a.vault == last_value(items, "--vault"@) && a.dry_run == has_switch(
                    items,
                    "--dry-run"@,
                ) && a.merge == match last_value(items, "--merge"@) {
                    Some(v) => strategy_named(v@).unwrap(),
                    None => MergeStrategy::Compare,
                },
            },
        },
    }
}

/// The strategy a `--merge` value names, if any.
pub fn merge_strategy_named(v: &str) -> (r: Option<MergeStrategy>)
    ensures
        r == strategy_named(v@),
{
    if same_text(v, "keep-destination") {
        Some(MergeStrategy::KeepDestination)
    } else if same_text(v, "take-source") {
        Some(MergeStrategy::TakeSource)
    } else if same_text(v, "compare") {
        Some(MergeStrategy::Compare)
    } else {
        None
    }
}

proof fn lemma_last_merge_named(items: Seq<ArgItem>)
    requires
        first_bad_merge(items) is None,
    ensures
        last_value(items, "--merge"@) matches Some(v) ==> strategy_named(v@) is Some,
    decreases items.len(),
{
    if items.len() > 0 {
        let t = items.drop_first();
        lemma_last_merge_named(t);
        lemma_last_value_front(items);
    }
}

proof fn lemma_last_value_front(items: Seq<ArgItem>)
    requires
        items.len() > 0,
    ensures
        last_value(items, "--merge"@) == match last_value(items.drop_first(), "--merge"@) {
            Some(v) => Some(v),
            None => match items[0] {
                ArgItem::Valued(f, v) => if f@ == "--merge"@ {
                    Some(v)
                } else {
                    None
                },
                _ => None,
            },
        },
    decreases items.len(),
{
    let m = "--merge"@;
    if items.len() > 1 {
        let d = items.drop_last();
        let t = items.drop_first();
        lemma_last_value_front(d);
        assert(d.drop_first() =~= t.drop_last());
        assert(t.last() == items.last());
        assert(d[0] == items[0]);
        let is_merge = match items.last() {
            ArgItem::Valued(f, _) => f@ == m,
            _ => false,
        };
        if is_merge {
            assert(last_value(items, m) == last_value(t, m));
        } else {
            assert(last_value(items, m) == last_value(d, m));
            assert(last_value(t, m) == last_value(t.drop_last(), m));
        }
    } else {
        assert(items.drop_last().len() == 0);
        assert(items.drop_first().len() == 0);
        assert(items.last() == items[0]);
        assert(last_value(items.drop_first(), m) is None);
        assert(last_value(items.drop_last(), m) is None);
    }
}

/// The first `--merge` value that names no strategy.
fn find_bad_merge(items: &Vec<ArgItem>) -> (r: Option<String>)
    ensures
        r == first_bad_merge(items@),
{
    proof {
        assert(items@.skip(0) =~= items@);
    }
    let mut i: usize = 0;
    while i < items.len()
        invariant
            i <= items@.len(),
            first_bad_merge(items@) == first_bad_merge(items@.skip(i as int)),
        decreases items.len() - i,
    {
        proof {
            assert(items@.skip(i as int)[0] == items@[i as int]);
            assert(items@.skip(i as int).drop_first() =~= items@.skip(i + 1));
        }
        match &items[i] {
            ArgItem::Valued(f, v) => {
                if same_text(f.as_str(), "--merge") && merge_strategy_named(v.as_str()).is_none() {
                    return Some(v.clone());
                }
            },
            _ => {},
        }
        i = i + 1;
    }
    None
}

/// Reads the arguments of `move-branch`.
pub fn parse_move_branch(args: &[String]) -> (p: Parsed<MoveArgs>)
    ensures
        move_reading(args@, p.result),
        p.notices@.map_values(|s: String| s@) == notices_of(scan_args(Tool::MoveBranch, args@).0),
{
    proof {
        assert(args@.skip(0) =~= args@);
    }
    let (items, missing) = scan(Tool::MoveBranch, args);
    let notes = notices(&items);
    proof {
        assert(items@.skip(0) =~= items@);
    }
    let result = match find_bad_merge(&items) {
        Some(v) => {
            let mut m = owned("Unknown --merge value '");
            push_all(&mut m, v.as_str());
            push_all(&mut m, "' — expected keep-destination, take-source, or compare");
            Err(m)
        },
        None => match missing {
            Some(f) => Err(requires_value_message(f.as_str())),
            None => match last_value_of(&items, "--from") {
                None => Err(owned("missing required --from")),
                Some(from_id) => match last_value_of(&items, "--to") {
                    None => Err(owned("missing required --to")),
                    Some(to_id) => {
                        proof {
                            lemma_last_merge_named(items@);
                        }
                        let merge = match last_value_of(&items, "--merge") {
                            Some(v) => match merge_strategy_named(v.as_str()) {
                                Some(s) => s,
                                None => MergeStrategy::Compare,
                            },
                            None => MergeStrategy::Compare,
                        };
                        Ok(
                            MoveArgs {
                                from_id,
                                to_id,
                                vault: last_value_of(&items, "--vault"),
                                dry_run: switch_given(&items, "--dry-run"),
                                merge,
                            },
                        )
                    },
                },
            },
        },
    };
    Parsed { result, notices: notes }
}

proof fn lemma_scan_concat(tool: Tool, a: Seq<String>, b: Seq<String>)
    requires
        scan_args(tool, a).1 is None,
    ensures
        scan_args(tool, a + b) == (scan_args(tool, a).0 + scan_args(tool, b).0, scan_args(tool, b).1),
    decreases a.len(),
{
    let ab = a + b;
    if a.len() == 0 {
        assert(ab =~= b);
        assert(Seq::<ArgItem>::empty() + scan_args(tool, b).0 =~= scan_args(tool, b).0);
    } else {
        assert(ab[0] == a[0]);
        if takes_value(tool, a[0]@) {
            assert(a.len() >= 2);
            assert(ab[1] == a[1]);
            assert(ab.skip(2) =~= a.skip(2) + b);
            lemma_scan_concat(tool, a.skip(2), b);
            let head = seq![ArgItem::Valued(a[0], a[1])];
            assert(head + (scan_args(tool, a.skip(2)).0 + scan_args(tool, b).0) =~= (head
                + scan_args(tool, a.skip(2)).0) + scan_args(tool, b).0);
        } else {
            assert(ab.skip(1) =~= a.skip(1) + b);
            lemma_scan_concat(tool, a.skip(1), b);
            let head = if is_switch(tool, a[0]@) {
                seq![ArgItem::Switch(a[0])]
            } else {
                seq![ArgItem::Stray(a[0])]
            };
            assert(head + (scan_args(tool, a.skip(1)).0 + scan_args(tool, b).0) =~= (head
                + scan_args(tool, a.skip(1)).0) + scan_args(tool, b).0);
        }
    }
}

/// Law: a flag given again later overrides what it said before: after
/// any arguments that leave no flag waiting for its value, a further
/// `flag value` makes `value` what the tool reads for that flag.
pub proof fn law_later_flag_wins(tool: Tool, args: Seq<String>, flag: String, value: String)
    requires
        takes_value(tool, flag@),
        scan_args(tool, args).1 is None,
    ensures
        scan_args(tool, args + seq![flag, value]).1 is None,
        last_value(scan_args(tool, args + seq![flag, value]).0, flag@) == Some(value),
{
    let tail = seq![flag, value];
    lemma_scan_concat(tool, args, tail);
    assert(tail[0] == flag && tail[1] == value && tail.len() == 2);
    assert(tail.skip(2).len() == 0);
    assert(scan_args(tool, tail.skip(2)).0.len() == 0);
    assert(scan_args(tool, tail.skip(2)).1 is None);
    assert(scan_args(tool, tail).0 =~= seq![ArgItem::Valued(flag, value)]);
    let items = scan_args(tool, args).0 + seq![ArgItem::Valued(flag, value)];
    assert(items.last() == ArgItem::Valued(flag, value));
}

/// Law: a `--vault` flag decides the vault root whatever the environment
/// holds; `MAILROOM_VAULT` is used only when the flag is absent, and "."
/// only when both are absent.
pub proof fn law_vault_flag_wins(flag: Option<String>, env: Option<String>)
    ensures
        flag matches Some(v) ==> vault_root_of(flag, env) == v@,
        flag is None && env is Some ==> vault_root_of(flag, env) == env.unwrap()@,
        flag is None && env is None ==> vault_root_of(flag, env) == "."@,
        flag is Some ==> vault_root_of(flag, env) == vault_root_of(flag, None),
{
}

/// Law: a directory stands for a code exactly when, both lower-cased,
/// the directory's name begins with the code and the code is not followed
/// there by an ASCII letter or digit; so "12-b_x" and "12-b" stand for
/// "12-b", and "12-bb" does not. A directory named exactly the code always
/// stands for it.
pub proof fn law_code_match(d: Seq<char>, c: Seq<char>)
    ensures
        names_code(d, c) <==> (d.len() >= c.len() && d.subrange(0, c.len() as int) == c && (d.len() == c.len()
            || !is_ascii_alphanumeric(d[c.len() as int]))),
        names_code(c, c),
{
    assert(d.subrange(0, c.len() as int) =~= d.take(c.len() as int));
    assert(c.take(c.len() as int) =~= c);
}

} // verus!
