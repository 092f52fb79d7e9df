// Safe JD renumbering: rename a Nest's id, move its directory to match,
// rewire every other Nest's [routing] rules that pointed at the old id,
// and flag (never silently touch) an address that the code relies on as
// a literal fallback.
//
// The decisions live here: where the Nest goes, what its manifest says
// afterwards, whether an existing destination is merged into or only
// compared with, which routing rules change. Walking the vault and
// moving files is the caller's part.
use vstd::prelude::*;

use crate::manifest::{Manifest, NodeKind, RoutingConfig, StoreKind};
use crate::paths::{forward_slashes, join_path, joined, strip_path_prefix, stripped_path, to_forward_slashes};
use crate::slug::{slug_of, slugify};
use crate::text::{owned, push_all, push_char, same_text};

verus! {

/// What to do when the destination id already has its own Nest.
#[derive(Debug, Clone, Copy, PartialEq, Eq, Structural)]
pub enum MergeStrategy {
    /// The destination's nest file wins; only the source's content moves in.
    KeepDestination,
    /// The source's nest file replaces the destination's (with the
    /// destination's id and path).
    TakeSource,
    /// Report every field that differs and change nothing.
    Compare,
}

/// A manifest field that `diff_manifests` compares.
#[derive(Debug, Clone, Copy, PartialEq, Eq, Structural)]
pub enum ManifestField {
    Name,
    Kind,
    Accepts,
    Store,
    Routing,
    Library,
    KnownTags,
    CallNumber,
}

pub open spec fn field_label(f: ManifestField) -> Seq<char> {
    match f {
        ManifestField::Name => seq!['n', 'a', 'm', 'e'],
        ManifestField::Kind => seq!['k', 'i', 'n', 'd'],
        ManifestField::Accepts => seq!['a', 'c', 'c', 'e', 'p', 't', 's'],
        ManifestField::Store => seq!['s', 't', 'o', 'r', 'e'],
        ManifestField::Routing => seq!['r', 'o', 'u', 't', 'i', 'n', 'g'],
        ManifestField::Library => seq!['l', 'i', 'b', 'r', 'a', 'r', 'y'],
        ManifestField::KnownTags => seq!['k', 'n', 'o', 'w', 'n', '_', 't', 'a', 'g', 's'],
        ManifestField::CallNumber => seq![
            'c',
            'a',
            'l',
            'l',
            '_',
            'n',
            'u',
            'm',
            'b',
            'e',
            'r',
        ],
    }
}

impl ManifestField {
    /// The field's name as it appears in a nest file.
    pub fn label(&self) -> (r: String)
        ensures
            r@ == field_label(*self),
    {
        let mut r = String::new();
        let word: &str = match self {
            ManifestField::Name => "name",
            ManifestField::Kind => "kind",
            ManifestField::Accepts => "accepts",
            ManifestField::Store => "store",
            ManifestField::Routing => "routing",
            ManifestField::Library => "library",
            ManifestField::KnownTags => "known_tags",
            ManifestField::CallNumber => "call_number",
        };
        proof {
            reveal_strlit("name");
            reveal_strlit("kind");
            reveal_strlit("accepts");
            reveal_strlit("store");
            reveal_strlit("routing");
            reveal_strlit("library");
            reveal_strlit("known_tags");
            reveal_strlit("call_number");
        }
        push_all(&mut r, word);
        assert(r@ =~= field_label(*self));
        r
    }
}

/// What a move-branch run found and did.
#[derive(Debug, Clone)]
pub struct MoveBranchReport {
    pub from_id: String,
    pub to_id: String,
    pub old_path: String,
    pub new_path: String,
    /// (nest file path, data type) of every [routing] rule rewired.
    pub rewired_routing_rules: Vec<(String, String)>,
    pub hardcoded_warnings: Vec<String>,
    /// The fields in which source and destination differ; filled only
    /// when the destination already existed.
    pub manifest_diffs: Vec<ManifestField>,
    pub merged_into_existing: bool,
    pub dry_run: bool,
}

/// Why a move cannot go ahead.
#[derive(Debug, Clone, PartialEq, Eq)]
pub enum MoveError {
    /// No nest file in the vault has the source id.
    NoSuchNest,
    /// The destination directory does not lie under the vault root.
    OutsideVault,
}

/// Views of optional strings, string lists and routing rules.
pub open spec fn opt_view(o: Option<String>) -> Option<Seq<char>> {
    match o {
        Some(s) => Some(s@),
        None => None,
    }
}

pub open spec fn strings_view(v: Seq<String>) -> Seq<Seq<char>> {
    v.map_values(|s: String| s@)
}

pub open spec fn rules_view(rules: Seq<(String, String)>) -> Seq<(Seq<char>, Seq<char>)> {
    rules.map_values(|r: (String, String)| (r.0@, r.1@))
}

pub open spec fn routing_view(r: Option<RoutingConfig>) -> Option<Seq<(Seq<char>, Seq<char>)>> {
    match r {
        Some(c) => Some(rules_view(c.rules@)),
        None => None,
    }
}

/// Whether two manifests agree on a field.
pub open spec fn same_field(a: Manifest, b: Manifest, f: ManifestField) -> bool {
    match f {
        ManifestField::Name => a.name@ == b.name@,
        ManifestField::Kind => a.kind == b.kind,
        ManifestField::Accepts => strings_view(a.accepts@) == strings_view(b.accepts@),
        ManifestField::Store => a.store == b.store,
        ManifestField::Routing => routing_view(a.routing) == routing_view(b.routing),
        ManifestField::Library => opt_view(a.library) == opt_view(b.library),
        ManifestField::KnownTags => strings_view(a.known_tags@) == strings_view(b.known_tags@),
        ManifestField::CallNumber => opt_view(a.call_number) == opt_view(b.call_number),
    }
}

/// The compared fields, in report order.
pub open spec fn compared_fields() -> Seq<ManifestField> {
    seq![
        ManifestField::Name,
        ManifestField::Kind,
        ManifestField::Accepts,
        ManifestField::Store,
        ManifestField::Routing,
        ManifestField::Library,
        ManifestField::KnownTags,
        ManifestField::CallNumber,
    ]
}

/// The fields among `fields` in which `a` and `b` differ, order kept.
pub open spec fn differing(a: Manifest, b: Manifest, fields: Seq<ManifestField>) -> Seq<
    ManifestField,
>
    decreases fields.len(),
{
    if fields.len() == 0 {
        seq![]
    } else if same_field(a, b, fields.last()) {
        differing(a, b, fields.drop_last())
    } else {
        differing(a, b, fields.drop_last()).push(fields.last())
    }
}

fn same_opt_text(a: &Option<String>, b: &Option<String>) -> (r: bool)
    ensures
        r == (opt_view(*a) == opt_view(*b)),
{
    match (a, b) {
        (Some(x), Some(y)) => same_text(x.as_str(), y.as_str()),
        (None, None) => true,
        _ => false,
    }
}

fn same_strings(a: &Vec<String>, b: &Vec<String>) -> (r: bool)
    ensures
        r == (strings_view(a@) == strings_view(b@)),
{
    if a.len() != b.len() {
        proof {
            assert(strings_view(a@).len() != strings_view(b@).len());
        }
        return false;
    }
    let mut i: usize = 0;
    while i < a.len()
        invariant
            a.len() == b.len(),
            i <= a.len(),
            forall|k: int| 0 <= k < i ==> #[trigger] a@[k]@ == b@[k]@,
        decreases a.len() - i,
    {
        if !same_text(a[i].as_str(), b[i].as_str()) {
            proof {
                assert(strings_view(a@)[i as int] != strings_view(b@)[i as int]);
            }
            return false;
        }
        i = i + 1;
    }
    proof {
        assert(strings_view(a@) =~= strings_view(b@));
    }
    true
}

fn same_rules(a: &Vec<(String, String)>, b: &Vec<(String, String)>) -> (r: bool)
    ensures
        r == (rules_view(a@) == rules_view(b@)),
{
    if a.len() != b.len() {
        proof {
            assert(rules_view(a@).len() != rules_view(b@).len());
        }
        return false;
    }
    let mut i: usize = 0;
    while i < a.len()
        invariant
            a.len() == b.len(),
            i <= a.len(),
            forall|k: int| #![trigger a@[k]] 0 <= k < i ==> a@[k].0@ == b@[k].0@ && a@[k].1@ == b@[k].1@,
        decreases a.len() - i,
    {
        if !same_text(a[i].0.as_str(), b[i].0.as_str()) || !same_text(
            a[i].1.as_str(),
            b[i].1.as_str(),
        ) {
            proof {
                assert(rules_view(a@)[i as int] != rules_view(b@)[i as int]);
            }
            return false;
        }
        i = i + 1;
    }
    proof {
        assert(rules_view(a@) =~= rules_view(b@));
    }
    true
}

fn same_routing(a: &Option<RoutingConfig>, b: &Option<RoutingConfig>) -> (r: bool)
    ensures
        r == (routing_view(*a) == routing_view(*b)),
{
    match (a, b) {
        (Some(x), Some(y)) => same_rules(&x.rules, &y.rules),
        (None, None) => true,
        _ => false,
    }
}

fn same_store(a: Option<StoreKind>, b: Option<StoreKind>) -> (r: bool)
    ensures
        r == (a == b),
{
    match (a, b) {
        (Some(x), Some(y)) => x == y,
        (None, None) => true,
        _ => false,
    }
}

fn field_agrees(a: &Manifest, b: &Manifest, f: ManifestField) -> (r: bool)
    ensures
        r == same_field(*a, *b, f),
{
    match f {
        ManifestField::Name => same_text(a.name.as_str(), b.name.as_str()),
        ManifestField::Kind => a.kind == b.kind,
        ManifestField::Accepts => same_strings(&a.accepts, &b.accepts),
        ManifestField::Store => same_store(a.store, b.store),
        ManifestField::Routing => same_routing(&a.routing, &b.routing),
        ManifestField::Library => same_opt_text(&a.library, &b.library),
        ManifestField::KnownTags => same_strings(&a.known_tags, &b.known_tags),
        ManifestField::CallNumber => same_opt_text(&a.call_number, &b.call_number),
    }
}

/// The report line for a field that differs, given the two sides'
/// `Debug` renderings: `{field}: source = {a}  |  destination = {b}`.
pub fn diff_line(field: ManifestField, source: &str, destination: &str) -> (r: String)
    ensures
        r@ == field_label(field) + ": source = "@ + source@ + "  |  destination = "@ + destination@,
{
    let mut r = field.label();
    push_all(&mut r, ": source = ");
    push_all(&mut r, source);
    push_all(&mut r, "  |  destination = ");
    push_all(&mut r, destination);
    r
}

/// Field-by-field comparison of two manifests: the fields that differ,
/// in the order name, kind, accepts, store, routing, library, known_tags,
/// call_number.
pub fn diff_manifests(source: &Manifest, destination: &Manifest) -> (r: Vec<ManifestField>)
    ensures
        r@ == differing(*source, *destination, compared_fields()),
{
    let fields = vec![
        ManifestField::Name,
        ManifestField::Kind,
        ManifestField::Accepts,
        ManifestField::Store,
        ManifestField::Routing,
        ManifestField::Library,
        ManifestField::KnownTags,
        ManifestField::CallNumber,
    ];
    assert(fields@ =~= compared_fields());
    let mut out: Vec<ManifestField> = Vec::new();
    let mut i: usize = 0;
    while i < fields.len()
        invariant
            i <= fields.len(),
            fields@ == compared_fields(),
            out@ == differing(*source, *destination, fields@.take(i as int)),
        decreases fields.len() - i,
    {
        proof {
            assert(fields@.take(i + 1).drop_last() =~= fields@.take(i as int));
        }
        if !field_agrees(source, destination, fields[i]) {
            out.push(fields[i]);
        }
        i = i + 1;
    }
    proof {
        assert(fields@.take(fields.len() as int) =~= fields@);
    }
    out
}

proof fn lemma_differing_contains(a: Manifest, b: Manifest, fs: Seq<ManifestField>, f: ManifestField)
    ensures
        differing(a, b, fs).contains(f) <==> (fs.contains(f) && !same_field(a, b, f)),
        differing(a, b, fs).len() <= fs.len(),
    decreases fs.len(),
{
    if fs.len() > 0 {
        lemma_differing_contains(a, b, fs.drop_last(), f);
        assert(fs.contains(f) <==> (fs.drop_last().contains(f) || fs.last() == f)) by {
            if fs.contains(f) {
                let k = choose|k: int| 0 <= k < fs.len() && fs[k] == f;
                if k < fs.len() - 1 {
                    assert(fs.drop_last()[k] == f);
                }
            }
            if fs.drop_last().contains(f) {
                let k = choose|k: int| 0 <= k < fs.drop_last().len() && fs.drop_last()[k] == f;
                assert(fs[k] == f);
            }
            if fs.last() == f {
                assert(fs[fs.len() - 1] == f);
            }
        }
        let d = differing(a, b, fs.drop_last());
        if !same_field(a, b, fs.last()) {
            assert(d.push(fs.last()).contains(f) <==> (d.contains(f) || fs.last() == f)) by {
                if d.push(fs.last()).contains(f) {
                    let k = choose|k: int| 0 <= k < d.push(fs.last()).len() && d.push(fs.last())[k] == f;
                    if k < d.len() {
                        assert(d[k] == f);
                    }
                }
                if d.contains(f) {
                    let k = choose|k: int| 0 <= k < d.len() && d[k] == f;
                    assert(d.push(fs.last())[k] == f);
                }
                if fs.last() == f {
                    assert(d.push(fs.last())[d.len() as int] == f);
                }
            }
        }
    }
}

/// Law: comparing two manifests reports a field exactly when the two
/// differ in it: the name when the names differ, the kind when the kinds
/// do, the store when the stores do, the accepted types, library, tags and
/// call number when those differ; identical manifests give no line at all,
/// and at most the eight compared fields are reported. The id, path,
/// `[mailroom]` settings and description are never compared.
pub proof fn law_diff_reports_exactly_the_differences(a: Manifest, b: Manifest)
    ensures
        differing(a, a, compared_fields()).len() == 0,
        differing(a, b, compared_fields()).len() <= 8,
        differing(a, b, compared_fields()).contains(ManifestField::Name) <==> a.name@ != b.name@,
        differing(a, b, compared_fields()).contains(ManifestField::Kind) <==> a.kind != b.kind,
        differing(a, b, compared_fields()).contains(ManifestField::Store) <==> a.store != b.store,
        differing(a, b, compared_fields()).contains(ManifestField::Library) <==> opt_view(a.library) != opt_view(
            b.library,
        ),
        differing(a, b, compared_fields()).contains(ManifestField::CallNumber) <==> opt_view(a.call_number)
            != opt_view(b.call_number),
        differing(a, b, compared_fields()).contains(ManifestField::Accepts) <==> strings_view(a.accepts@)
            != strings_view(b.accepts@),
        differing(a, b, compared_fields()).contains(ManifestField::KnownTags) <==> strings_view(
            a.known_tags@,
        ) != strings_view(b.known_tags@),
        differing(a, b, compared_fields()) == differing(
            Manifest { id: b.id, path: b.path, mailroom: b.mailroom, about: b.about, ..a },
            b,
            compared_fields(),
        ),
{
    let cf = compared_fields();
    assert(cf[0] == ManifestField::Name);
    assert(cf[1] == ManifestField::Kind);
    assert(cf[2] == ManifestField::Accepts);
    assert(cf[3] == ManifestField::Store);
    assert(cf[5] == ManifestField::Library);
    assert(cf[6] == ManifestField::KnownTags);
    assert(cf[7] == ManifestField::CallNumber);
    lemma_differing_contains(a, b, cf, ManifestField::Name);
    lemma_differing_contains(a, b, cf, ManifestField::Kind);
    lemma_differing_contains(a, b, cf, ManifestField::Store);
    lemma_differing_contains(a, b, cf, ManifestField::Library);
    lemma_differing_contains(a, b, cf, ManifestField::CallNumber);
    lemma_differing_contains(a, b, cf, ManifestField::Accepts);
    lemma_differing_contains(a, b, cf, ManifestField::KnownTags);
    lemma_differing_none(a, cf);
    let a2 = Manifest { id: b.id, path: b.path, mailroom: b.mailroom, about: b.about, ..a };
    assert forall|f: ManifestField| #[trigger] same_field(a, b, f) == same_field(a2, b, f) by {}
    lemma_differing_same(a, a2, b, cf);
}

proof fn lemma_differing_same(a: Manifest, a2: Manifest, b: Manifest, fs: Seq<ManifestField>)
    requires
        forall|f: ManifestField| #[trigger] same_field(a, b, f) == same_field(a2, b, f),
    ensures
        differing(a, b, fs) == differing(a2, b, fs),
    decreases fs.len(),
{
    if fs.len() > 0 {
        lemma_differing_same(a, a2, b, fs.drop_last());
        assert(same_field(a, b, fs.last()) == same_field(a2, b, fs.last()));
    }
}

proof fn lemma_differing_none(a: Manifest, fs: Seq<ManifestField>)
    ensures
        differing(a, a, fs).len() == 0,
    decreases fs.len(),
{
    if fs.len() > 0 {
        lemma_differing_none(a, fs.drop_last());
    }
}

/// Addresses the code relies on as literal fallbacks, with where. Renaming
/// one of these also needs the code changed and rebuilt.
pub open spec fn hardcoded_addresses() -> Seq<(Seq<char>, Seq<char>)> {
    seq![
        ("39.2-3C"@, "routes/journal.rs — default text/journal fallback address"@),
        ("82.2"@, "routes/envelope.rs — Unclassified fallback address"@),
    ]
}

/// The warning given when renaming an address the code relies on.
pub open spec fn hardcoded_warning(from_id: Seq<char>, location: Seq<char>) -> Seq<char> {
    "'"@ + from_id + warning_middle() + location + warning_tail()
}

pub open spec fn warning_middle() -> Seq<char> {
    "' is hardcoded as a literal fallback in "@
}

pub open spec fn warning_tail() -> Seq<char> {
    " — renaming it here does NOT update that Rust source. You must edit it and rebuild, or that one code path will keep working as if this rename never happened."@
}

/// The warnings owed for renaming `from_id`, one per matching entry of
/// `table`, in table order.
pub open spec fn warnings_for(from_id: Seq<char>, table: Seq<(Seq<char>, Seq<char>)>) -> Seq<
    Seq<char>,
>
    decreases table.len(),
{
    if table.len() == 0 {
        seq![]
    } else if table.last().0 == from_id {
        warnings_for(from_id, table.drop_last()).push(hardcoded_warning(from_id, table.last().1))
    } else {
        warnings_for(from_id, table.drop_last())
    }
}

fn warning_text(from_id: &str, location: &str) -> (r: String)
    ensures
        r@ == hardcoded_warning(from_id@, location@),
{
    let mut r = owned("'");
    push_all(&mut r, from_id);
    push_all(&mut r, "' is hardcoded as a literal fallback in ");
    push_all(&mut r, location);
    push_all(&mut r, " — renaming it here does NOT update that Rust source. You must edit it and rebuild, or that one code path will keep working as if this rename never happened.");
    r
}

/// The warnings owed for renaming `from_id`: one for each address the code
/// relies on as a literal fallback that equals it.
pub fn hardcoded_warnings(from_id: &str) -> (r: Vec<String>)
    ensures
        strings_view(r@) == warnings_for(from_id@, hardcoded_addresses()),
{
    let table: Vec<(&str, &str)> = vec![
        ("39.2-3C", "routes/journal.rs — default text/journal fallback address"),
        ("82.2", "routes/envelope.rs — Unclassified fallback address"),
    ];
    let ghost tv = table@.map_values(|e: (&str, &str)| (e.0@, e.1@));
    assert(tv =~= hardcoded_addresses());
    let mut out: Vec<String> = Vec::new();
    let mut i: usize = 0;
    while i < table.len()
        invariant
            i <= table.len(),
            tv == table@.map_values(|e: (&str, &str)| (e.0@, e.1@)),
            strings_view(out@) == warnings_for(from_id@, tv.take(i as int)),
        decreases table.len() - i,
    {
        let (addr, location) = table[i];
        proof {
            assert(tv.take(i + 1).drop_last() =~= tv.take(i as int));
            assert(tv.take(i + 1).last() == (addr@, location@));
        }
        if same_text(addr, from_id) {
            let w = warning_text(from_id, location);
            let ghost before = out@;
            out.push(w);
            proof {
                assert(strings_view(out@) =~= strings_view(before).push(w@));
            }
        }
        i = i + 1;
    }
    proof {
        assert(tv.take(table.len() as int) =~= tv);
    }
    out
}

/// Routing rules with every address equal to `from` turned into `to`.
pub open spec fn rewired_rules(rules: Seq<(Seq<char>, Seq<char>)>, from: Seq<char>, to: Seq<char>) -> Seq<
    (Seq<char>, Seq<char>),
> {
    rules.map_values(|r: (Seq<char>, Seq<char>)| if r.1 == from { (r.0, to) } else { r })
}

/// The data types whose rule points at `from`, in rule order.
pub open spec fn rules_pointing_at(rules: Seq<(Seq<char>, Seq<char>)>, from: Seq<char>) -> Seq<
    Seq<char>,
>
    decreases rules.len(),
{
    if rules.len() == 0 {
        seq![]
    } else if rules.last().1 == from {
        rules_pointing_at(rules.drop_last(), from).push(rules.last().0)
    } else {
        rules_pointing_at(rules.drop_last(), from)
    }
}

/// Points every [routing] rule of `manifest` that names `from_id` at
/// `to_id` instead; returns the data types of the rules it changed, in
/// rule order. Nothing else in the manifest changes.
pub fn rewire_routing(manifest: &mut Manifest, from_id: &str, to_id: &str) -> (r: Vec<String>)
    ensures
        routing_view(final(manifest).routing) == match routing_view(old(manifest).routing) {
            Some(rules) => Some(rewired_rules(rules, from_id@, to_id@)),
            None => None,
        },
        strings_view(r@) == match routing_view(old(manifest).routing) {
            Some(rules) => rules_pointing_at(rules, from_id@),
            None => seq![],
        },
        final(manifest).id == old(manifest).id,
        final(manifest).name == old(manifest).name,
        final(manifest).path == old(manifest).path,
        final(manifest).kind == old(manifest).kind,
        final(manifest).accepts == old(manifest).accepts,
        final(manifest).store == old(manifest).store,
        final(manifest).library == old(manifest).library,
        final(manifest).mailroom == old(manifest).mailroom,
        final(manifest).about == old(manifest).about,
        final(manifest).known_tags == old(manifest).known_tags,
        final(manifest).call_number == old(manifest).call_number,
{
    let mut changed: Vec<String> = Vec::new();
    match manifest.routing.take() {
        None => {},
        Some(cfg) => {
            let old_rules = cfg.rules;
            let ghost orig = rules_view(old_rules@);
            let mut rules: Vec<(String, String)> = Vec::new();
            let mut i: usize = 0;
            while i < old_rules.len()
                invariant
                    i <= old_rules.len(),
                    orig == rules_view(old_rules@),
                    rules_view(rules@) == rewired_rules(orig.take(i as int), from_id@, to_id@),
                    strings_view(changed@) == rules_pointing_at(orig.take(i as int), from_id@),
                decreases old_rules.len() - i,
            {
                let data_type = owned(old_rules[i].0.as_str());
                let address = owned(old_rules[i].1.as_str());
                proof {
                    assert(orig.take(i + 1).drop_last() =~= orig.take(i as int));
                    assert(orig.take(i + 1).last() == (data_type@, address@));
                }
                let ghost before_rules = rules@;
                let ghost before_changed = changed@;
                if same_text(address.as_str(), from_id) {
                    changed.push(owned(data_type.as_str()));
                    rules.push((data_type, owned(to_id)));
                    proof {
                        assert(strings_view(changed@) =~= strings_view(before_changed).push(
                            orig[i as int].0,
                        ));
                    }
                } else {
                    rules.push((data_type, address));
                }
                proof {
                    assert(rewired_rules(orig.take(i + 1), from_id@, to_id@) =~= rewired_rules(
                        orig.take(i as int),
                        from_id@,
                        to_id@,
                    ).push(rules_view(rules@).last()));
                    assert(rules_view(rules@) =~= rules_view(before_rules).push(
                        rules_view(rules@).last(),
                    ));
                }
                i = i + 1;
            }
            proof {
                assert(orig.take(old_rules.len() as int) =~= orig);
            }
            manifest.routing = Some(RoutingConfig { rules });
        },
    }
    changed
}

/// Law: once the rules are rewired, none of them points at the old id
/// (when it differs from the new one), a rule that pointed elsewhere is
/// untouched, and exactly the reported rules were changed.
pub proof fn law_rewire_leaves_no_rule_at_old_id(
    rules: Seq<(Seq<char>, Seq<char>)>,
    from: Seq<char>,
    to: Seq<char>,
)
    requires
        from != to,
    ensures
        forall|k: int|
            0 <= k < rewired_rules(rules, from, to).len() ==> #[trigger] rewired_rules(
                rules,
                from,
                to,
            )[k].1 != from,
        forall|k: int|
            0 <= k < rules.len() && rules[k].1 != from ==> #[trigger] rewired_rules(
                rules,
                from,
                to,
            )[k] == rules[k],
        forall|k: int|
            0 <= k < rules.len() && rules[k].1 == from ==> #[trigger] rewired_rules(
                rules,
                from,
                to,
            )[k] == (rules[k].0, to),
        rewired_rules(rules, from, to).len() == rules.len(),
{
}

/// What the caller does on disk for a planned move.
pub enum MoveStep {
    /// Nothing: a dry run, or a Compare against an existing destination.
    Nothing,
    /// Move the source's content into the existing destination directory
    /// (everything but its nest file), writing `rewrite` as the
    /// destination's nest file when present, then remove the source.
    Merge { rewrite: Option<Manifest> },
    /// Rename the source directory to `new_path`, write `manifest` as its
    /// nest file, then rewire [routing] rules elsewhere in the vault.
    Move { manifest: Manifest },
}

/// The outcome of planning a move: the report, and the disk work owed.
pub struct MovePlan {
    pub report: MoveBranchReport,
    pub step: MoveStep,
}

/// The manifest `path` for a directory: its path relative to the vault
/// root, with '/' separators.
pub open spec fn relative_path_of(dir: Seq<char>, vault_root: Seq<char>) -> Option<Seq<char>> {
    match stripped_path(dir, vault_root) {
        Some(p) => Some(forward_slashes(p)),
        None => None,
    }
}

/// The manifest `path` for `new_dir`: relative to `vault_root`, with '/'
/// separators; an error when `new_dir` is not under the vault root.
pub fn relative_manifest_path(new_dir: &str, vault_root: &str) -> (r: Result<Option<String>, MoveError>)
    ensures
        r matches Ok(p) ==> p matches Some(s) && relative_path_of(new_dir@, vault_root@) == Some(s@),
        r matches Err(e) ==> e == MoveError::OutsideVault && relative_path_of(new_dir@, vault_root@) is None,
{
    match strip_path_prefix(new_dir, vault_root) {
        Some(rel) => Ok(Some(to_forward_slashes(rel.as_str()))),
        None => Err(MoveError::OutsideVault),
    }
}

/// The folder a renamed Nest gets when no Nest has the new id yet:
/// `{to_id}_{slug of its name}`.
pub open spec fn fresh_folder(to_id: Seq<char>, name: Seq<char>) -> Seq<char> {
    to_id + seq!['_'] + slug_of(name)
}

/// The source Nest as the vault walk found it.
pub struct FoundNest {
    /// The directory holding its nest file.
    pub dir: String,
    /// The directory above that.
    pub parent_dir: String,
    pub manifest: Manifest,
}

/// The destination Nest, when the vault already holds one with the new id.
pub struct ExistingNest {
    pub dir: String,
    pub manifest: Manifest,
}

/// The report a plan starts from.
pub open spec fn base_report(
    r: MoveBranchReport,
    from_id: Seq<char>,
    to_id: Seq<char>,
    old_dir: Seq<char>,
    new_dir: Seq<char>,
    dry_run: bool,
) -> bool {
    &&& r.from_id@ == from_id
    &&& r.to_id@ == to_id
    &&& r.old_path@ == old_dir
    &&& r.new_path@ == new_dir
    &&& r.rewired_routing_rules@.len() == 0
    &&& strings_view(r.hardcoded_warnings@) == warnings_for(from_id, hardcoded_addresses())
    &&& r.dry_run == dry_run
}

/// `m` re-addressed to `to_id`, living at `path`; every other field kept.
pub open spec fn readdressed(m: Manifest, old: Manifest, to_id: Seq<char>, path: Seq<char>) -> bool {
    &&& m.id@ == to_id
    &&& m.path matches Some(p) && p@ == path
    &&& m.name == old.name
    &&& m.kind == old.kind
    &&& m.accepts == old.accepts
    &&& m.store == old.store
    &&& m.routing == old.routing
    &&& m.library == old.library
    &&& m.mailroom == old.mailroom
    &&& m.about == old.about
    &&& m.known_tags == old.known_tags
    &&& m.call_number == old.call_number
}

/// Plans renaming `from_id` to `to_id`.
///
/// `source` is the Nest whose nest file has `from_id` (`None` when the
/// vault has none); `destination` is the Nest that already has `to_id`,
/// if any. Without a destination the Nest moves to
/// `{parent}/{to_id}_{slug of its name}` and its manifest gets the new id
/// and path. With one, the differing manifest fields are reported and,
/// by strategy, nothing happens (Compare), the content merges in under
/// the destination's manifest (KeepDestination) or under the source's
/// manifest re-addressed to the destination (TakeSource). A dry run
/// reports and changes nothing. Renaming an address the code relies on
/// always adds a warning.
pub fn plan_move_branch(
    vault_root: &str,
    from_id: &str,
    to_id: &str,
    merge_strategy: MergeStrategy,
    dry_run: bool,
    source: Option<FoundNest>,
    destination: Option<ExistingNest>,
) -> (r: Result<MovePlan, MoveError>)
    ensures
        source is None ==> r == Err::<MovePlan, MoveError>(MoveError::NoSuchNest),
        source matches Some(src) ==> {
            let new_dir = match destination {
                Some(d) => d.dir@,
                None => joined(src.parent_dir@, fresh_folder(to_id@, src.manifest.name@)),
            };
            let writes = !dry_run && !(destination is Some && merge_strategy
                == MergeStrategy::Compare);
            let needs_path = writes && (destination is None || merge_strategy
                == MergeStrategy::TakeSource);
            match r {
                Err(e) => e == MoveError::OutsideVault && needs_path && relative_path_of(
                    new_dir,
                    vault_root@,
                ) is None,
                Ok(plan) => {
                    &&& base_report(plan.report, from_id@, to_id@, src.dir@, new_dir, dry_run)
                    &&& plan.report.merged_into_existing == destination is Some
                    &&& plan.report.manifest_diffs@ == match destination {
                        Some(d) => differing(src.manifest, d.manifest, compared_fields()),
                        None => seq![],
                    }
                    &&& needs_path ==> relative_path_of(new_dir, vault_root@) is Some
                    &&& match plan.step {
                        MoveStep::Nothing => !writes,
                        MoveStep::Merge { rewrite } => writes && destination is Some && match rewrite {
                            Some(m) => merge_strategy == MergeStrategy::TakeSource && readdressed(
                                m,
                                src.manifest,
                                to_id@,
                                relative_path_of(new_dir, vault_root@)->0,
                            ),
                            None => merge_strategy == MergeStrategy::KeepDestination,
                        },
                        MoveStep::Move { manifest } => writes && destination is None && readdressed(
                            manifest,
                            src.manifest,
                            to_id@,
                            relative_path_of(new_dir, vault_root@)->0,
                        ),
                    }
                },
            }
        },
{
    let src = match source {
        Some(s) => s,
        None => return Err(MoveError::NoSuchNest),
    };
    let FoundNest { dir: old_dir, parent_dir, manifest } = src;
    let (new_dir, existing) = match destination {
        Some(d) => (d.dir, Some(d.manifest)),
        None => {
            let mut folder = owned(to_id);
            push_char(&mut folder, '_');
            let slug = slugify(manifest.name.as_str());
            push_all(&mut folder, slug.as_str());
            assert(folder@ =~= fresh_folder(to_id@, manifest.name@));
            (join_path(parent_dir.as_str(), folder.as_str()), None)
        },
    };
    let destination_exists = existing.is_some();
    let diffs = match &existing {
        Some(e) => diff_manifests(&manifest, e),
        None => Vec::new(),
    };
    let report = MoveBranchReport {
        from_id: owned(from_id),
        to_id: owned(to_id),
        old_path: old_dir,
        new_path: owned(new_dir.as_str()),
        rewired_routing_rules: Vec::new(),
        hardcoded_warnings: hardcoded_warnings(from_id),
        manifest_diffs: diffs,
        merged_into_existing: destination_exists,
        dry_run,
    };
    if destination_exists && merge_strategy == MergeStrategy::Compare {
        return Ok(MovePlan { report, step: MoveStep::Nothing });
    }
    if dry_run {
        return Ok(MovePlan { report, step: MoveStep::Nothing });
    }
    if destination_exists && merge_strategy == MergeStrategy::KeepDestination {
        return Ok(MovePlan { report, step: MoveStep::Merge { rewrite: None } });
    }
    let rel = match relative_manifest_path(new_dir.as_str(), vault_root) {
        Ok(p) => p,
        Err(e) => return Err(e),
    };
    let mut m = manifest;
    m.id = owned(to_id);
    m.path = rel;
    if destination_exists {
        Ok(MovePlan { report, step: MoveStep::Merge { rewrite: Some(m) } })
    } else {
        Ok(MovePlan { report, step: MoveStep::Move { manifest: m } })
    }
}

} // verus!
