// The Registry: every Nest of the vault, keyed by JD address.
//
// Built once from the manifests found in the vault (a later manifest
// with an id already seen replaces the earlier one), queried by exact
// address, by area prefix, or in full in address order; a freshly minted
// Nest is inserted at run time.
use vstd::prelude::*;

use crate::manifest::Manifest;
use crate::paths::{file_name, file_name_of};
use crate::text::{
    has_prefix, lemma_lex_asymmetric, lemma_lex_irreflexive, lemma_lex_total,
    lemma_lex_transitive, lex_less, lex_lt, same_text, starts_with,
};

verus! {

/// Whether no two manifests share an id.
pub open spec fn ids_distinct(s: Seq<Manifest>) -> bool {
    forall|i: int, j: int| 0 <= i < s.len() && 0 <= j < s.len() && i != j ==> #[trigger] s[i].id@
        != #[trigger] s[j].id@
}

/// The position of the manifest with this id, if any (the first one).
pub open spec fn index_of_id(s: Seq<Manifest>, id: Seq<char>) -> Option<int>
    decreases s.len(),
{
    if s.len() == 0 {
        None
    } else {
        match index_of_id(s.drop_last(), id) {
            Some(i) => Some(i),
            None => if s.last().id@ == id {
                Some(s.len() - 1)
            } else {
                None
            },
        }
    }
}

/// The manifest with this id, if any.
pub open spec fn lookup(s: Seq<Manifest>, id: Seq<char>) -> Option<Manifest> {
    match index_of_id(s, id) {
        Some(i) => Some(s[i]),
        None => None,
    }
}

/// `s` with `m` registered: it replaces the manifest with the same id in
/// place, or is appended when its id is new.
pub open spec fn insert_into(s: Seq<Manifest>, m: Manifest) -> Seq<Manifest> {
    match index_of_id(s, m.id@) {
        Some(i) => s.update(i, m),
        None => s.push(m),
    }
}

/// The registry built by registering each of `ms` in order.
pub open spec fn absorb(s: Seq<Manifest>, ms: Seq<Manifest>) -> Seq<Manifest>
    decreases ms.len(),
{
    if ms.len() == 0 {
        s
    } else {
        insert_into(absorb(s, ms.drop_last()), ms.last())
    }
}

/// The manifests whose id starts with `prefix`, in registry order.
pub open spec fn area_of(s: Seq<Manifest>, prefix: Seq<char>) -> Seq<Manifest>
    decreases s.len(),
{
    if s.len() == 0 {
        s
    } else if has_prefix(s.last().id@, prefix) {
        area_of(s.drop_last(), prefix).push(s.last())
    } else {
        area_of(s.drop_last(), prefix)
    }
}

proof fn lemma_sorted_insert(s: Seq<Manifest>, pos: int, m: Manifest)
    requires
        sorted_by_id(s),
        0 <= pos <= s.len(),
        forall|k: int| 0 <= k < pos ==> lex_lt(#[trigger] s[k].id@, m.id@),
        forall|k: int| pos <= k < s.len() ==> lex_lt(m.id@, #[trigger] s[k].id@),
    ensures
        sorted_by_id(s.insert(pos, m)),
{
    let t = s.insert(pos, m);
    assert forall|i: int, j: int| 0 <= i < j < t.len() implies lex_lt(
        #[trigger] t[i].id@,
        #[trigger] t[j].id@,
    ) by {
        if j < pos {
            assert(t[i] == s[i] && t[j] == s[j]);
        } else if j == pos {
            assert(t[i] == s[i]);
        } else if i < pos {
            assert(t[i] == s[i] && t[j] == s[j - 1]);
            lemma_lex_transitive(s[i].id@, m.id@, s[j - 1].id@);
        } else if i == pos {
            assert(t[j] == s[j - 1]);
        } else {
            assert(t[i] == s[i - 1] && t[j] == s[j - 1]);
        }
    }
}

/// Whether ids strictly increase along `s`.
pub open spec fn sorted_by_id(s: Seq<Manifest>) -> bool {
    forall|i: int, j: int| 0 <= i < j < s.len() ==> lex_lt(#[trigger] s[i].id@, #[trigger] s[j].id@)
}

proof fn lemma_index_of_id(s: Seq<Manifest>, id: Seq<char>)
    ensures
        index_of_id(s, id) matches Some(i) ==> 0 <= i < s.len() && s[i].id@ == id && forall|
            k: int,
        | 0 <= k < i ==> #[trigger] s[k].id@ != id,
        index_of_id(s, id) is None ==> forall|k: int| 0 <= k < s.len() ==> #[trigger] s[k].id@
            != id,
    decreases s.len(),
{
    if s.len() > 0 {
        lemma_index_of_id(s.drop_last(), id);
        assert forall|k: int| 0 <= k < s.len() - 1 implies #[trigger] s[k].id@ == s.drop_last()[k].id@ by {}
    }
}

/// In a registry without repeated ids, the manifest with a given id sits
/// at exactly one place.
proof fn lemma_index_of_id_at(s: Seq<Manifest>, k: int)
    requires
        ids_distinct(s),
        0 <= k < s.len(),
    ensures
        index_of_id(s, s[k].id@) == Some(k),
{
    lemma_index_of_id(s, s[k].id@);
    if let Some(i) = index_of_id(s, s[k].id@) {
        if i != k {
            assert(s[i].id@ != s[k].id@);
        }
    }
}

proof fn lemma_insert_into(s: Seq<Manifest>, m: Manifest)
    requires
        ids_distinct(s),
    ensures
        ids_distinct(insert_into(s, m)),
        lookup(insert_into(s, m), m.id@) == Some(m),
        forall|id: Seq<char>| id != m.id@ ==> lookup(insert_into(s, m), id) == lookup(s, id),
{
    let r = insert_into(s, m);
    lemma_index_of_id(s, m.id@);
    assert(ids_distinct(r)) by {
        assert forall|i: int, j: int|
            0 <= i < r.len() && 0 <= j < r.len() && i != j implies #[trigger] r[i].id@
            != #[trigger] r[j].id@ by {
            if index_of_id(s, m.id@) is None {
                if i < s.len() && j < s.len() {
                    assert(r[i] == s[i] && r[j] == s[j]);
                }
            }
        }
    }
    assert forall|id: Seq<char>| id != m.id@ implies lookup(r, id) == lookup(s, id) by {
        lemma_index_of_id(s, id);
        lemma_index_of_id(r, id);
        match index_of_id(s, id) {
            Some(i) => {
                assert(r[i] == s[i]);
                lemma_index_of_id_at(r, i);
            },
            None => {
                assert forall|k: int| 0 <= k < r.len() implies #[trigger] r[k].id@ != id by {
                    if k < s.len() && r[k] == s[k] {
                        assert(s[k].id@ != id);
                    }
                }
            },
        }
    }
    match index_of_id(s, m.id@) {
        Some(i) => {
            lemma_index_of_id_at(r, i);
        },
        None => {
            lemma_index_of_id_at(r, s.len() as int);
        },
    }
}

/// Law: after a manifest is registered, looking its id up gives exactly
/// that manifest, and every other id still gives what it gave before.
pub proof fn law_insert_then_lookup(s: Seq<Manifest>, m: Manifest, other: Seq<char>)
    requires
        ids_distinct(s),
    ensures
        lookup(insert_into(s, m), m.id@) == Some(m),
        other != m.id@ ==> lookup(insert_into(s, m), other) == lookup(s, other),
        ids_distinct(insert_into(s, m)),
{
    lemma_insert_into(s, m);
}

/// The last of `ms` with this id, if any.
pub open spec fn last_with_id(ms: Seq<Manifest>, id: Seq<char>) -> Option<Manifest>
    decreases ms.len(),
{
    if ms.len() == 0 {
        None
    } else if ms.last().id@ == id {
        Some(ms.last())
    } else {
        last_with_id(ms.drop_last(), id)
    }
}

/// Law: when two manifests claim the same address, the one registered
/// last wins; an address no manifest claims keeps its earlier entry.
pub proof fn law_last_one_wins(s: Seq<Manifest>, ms: Seq<Manifest>, id: Seq<char>)
    requires
        ids_distinct(s),
    ensures
        ids_distinct(absorb(s, ms)),
        lookup(absorb(s, ms), id) == match last_with_id(ms, id) {
            Some(m) => Some(m),
            None => lookup(s, id),
        },
    decreases ms.len(),
{
    if ms.len() > 0 {
        law_last_one_wins(s, ms.drop_last(), id);
        lemma_insert_into(absorb(s, ms.drop_last()), ms.last());
    }
}

/// The first error among parsed manifests, if any.
pub open spec fn first_error(s: Seq<Result<Manifest, String>>) -> Option<String>
    decreases s.len(),
{
    if s.len() == 0 {
        None
    } else {
        match first_error(s.drop_last()) {
            Some(e) => Some(e),
            None => match s.last() {
                Err(e) => Some(e),
                Ok(_) => None,
            },
        }
    }
}

/// The manifests that parsed, in order.
pub open spec fn parsed_ok(s: Seq<Result<Manifest, String>>) -> Seq<Manifest>
    decreases s.len(),
{
    if s.len() == 0 {
        Seq::empty()
    } else {
        match s.last() {
            Ok(m) => parsed_ok(s.drop_last()).push(m),
            Err(_) => parsed_ok(s.drop_last()),
        }
    }
}

proof fn lemma_first_error_prefix(s: Seq<Result<Manifest, String>>, k: int)
    requires
        0 <= k <= s.len(),
        first_error(s.take(k)) is Some,
    ensures
        first_error(s) == first_error(s.take(k)),
    decreases s.len(),
{
    if k == s.len() {
        assert(s.take(k) =~= s);
    } else {
        assert(s.drop_last().take(k) =~= s.take(k));
        lemma_first_error_prefix(s.drop_last(), k);
    }
}

/// The Registry: every known Nest, at most one per JD address.
#[derive(Debug, Clone)]
pub struct Registry {
    entries: Vec<Manifest>,
    /// How many Nests the registry holds.
    pub node_count: usize,
}

impl View for Registry {
    type V = Seq<Manifest>;

    closed spec fn view(&self) -> Seq<Manifest> {
        self.entries@
    }
}

impl Registry {
    /// The recorded Nest count (`node_count`).
    pub closed spec fn node_total(&self) -> usize {
        self.node_count
    }

    /// The registry's invariant: no address twice, and `node_count` counts
    /// the Nests.
    pub closed spec fn wf(&self) -> bool {
        &&& ids_distinct(self.entries@)
        &&& self.node_count == self.entries@.len()
    }

    /// A well-formed registry holds each address at most once, and its
    /// count is the number of Nests it holds.
    pub proof fn lemma_wf_ids_distinct(&self)
        requires
            self.wf(),
        ensures
            ids_distinct(self@),
            self.node_total() == self@.len(),
    {
    }

    /// A registry with no Nests, for a vault that does not exist yet.
    pub fn empty() -> (r: Registry)
        ensures
            r.wf(),
            r@ == Seq::<Manifest>::empty(),
            r.node_total() == 0,
    {
        Registry { entries: Vec::new(), node_count: 0 }
    }

    /// Position of the Nest with this address.
    fn position(&self, id: &str) -> (r: Option<usize>)
        requires
            self.wf(),
        ensures
            r matches Some(i) ==> index_of_id(self@, id@) == Some(i as int) && i < self@.len(),
            r is None ==> index_of_id(self@, id@) is None,
    {
        let mut i: usize = 0;
        while i < self.entries.len()
            invariant
                ids_distinct(self.entries@),
                i <= self.entries.len(),
                forall|k: int| 0 <= k < i ==> #[trigger] self.entries@[k].id@ != id@,
            decreases self.entries.len() - i,
        {
            if same_text(self.entries[i].id.as_str(), id) {
                proof {
                    lemma_index_of_id(self.entries@, id@);
                    lemma_index_of_id_at(self.entries@, i as int);
                }
                return Some(i);
            }
            i = i + 1;
        }
        proof {
            lemma_index_of_id(self.entries@, id@);
            if let Some(j) = index_of_id(self.entries@, id@) {
                assert(self.entries@[j].id@ == id@);
            }
        }
        None
    }

    /// Registers a Nest: it replaces the Nest with the same address, or is
    /// added when the address is new.
    pub fn insert(&mut self, m: Manifest)
        requires
            old(self).wf(),
        ensures
            final(self).wf(),
            final(self)@ == insert_into(old(self)@, m),
            final(self).node_total() == final(self)@.len(),
    {
        proof {
            lemma_insert_into(self.entries@, m);
        }
        match self.position(m.id.as_str()) {
            Some(i) => {
                self.entries.set(i, m);
            },
            None => {
                self.entries.push(m);
                self.node_count = self.entries.len();
            },
        }
    }

    /// The registry holding `manifests`, registered in order, so a later
    /// manifest with an address already seen replaces the earlier one.
    pub fn from_manifests(manifests: Vec<Manifest>) -> (r: Registry)
        ensures
            r.wf(),
            r@ == absorb(Seq::empty(), manifests@),
            r.node_total() == r@.len(),
    {
        let mut reg = Registry::empty();
        let ghost all = manifests@;
        for m in it: manifests
            invariant
                reg.wf(),
                all == it.seq(),
                reg@ == absorb(Seq::empty(), all.take(it.index() as int)),
        {
            proof {
                assert(all.take(it.index() + 1).drop_last() =~= all.take(it.index() as int));
            }
            reg.insert(m);
        }
        proof {
            assert(all.take(all.len() as int) =~= all);
        }
        reg
    }

    /// The registry of a vault's manifests as they were read and parsed,
    /// in order: the first failure (an unreadable or unparseable manifest)
    /// fails the whole load; otherwise every manifest is registered in
    /// order, as `from_manifests` does.
    pub fn from_parsed(parsed: Vec<Result<Manifest, String>>) -> (r: Result<Registry, String>)
        ensures
            match first_error(parsed@) {
                Some(e) => r == Err::<Registry, String>(e),
                None => r matches Ok(reg) && reg.wf() && reg@ == absorb(Seq::empty(), parsed_ok(parsed@))
                    && reg.node_total() == reg@.len(),
            },
    {
        let mut manifests: Vec<Manifest> = Vec::new();
        let ghost all = parsed@;
        for p in it: parsed
            invariant
                all == it.seq(),
                first_error(all.take(it.index() as int)) is None,
                manifests@ == parsed_ok(all.take(it.index() as int)),
        {
            proof {
                assert(all.take(it.index() + 1).drop_last() =~= all.take(it.index() as int));
                assert(all.take(it.index() + 1).last() == p);
            }
            match p {
                Ok(m) => {
                    manifests.push(m);
                },
                Err(e) => {
                    proof {
                        lemma_first_error_prefix(all, it.index() + 1);
                    }
                    return Err(e);
                },
            }
        }
        proof {
            assert(all.take(all.len() as int) =~= all);
        }
        Ok(Registry::from_manifests(manifests))
    }

    /// The Nest at exactly this address.
    pub fn get(&self, id: &str) -> (r: Option<&Manifest>)
        requires
            self.wf(),
        ensures
            r matches Some(m) ==> lookup(self@, id@) == Some(*m),
            r is None ==> lookup(self@, id@) is None,
    {
        match self.position(id) {
            Some(i) => Some(&self.entries[i]),
            None => None,
        }
    }

    /// Every Nest whose address starts with `prefix` (e.g. "35" gives
    /// everything under 35), in registry order.
    pub fn get_area(&self, prefix: &str) -> (r: Vec<&Manifest>)
        ensures
            r@.map_values(|m: &Manifest| *m) == area_of(self@, prefix@),
    {
        let mut out: Vec<&Manifest> = Vec::new();
        let mut i: usize = 0;
        while i < self.entries.len()
            invariant
                i <= self.entries.len(),
                out@.map_values(|m: &Manifest| *m) == area_of(self.entries@.take(i as int), prefix@),
            decreases self.entries.len() - i,
        {
            let m = &self.entries[i];
            let ghost before = out@;
            proof {
                assert(self.entries@.take(i + 1).drop_last() =~= self.entries@.take(i as int));
            }
            if starts_with(m.id.as_str(), prefix) {
                out.push(m);
                proof {
                    assert(out@.map_values(|m: &Manifest| *m) =~= before.map_values(
                        |m: &Manifest| *m,
                    ).push(*m));
                }
            }
            i = i + 1;
        }
        proof {
            assert(self.entries@.take(self.entries.len() as int) =~= self.entries@);
        }
        out
    }

    /// Every Nest, in address order.
    pub fn all(&self) -> (r: Vec<&Manifest>)
        requires
            self.wf(),
        ensures
            r@.len() == self@.len(),
            sorted_by_id(r@.map_values(|m: &Manifest| *m)),
            forall|k: int| 0 <= k < self@.len() ==> r@.map_values(|m: &Manifest| *m).contains(
                #[trigger] self@[k],
            ),
            forall|k: int| 0 <= k < r@.len() ==> self@.contains(#[trigger] *r@[k]),
    {
        let mut out: Vec<&Manifest> = Vec::new();
        let mut i: usize = 0;
        while i < self.entries.len()
            invariant
                self.wf(),
                i <= self.entries.len(),
                out@.len() == i,
                sorted_by_id(out@.map_values(|m: &Manifest| *m)),
                forall|k: int| 0 <= k < i ==> out@.map_values(|m: &Manifest| *m).contains(
                    #[trigger] self.entries@[k],
                ),
                forall|k: int| 0 <= k < out@.len() ==> self.entries@.take(i as int).contains(
                    #[trigger] *out@[k],
                ),
            decreases self.entries.len() - i,
        {
            let m = &self.entries[i];
            let mut pos: usize = 0;
            while pos < out.len() && lex_less(out[pos].id.as_str(), m.id.as_str())
                invariant
                    pos <= out.len(),
                    forall|k: int| 0 <= k < pos ==> lex_lt(#[trigger] out@[k].id@, m.id@),
                decreases out.len() - pos,
            {
                pos = pos + 1;
            }
            let ghost before = out@.map_values(|m: &Manifest| *m);
            proof {
                assert forall|k: int| pos <= k < before.len() implies lex_lt(
                    m.id@,
                    #[trigger] before[k].id@,
                ) by {
                    let j = choose|j: int| 0 <= j < i && self.entries@.take(i as int)[j] == before[pos as int];
                    assert(self.entries@[j] == before[pos as int]);
                    assert(self.entries@[j].id@ != self.entries@[i as int].id@);
                    lemma_lex_total(before[pos as int].id@, m.id@);
                    if k > pos {
                        lemma_lex_transitive(m.id@, before[pos as int].id@, before[k].id@);
                    }
                }
                lemma_sorted_insert(before, pos as int, *m);
            }
            out.insert(pos, m);
            proof {
                let now = out@.map_values(|m: &Manifest| *m);
                assert(now =~= before.insert(pos as int, *m));
                assert forall|k: int| 0 <= k < i + 1 implies now.contains(
                    #[trigger] self.entries@[k],
                ) by {
                    if k < i {
                        let j = choose|j: int| 0 <= j < before.len() && before[j] == self.entries@[k];
                        if j < pos {
                            assert(now[j] == before[j]);
                        } else {
                            assert(now[j + 1] == before[j]);
                        }
                    } else {
                        assert(now[pos as int] == *m);
                    }
                }
                assert forall|k: int| 0 <= k < out@.len() implies self.entries@.take(i + 1).contains(
                    #[trigger] *out@[k],
                ) by {
                    assert(*out@[k] == now[k]);
                    if k < pos {
                        assert(now[k] == before[k]);
                        let j = choose|j: int| 0 <= j < i && self.entries@.take(i as int)[j] == before[k];
                        assert(self.entries@.take(i + 1)[j] == before[k]);
                    } else if k == pos {
                        assert(self.entries@.take(i + 1)[i as int] == *m);
                    } else {
                        assert(now[k] == before[k - 1]);
                        let j = choose|j: int| 0 <= j < i && self.entries@.take(i as int)[j] == before[k - 1];
                        assert(self.entries@.take(i + 1)[j] == before[k - 1]);
                    }
                }
            }
            i = i + 1;
        }
        proof {
            assert(self.entries@.take(self.entries.len() as int) =~= self.entries@);
        }
        out
    }
}

/// Whether a path names a manifest file: its file name is `.mailroom`.
pub fn is_manifest_file(path: &str) -> (r: bool)
    ensures
        r == (file_name_of(path@) == Some(".mailroom"@)),
{
    match file_name(path) {
        Some(n) => same_text(n.as_str(), ".mailroom"),
        None => false,
    }
}

} // verus!
