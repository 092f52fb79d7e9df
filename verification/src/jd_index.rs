// The hub's Johnny Decimal index: what lives at each address and which
// agent handles it. Read once at start-up from `{jd_root}/index.json`.
use vstd::prelude::*;

use crate::text::{has_prefix, lex_less, lex_lt, owned, push_all, same_text, starts_with};

verus! {

/// One address of the index.
#[derive(Debug, Clone)]
pub struct JdEntry {
    /// The full address, e.g. "12.34".
    pub address: String,
    pub title: String,
    pub description: Option<String>,
    /// The agent that handles items filed here.
    pub agent: Option<String>,
    pub tags: Vec<String>,
}

/// The position of the entry with this address, if any.
pub open spec fn position_of(s: Seq<JdEntry>, address: Seq<char>) -> Option<int>
    decreases s.len(),
{
    if s.len() == 0 {
        None
    } else if s[0].address@ == address {
        Some(0)
    } else {
        match position_of(s.drop_first(), address) {
            Some(i) => Some(i + 1),
            None => None,
        }
    }
}

/// The entries with `e` recorded: it replaces the entry with the same
/// address in place, or is appended.
pub open spec fn record(s: Seq<JdEntry>, e: JdEntry) -> Seq<JdEntry> {
    match position_of(s, e.address@) {
        Some(i) => s.update(i, e),
        None => s.push(e),
    }
}

/// The entries after recording each of `es` in order.
pub open spec fn record_all(s: Seq<JdEntry>, es: Seq<JdEntry>) -> Seq<JdEntry>
    decreases es.len(),
{
    if es.len() == 0 {
        s
    } else {
        record(record_all(s, es.drop_last()), es.last())
    }
}

/// The agent the index names for exactly `address`, if any.
pub open spec fn index_agent(s: Seq<JdEntry>, address: Seq<char>) -> Option<Seq<char>> {
    match position_of(s, address) {
        Some(i) => match s[i].agent {
            Some(a) => Some(a@),
            None => None,
        },
        None => None,
    }
}

/// The entries whose address starts with `prefix`, in index order.
pub open spec fn under(s: Seq<JdEntry>, prefix: Seq<char>) -> Seq<JdEntry>
    decreases s.len(),
{
    if s.len() == 0 {
        s
    } else if has_prefix(s.last().address@, prefix) {
        under(s.drop_last(), prefix).push(s.last())
    } else {
        under(s.drop_last(), prefix)
    }
}

/// No two entries share an address.
pub open spec fn addresses_distinct(s: Seq<JdEntry>) -> bool {
    forall|i: int, j: int| 0 <= i < j < s.len() ==> #[trigger] s[i].address@ != #[trigger] s[j].address@
}

/// The index: at most one entry per address (`wf`).
#[derive(Debug, Clone)]
pub struct JohnnyDecimalIndex {
    pub entries: Vec<JdEntry>,
}

impl JohnnyDecimalIndex {
    /// Every address occurs at most once.
    pub open spec fn wf(&self) -> bool {
        addresses_distinct(self.entries@)
    }
}

proof fn lemma_record_distinct(s: Seq<JdEntry>, e: JdEntry)
    requires
        addresses_distinct(s),
    ensures
        addresses_distinct(record(s, e)),
{
    lemma_position_of(s, e.address@);
    let r = record(s, e);
    match position_of(s, e.address@) {
        Some(p) => {
            assert forall|i: int, j: int| 0 <= i < j < r.len() implies #[trigger] r[i].address@
                != #[trigger] r[j].address@ by {
                if i == p {
                    assert(s[j].address@ != s[p].address@);
                } else if j == p {
                    assert(s[i].address@ != s[p].address@);
                } else {
                    assert(s[i].address@ != s[j].address@);
                }
            }
        },
        None => {
            assert forall|i: int, j: int| 0 <= i < j < r.len() implies #[trigger] r[i].address@
                != #[trigger] r[j].address@ by {
                if j == s.len() {
                    assert(r[i] == s[i]);
                } else {
                    assert(s[i].address@ != s[j].address@);
                }
            }
        },
    }
}

proof fn lemma_record_all_distinct(s: Seq<JdEntry>, es: Seq<JdEntry>)
    requires
        addresses_distinct(s),
    ensures
        addresses_distinct(record_all(s, es)),
    decreases es.len(),
{
    if es.len() > 0 {
        lemma_record_all_distinct(s, es.drop_last());
        lemma_record_distinct(record_all(s, es.drop_last()), es.last());
    }
}

proof fn lemma_position_of(s: Seq<JdEntry>, address: Seq<char>)
    ensures
        position_of(s, address) matches Some(i) ==> 0 <= i < s.len() && s[i].address@ == address,
        position_of(s, address) is None ==> forall|k: int| 0 <= k < s.len() ==> #[trigger] s[k].address@ != address,
    decreases s.len(),
{
    if s.len() > 0 {
        lemma_position_of(s.drop_first(), address);
        assert forall|k: int| 0 < k < s.len() implies #[trigger] s[k] == s.drop_first()[k - 1] by {}
    }
}

/// The position of the entry with this address.
fn find(entries: &Vec<JdEntry>, address: &str) -> (r: Option<usize>)
    ensures
        match r {
            Some(i) => position_of(entries@, address@) == Some(i as int) && i < entries@.len(),
            None => position_of(entries@, address@) is None,
        },
{
    let mut i: usize = 0;
    proof {
        assert(entries@.skip(0) =~= entries@);
    }
    while i < entries.len()
        invariant
            i <= entries@.len(),
            match position_of(entries@, address@) {
                Some(p) => position_of(entries@.skip(i as int), address@) == Some(p - i),
                None => position_of(entries@.skip(i as int), address@) is None,
            },
        decreases entries.len() - i,
    {
        proof {
            assert(entries@.skip(i as int)[0] == entries@[i as int]);
            assert(entries@.skip(i as int).drop_first() =~= entries@.skip(i + 1));
        }
        if same_text(entries[i].address.as_str(), address) {
            return Some(i);
        }
        i = i + 1;
    }
    None
}

impl JohnnyDecimalIndex {
    /// An index with no entries.
    pub fn empty() -> (r: JohnnyDecimalIndex)
        ensures
            r.entries@.len() == 0,
            r.wf(),
    {
        JohnnyDecimalIndex { entries: Vec::new() }
    }

    /// The index of `entries` read in order; a later entry for an address
    /// already seen replaces the earlier one.
    pub fn from_entries(entries: Vec<JdEntry>) -> (r: JohnnyDecimalIndex)
        ensures
            r.entries@ == record_all(Seq::empty(), entries@),
            r.wf(),
    {
        proof {
            lemma_record_all_distinct(Seq::empty(), entries@);
        }
        let mut out: Vec<JdEntry> = Vec::new();
        let ghost all = entries@;
        for e in it: entries
            invariant
                all == it.seq(),
                out@ == record_all(Seq::empty(), all.take(it.index() as int)),
        {
            proof {
                assert(all.take(it.index() + 1).drop_last() =~= all.take(it.index() as int));
            }
            match find(&out, e.address.as_str()) {
                Some(i) => {
                    out.set(i, e);
                },
                None => {
                    out.push(e);
                },
            }
        }
        proof {
            assert(all.take(all.len() as int) =~= all);
        }
        JohnnyDecimalIndex { entries: out }
    }

    /// Every entry at or under `address` ("12" gives every "12.*").
    pub fn lookup(&self, address: &str) -> (r: Vec<&JdEntry>)
        ensures
            r@.map_values(|e: &JdEntry| *e) == under(self.entries@, address@),
    {
        let mut out: Vec<&JdEntry> = Vec::new();
        let mut i: usize = 0;
        while i < self.entries.len()
            invariant
                i <= self.entries@.len(),
                out@.map_values(|e: &JdEntry| *e) == under(self.entries@.take(i as int), address@),
            decreases self.entries.len() - i,
        {
            proof {
                assert(self.entries@.take(i + 1).drop_last() =~= self.entries@.take(i as int));
            }
            let e = &self.entries[i];
            if starts_with(e.address.as_str(), address) {
                let ghost before = out@;
                out.push(e);
                proof {
                    assert(out@.map_values(|e: &JdEntry| *e) =~= before.map_values(|e: &JdEntry| *e).push(*e));
                }
            }
            i = i + 1;
        }
        proof {
            assert(self.entries@.take(self.entries@.len() as int) =~= self.entries@);
        }
        out
    }

    /// The agent that handles items at exactly `address`, if the index
    /// has that address and names one.
    pub fn agent_for(&self, address: &str) -> (r: Option<&str>)
        ensures
            match index_agent(self.entries@, address@) {
                Some(a) => r matches Some(x) && x@ == a,
                None => r is None,
            },
    {
        proof {
            lemma_position_of(self.entries@, address@);
        }
        match find(&self.entries, address) {
            Some(i) => match &self.entries[i].agent {
                Some(a) => Some(a.as_str()),
                None => None,
            },
            None => None,
        }
    }
}

/// `{root}/index.json`, where the index is read from.
pub fn index_path(root: &str) -> (r: String)
    ensures
        r@ == root@ + "/index.json"@,
{
    let mut r = owned(root);
    push_all(&mut r, "/index.json");
    r
}

/// Law: recording an entry makes it the one found at its address, and
/// leaves every other address as it was.
pub proof fn law_record_then_find(s: Seq<JdEntry>, e: JdEntry, other: Seq<char>)
    ensures
        position_of(record(s, e), e.address@) matches Some(i) && record(s, e)[i] == e,
        other != e.address@ ==> match position_of(s, other) {
            Some(i) => position_of(record(s, e), other) == Some(i) && record(s, e)[i] == s[i],
            None => position_of(record(s, e), other) is None,
        },
{
    lemma_position_of(s, e.address@);
    lemma_record(s, e, other);
}

proof fn lemma_record(s: Seq<JdEntry>, e: JdEntry, other: Seq<char>)
    ensures
        position_of(record(s, e), e.address@) matches Some(i) && record(s, e)[i] == e,
        other != e.address@ ==> match position_of(s, other) {
            Some(i) => position_of(record(s, e), other) == Some(i) && record(s, e)[i] == s[i],
            None => position_of(record(s, e), other) is None,
        },
    decreases s.len(),
{
    let r = record(s, e);
    let a = e.address@;
    if s.len() == 0 {
        assert(r =~= seq![e]);
        assert(r.drop_first().len() == 0);
        assert(position_of(r.drop_first(), other) is None);
        assert(position_of(r, a) == Some(0int));
    } else if s[0].address@ == a {
        assert(position_of(s, a) == Some(0int));
        assert(r == s.update(0, e));
        assert(r.drop_first() =~= s.drop_first());
        assert(position_of(r, a) == Some(0int));
        if other != a {
            assert(r[0].address@ != other);
            assert(s[0].address@ != other);
            match position_of(s.drop_first(), other) {
                Some(j) => {
                    lemma_position_of(s.drop_first(), other);
                    assert(r[j + 1] == r.drop_first()[j]);
                    assert(s[j + 1] == s.drop_first()[j]);
                },
                None => {},
            }
        }
    } else {
        let t = s.drop_first();
        lemma_record(t, e, other);
        lemma_position_of(t, a);
        let rt = record(t, e);
        match position_of(t, a) {
            Some(i) => {
                assert(position_of(s, a) == Some(i + 1));
                assert(r =~= seq![s[0]] + rt);
            },
            None => {
                assert(position_of(s, a) is None);
                assert(r =~= seq![s[0]] + rt);
            },
        }
        assert(r.drop_first() =~= rt);
        assert(r[0] == s[0]);
        lemma_position_of(rt, a);
        lemma_position_of(t, other);
        let j = position_of(rt, a).unwrap();
        assert(position_of(r, a) == Some(j + 1));
        assert(r[j + 1] == rt[j]);
        if other != a {
            if s[0].address@ != other {
                match position_of(t, other) {
                    Some(k) => {
                        lemma_position_of(rt, other);
                        assert(rt.len() == t.len() || rt.len() == t.len() + 1);
                        assert(r[k + 1] == rt[k]);
                        assert(s[k + 1] == t[k]);
                    },
                    None => {},
                }
            }
        }
    }
}

} // verus!
