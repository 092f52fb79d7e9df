// GET /envelopes: which sidecars are listed, in what order, how many.
//
// The sidecars (`*.meta.json`) are the index. A listing keeps those whose
// address matches the filter, puts pinned entries first, then starred
// ones, then the rest newest first (a stable sort), and keeps the first
// `limit` (50 unless asked).
use vstd::prelude::*;

use crate::envelope::earlier;
use crate::paths::{file_name, file_name_of};
use crate::store::EntryMeta;
use crate::text::{ends_with, has_prefix, has_suffix, starts_with};

verus! {

/// The sidecar suffix.
pub open spec fn meta_suffix() -> Seq<char> {
    seq!['.', 'm', 'e', 't', 'a', '.', 'j', 's', 'o', 'n']
}

/// Whether a path names a sidecar: its file name ends in `.meta.json`.
pub open spec fn names_sidecar(path: Seq<char>) -> bool {
    file_name_of(path) matches Some(n) && has_suffix(n, meta_suffix())
}

/// Whether this path is a `.meta.json` sidecar.
pub fn is_meta_file(path: &str) -> (r: bool)
    ensures
        r == names_sidecar(path@),
{
    proof {
        reveal_strlit(".meta.json");
        assert(".meta.json"@ =~= meta_suffix());
    }
    match file_name(path) {
        Some(n) => ends_with(n.as_str(), ".meta.json"),
        None => false,
    }
}

/// Whether an entry passes the address filter: no filter passes
/// everything; otherwise its address must start with the filter ("34"
/// takes "34.2"); an entry without an address never passes.
pub open spec fn passes(m: EntryMeta, filter: Option<Seq<char>>) -> bool {
    match filter {
        None => true,
        Some(p) => m.jd_address matches Some(a) && has_prefix(a@, p),
    }
}

/// Whether this entry matches the address filter.
pub fn matches_filter(meta: &EntryMeta, filter: Option<&str>) -> (r: bool)
    ensures
        r == passes(*meta, match filter {
            Some(f) => Some(f@),
            None => None,
        }),
{
    match filter {
        None => true,
        Some(p) => match &meta.jd_address {
            Some(a) => starts_with(a.as_str(), p),
            None => false,
        },
    }
}

/// Whether `a` sorts strictly before `b`: pinned first, then starred,
/// then newer creation time first.
pub open spec fn sorts_before(a: EntryMeta, b: EntryMeta) -> bool {
    if a.pinned != b.pinned {
        a.pinned
    } else if a.starred != b.starred {
        a.starred
    } else {
        earlier(b.created_at, a.created_at)
    }
}

/// `x` inserted into `s` after every entry that does not sort after it.
pub open spec fn insert_entry(s: Seq<EntryMeta>, x: EntryMeta) -> Seq<EntryMeta>
    decreases s.len(),
{
    if s.len() == 0 {
        seq![x]
    } else if sorts_before(x, s[0]) {
        seq![x] + s
    } else {
        seq![s[0]] + insert_entry(s.drop_first(), x)
    }
}

/// The stable sort of `s` by `sorts_before`.
pub open spec fn sort_entries(s: Seq<EntryMeta>) -> Seq<EntryMeta>
    decreases s.len(),
{
    if s.len() == 0 {
        s
    } else {
        insert_entry(sort_entries(s.drop_last()), s.last())
    }
}

/// The entries of `s` that pass the filter, in order.
pub open spec fn filter_entries(s: Seq<EntryMeta>, filter: Option<Seq<char>>) -> Seq<EntryMeta>
    decreases s.len(),
{
    if s.len() == 0 {
        s
    } else if passes(s.last(), filter) {
        filter_entries(s.drop_last(), filter).push(s.last())
    } else {
        filter_entries(s.drop_last(), filter)
    }
}

/// The listing's size cap: 50 unless asked.
pub open spec fn cap(limit: Option<usize>) -> int {
    match limit {
        Some(n) => n as int,
        None => 50,
    }
}

/// What a listing returns.
pub open spec fn listing(s: Seq<EntryMeta>, filter: Option<Seq<char>>, limit: Option<usize>) -> Seq<EntryMeta> {
    let sorted = sort_entries(filter_entries(s, filter));
    if sorted.len() <= cap(limit) {
        sorted
    } else {
        sorted.take(cap(limit))
    }
}

/// The query of GET /envelopes: an address (or area prefix) filter and a
/// cap.
#[derive(Debug, Clone)]
pub struct ListParams {
    pub jd: Option<String>,
    pub limit: Option<usize>,
}

/// The answer to GET /envelopes: the listed entries and how many there
/// are.
#[derive(Debug, Clone)]
pub struct EntriesResponse {
    pub total: usize,
    pub entries: Vec<EntryMeta>,
}

/// The answer to a query over the library's entries.
pub fn list_for(entries: Vec<EntryMeta>, params: &ListParams) -> (r: EntriesResponse)
    ensures
        r.entries@ == listing(entries@, match params.jd {
            Some(f) => Some(f@),
            None => None,
        }, params.limit),
        r.total == r.entries@.len(),
{
    let filter: Option<&str> = match &params.jd {
        Some(f) => Some(f.as_str()),
        None => None,
    };
    let listed = list_entries(entries, filter, params.limit);
    EntriesResponse { total: listed.len(), entries: listed }
}

/// The first index of `s` whose entry `x` sorts before (`s.len()` if
/// none).
fn insert_position(s: &Vec<EntryMeta>, x: &EntryMeta) -> (p: usize)
    ensures
        p <= s@.len(),
        forall|k: int| 0 <= k < p ==> !sorts_before(*x, #[trigger] s@[k]),
        p < s@.len() ==> sorts_before(*x, s@[p as int]),
{
    let mut p: usize = 0;
    while p < s.len() && !entry_before(x, &s[p])
        invariant
            p <= s@.len(),
            forall|k: int| 0 <= k < p ==> !sorts_before(*x, #[trigger] s@[k]),
        decreases s.len() - p,
    {
        p = p + 1;
    }
    p
}

/// Whether `a` sorts strictly before `b`.
pub fn entry_before(a: &EntryMeta, b: &EntryMeta) -> (r: bool)
    ensures
        r == sorts_before(*a, *b),
{
    if a.pinned != b.pinned {
        a.pinned
    } else if a.starred != b.starred {
        a.starred
    } else {
        b.created_at.secs < a.created_at.secs || (b.created_at.secs == a.created_at.secs
            && b.created_at.nanos < a.created_at.nanos)
    }
}

/// Inserting at the first position whose entry sorts after `x` is
/// `insert_entry`.
proof fn lemma_insert_at(s: Seq<EntryMeta>, x: EntryMeta, p: int)
    requires
        0 <= p <= s.len(),
        forall|k: int| 0 <= k < p ==> !sorts_before(x, #[trigger] s[k]),
        p < s.len() ==> sorts_before(x, s[p]),
    ensures
        s.insert(p, x) == insert_entry(s, x),
    decreases s.len(),
{
    if s.len() == 0 {
        assert(s.insert(p, x) =~= seq![x]);
    } else if p == 0 {
        assert(s.insert(0, x) =~= seq![x] + s);
    } else {
        let t = s.drop_first();
        assert forall|k: int| 0 <= k < p - 1 implies !sorts_before(x, #[trigger] t[k]) by {
            assert(t[k] == s[k + 1]);
        }
        if p < s.len() {
            assert(t[p - 1] == s[p]);
        }
        assert(!sorts_before(x, s[0]));
        lemma_insert_at(t, x, p - 1);
        assert(s.insert(p, x) =~= seq![s[0]] + t.insert(p - 1, x));
    }
}

/// The entries that pass `filter`, sorted pinned first, then starred,
/// then newest first (stable), cut to `limit` (50 when `None`).
pub fn list_entries(entries: Vec<EntryMeta>, filter: Option<&str>, limit: Option<usize>) -> (r: Vec<
    EntryMeta,
>)
    ensures
        r@ == listing(entries@, match filter {
            Some(f) => Some(f@),
            None => None,
        }, limit),
{
    let ghost f = match filter {
        Some(f) => Some(f@),
        None => None,
    };
    let ghost all = entries@;
    let mut sorted: Vec<EntryMeta> = Vec::new();
    for e in it: entries
        invariant
            all == it.seq(),
            f == match filter {
                Some(x) => Some(x@),
                None => None::<Seq<char>>,
            },
            sorted@ == sort_entries(filter_entries(all.take(it.index() as int), f)),
    {
        proof {
            assert(all.take(it.index() + 1).drop_last() =~= all.take(it.index() as int));
            assert(all.take(it.index() + 1).last() == e);
        }
        if matches_filter(&e, filter) {
            let p = insert_position(&sorted, &e);
            proof {
                lemma_insert_at(sorted@, e, p as int);
                let prev = filter_entries(all.take(it.index() as int), f);
                assert(prev.push(e).drop_last() =~= prev);
            }
            sorted.insert(p, e);
        }
    }
    proof {
        assert(all.take(all.len() as int) =~= all);
    }
    let n: usize = match limit {
        Some(n) => n,
        None => 50,
    };
    if sorted.len() > n {
        sorted.truncate(n);
    }
    sorted
}

/// Whether no entry of `s` sorts before an entry ahead of it.
pub open spec fn in_listing_order(s: Seq<EntryMeta>) -> bool {
    forall|i: int, j: int| 0 <= i < j < s.len() ==> !sorts_before(#[trigger] s[j], #[trigger] s[i])
}

proof fn lemma_before_transitive(a: EntryMeta, b: EntryMeta, c: EntryMeta)
    requires
        sorts_before(a, b),
        sorts_before(b, c),
    ensures
        sorts_before(a, c),
{
}

proof fn lemma_before_asymmetric(a: EntryMeta, b: EntryMeta)
    requires
        sorts_before(a, b),
    ensures
        !sorts_before(b, a),
{
}

proof fn lemma_insert_entry(s: Seq<EntryMeta>, x: EntryMeta)
    ensures
        insert_entry(s, x).len() == s.len() + 1,
        forall|y: EntryMeta| #[trigger] insert_entry(s, x).contains(y) <==> (s.contains(y) || y == x),
        in_listing_order(s) ==> in_listing_order(insert_entry(s, x)),
    decreases s.len(),
{
    let r = insert_entry(s, x);
    if s.len() == 0 {
        assert forall|y: EntryMeta| #[trigger] r.contains(y) <==> (s.contains(y) || y == x) by {
            if r.contains(y) {
                assert(r[0] == x);
            }
            if y == x {
                assert(r[0] == y);
            }
        }
    } else if sorts_before(x, s[0]) {
        assert forall|y: EntryMeta| #[trigger] r.contains(y) <==> (s.contains(y) || y == x) by {
            if r.contains(y) {
                let k = choose|k: int| 0 <= k < r.len() && r[k] == y;
                if k > 0 {
                    assert(s[k - 1] == y);
                }
            }
            if s.contains(y) {
                let k = choose|k: int| 0 <= k < s.len() && s[k] == y;
                assert(r[k + 1] == y);
            }
            if y == x {
                assert(r[0] == y);
            }
        }
        if in_listing_order(s) {
            assert forall|i: int, j: int| 0 <= i < j < r.len() implies !sorts_before(
                #[trigger] r[j],
                #[trigger] r[i],
            ) by {
                if i == 0 {
                    assert(r[j] == s[j - 1]);
                    if j - 1 == 0 {
                        lemma_before_asymmetric(x, s[0]);
                    } else {
                        assert(!sorts_before(s[j - 1], s[0]));
                        if sorts_before(s[j - 1], x) {
                            lemma_before_transitive(s[j - 1], x, s[0]);
                        }
                    }
                } else {
                    assert(r[i] == s[i - 1] && r[j] == s[j - 1]);
                }
            }
        }
    } else {
        let t = s.drop_first();
        lemma_insert_entry(t, x);
        let rt = insert_entry(t, x);
        assert(r == seq![s[0]] + rt);
        assert forall|y: EntryMeta| #[trigger] r.contains(y) <==> (s.contains(y) || y == x) by {
            if r.contains(y) {
                let k = choose|k: int| 0 <= k < r.len() && r[k] == y;
                if k > 0 {
                    assert(rt[k - 1] == y);
                    assert(rt.contains(y));
                    if t.contains(y) {
                        let q = choose|q: int| 0 <= q < t.len() && t[q] == y;
                        assert(s[q + 1] == y);
                    }
                } else {
                    assert(s[0] == y);
                }
            }
            if s.contains(y) {
                let k = choose|k: int| 0 <= k < s.len() && s[k] == y;
                if k > 0 {
                    assert(t[k - 1] == y);
                    assert(rt.contains(y));
                    let q = choose|q: int| 0 <= q < rt.len() && rt[q] == y;
                    assert(r[q + 1] == y);
                } else {
                    assert(r[0] == y);
                }
            }
            if y == x {
                assert(rt.contains(x));
                let q = choose|q: int| 0 <= q < rt.len() && rt[q] == x;
                assert(r[q + 1] == x);
            }
        }
        if in_listing_order(s) {
            assert(in_listing_order(t)) by {
                assert forall|i: int, j: int| 0 <= i < j < t.len() implies !sorts_before(
                    #[trigger] t[j],
                    #[trigger] t[i],
                ) by {
                    assert(t[i] == s[i + 1] && t[j] == s[j + 1]);
                }
            }
            assert forall|i: int, j: int| 0 <= i < j < r.len() implies !sorts_before(
                #[trigger] r[j],
                #[trigger] r[i],
            ) by {
                if i == 0 {
                    assert(r[0] == s[0]);
                    assert(r[j] == rt[j - 1]);
                    assert(rt.contains(rt[j - 1]));
                    if rt[j - 1] != x {
                        assert(t.contains(rt[j - 1]));
                        let q = choose|q: int| 0 <= q < t.len() && t[q] == rt[j - 1];
                        assert(s[q + 1] == t[q]);
                    }
                } else {
                    assert(r[i] == rt[i - 1] && r[j] == rt[j - 1]);
                }
            }
        }
    }
}

proof fn lemma_sort_entries(s: Seq<EntryMeta>)
    ensures
        sort_entries(s).len() == s.len(),
        forall|y: EntryMeta| #[trigger] sort_entries(s).contains(y) <==> s.contains(y),
        in_listing_order(sort_entries(s)),
    decreases s.len(),
{
    if s.len() > 0 {
        let t = s.drop_last();
        lemma_sort_entries(t);
        lemma_insert_entry(sort_entries(t), s.last());
        assert forall|y: EntryMeta| #[trigger] sort_entries(s).contains(y) <==> s.contains(y) by {
            if s.contains(y) && y != s.last() {
                let k = choose|k: int| 0 <= k < s.len() && s[k] == y;
                assert(t[k] == y);
            }
            if t.contains(y) {
                let k = choose|k: int| 0 <= k < t.len() && t[k] == y;
                assert(s[k] == y);
            }
            if y == s.last() {
                assert(s[s.len() - 1] == y);
            }
        }
    }
}

proof fn lemma_filter_entries(s: Seq<EntryMeta>, filter: Option<Seq<char>>)
    ensures
        filter_entries(s, filter).len() <= s.len(),
        forall|y: EntryMeta| #[trigger] filter_entries(s, filter).contains(y) ==> passes(y, filter)
            && s.contains(y),
        forall|k: int| 0 <= k < s.len() && passes(s[k], filter) ==> filter_entries(s, filter).contains(
            #[trigger] s[k],
        ),
    decreases s.len(),
{
    if s.len() > 0 {
        let t = s.drop_last();
        lemma_filter_entries(t, filter);
        let ft = filter_entries(t, filter);
        assert forall|y: EntryMeta| #[trigger] filter_entries(s, filter).contains(y) implies passes(
            y,
            filter,
        ) && s.contains(y) by {
            let r = filter_entries(s, filter);
            let k = choose|k: int| 0 <= k < r.len() && r[k] == y;
            if passes(s.last(), filter) && k == r.len() - 1 {
                assert(s[s.len() - 1] == y);
            } else {
                assert(r[k] == ft[k]);
                assert(ft.contains(y));
                let q = choose|q: int| 0 <= q < t.len() && t[q] == y;
                assert(s[q] == y);
            }
        }
        assert forall|k: int| 0 <= k < s.len() && passes(s[k], filter) implies filter_entries(
            s,
            filter,
        ).contains(#[trigger] s[k]) by {
            let r = filter_entries(s, filter);
            if k == s.len() - 1 {
                assert(r[r.len() - 1] == s[k]);
            } else {
                assert(t[k] == s[k]);
                assert(ft.contains(s[k]));
                let q = choose|q: int| 0 <= q < ft.len() && ft[q] == s[k];
                if passes(s.last(), filter) {
                    assert(r[q] == ft[q]);
                } else {
                    assert(r[q] == ft[q]);
                }
            }
        }
    }
}

/// Law: a listing is in order (pinned first, then starred, then newest
/// first), holds only entries of the input that pass the filter, holds
/// every such entry unless the cap cuts it short, and never holds more
/// than the cap.
pub proof fn law_listing(s: Seq<EntryMeta>, filter: Option<Seq<char>>, limit: Option<usize>)
    ensures
        in_listing_order(listing(s, filter, limit)),
        forall|y: EntryMeta| #[trigger] listing(s, filter, limit).contains(y) ==> s.contains(y)
            && passes(y, filter),
        listing(s, filter, limit).len() <= cap(limit),
        filter_entries(s, filter).len() <= cap(limit) ==> forall|k: int|
            0 <= k < s.len() && passes(s[k], filter) ==> listing(s, filter, limit).contains(
                #[trigger] s[k],
            ),
{
    let fe = filter_entries(s, filter);
    let sorted = sort_entries(fe);
    lemma_filter_entries(s, filter);
    lemma_sort_entries(fe);
    let r = listing(s, filter, limit);
    if sorted.len() > cap(limit) {
        assert forall|i: int, j: int| 0 <= i < j < r.len() implies !sorts_before(
            #[trigger] r[j],
            #[trigger] r[i],
        ) by {
            assert(r[i] == sorted[i] && r[j] == sorted[j]);
        }
        assert forall|y: EntryMeta| #[trigger] r.contains(y) implies s.contains(y) && passes(
            y,
            filter,
        ) by {
            let k = choose|k: int| 0 <= k < r.len() && r[k] == y;
            assert(sorted[k] == y);
            assert(sorted.contains(y));
        }
    }
}

/// Law: entries are listed in the order of (pinned, starred, created
/// at), each descending: a pinned entry comes before an unpinned one;
/// between entries that are both pinned or both not, a starred one comes
/// before an unstarred one whatever their times; between entries alike in
/// both flags, the one created later comes first.
pub proof fn law_pinned_then_starred_then_newest(a: EntryMeta, b: EntryMeta)
    ensures
        a.pinned && !b.pinned ==> sorts_before(a, b),
        a.pinned && !b.pinned ==> !sorts_before(b, a),
        a.pinned == b.pinned && a.starred && !b.starred ==> sorts_before(a, b),
        a.pinned == b.pinned && a.starred && !b.starred ==> !sorts_before(b, a),
        a.pinned == b.pinned && a.starred == b.starred ==> (sorts_before(a, b) <==> (b.created_at.secs
            < a.created_at.secs || (b.created_at.secs == a.created_at.secs && b.created_at.nanos
            < a.created_at.nanos))),
{
}

/// Law: the address filter keeps an entry exactly when it has an address
/// that starts with the filter ("34" keeps 34, 34.2 and 34.2-A; an entry
/// with no address is kept only when there is no filter), and a listing
/// holds at most the given limit of entries, 50 when none is given.
pub proof fn law_filter_and_limit(m: EntryMeta, p: Seq<char>, n: usize)
    ensures
        passes(m, None),
        passes(m, Some(p)) <==> (m.jd_address matches Some(a) && a@.len() >= p.len() && a@.subrange(
            0,
            p.len() as int,
        ) == p),
        cap(None) == 50,
        cap(Some(n)) == n,
{
    if let Some(a) = m.jd_address {
        if a@.len() >= p.len() && a@.subrange(0, p.len() as int) == p {
            assert(a@.subrange(0, p.len() as int) =~= a@.take(p.len() as int));
        }
        if has_prefix(a@, p) {
            assert(a@.subrange(0, p.len() as int) =~= a@.take(p.len() as int));
        }
    }
}

} // verus!
