// The hub's route table: which backend and model answer a chat request.
//
// A request names a model and may carry a JD address. An alias (`fast`,
// `coder`, `journal`, ...) picks its target outright; otherwise the
// longest JD area prefix of the address does ("35.7" would beat "35");
// otherwise a concrete model name is passed through to the fallback
// backend; otherwise the fallback answers.
use vstd::prelude::*;

use crate::text::{has_prefix, owned, push_all, same_text, starts_with, chars_of};

verus! {

/// A backend to send a chat request to.
#[derive(Debug, Clone)]
pub struct RouteTarget {
    /// Full URL of the backend's chat endpoint.
    pub url: String,
    /// The model id to ask for there.
    pub model: String,
    /// A label for logs.
    pub label: String,
}

/// A target as text: (url, model, label).
pub open spec fn target_view(t: RouteTarget) -> (Seq<char>, Seq<char>, Seq<char>) {
    (t.url@, t.model@, t.label@)
}

/// A table row as text: (key, target).
pub open spec fn row_view(r: (String, RouteTarget)) -> (Seq<char>, (Seq<char>, Seq<char>, Seq<char>)) {
    (r.0@, target_view(r.1))
}

/// The rows of a table as text.
pub open spec fn rows_view(rows: Seq<(String, RouteTarget)>) -> Seq<(Seq<char>, (Seq<char>, Seq<char>, Seq<char>))> {
    rows.map_values(|r: (String, RouteTarget)| row_view(r))
}

/// A target with these three texts.
pub fn target(url: &str, model: &str, label: &str) -> (t: RouteTarget)
    ensures
        target_view(t) == (url@, model@, label@),
{
    RouteTarget { url: owned(url), model: owned(model), label: owned(label) }
}

impl RouteTarget {
    /// A copy of this target.
    pub fn duplicate(&self) -> (t: RouteTarget)
        ensures
            t == *self,
    {
        RouteTarget { url: self.url.clone(), model: self.model.clone(), label: self.label.clone() }
    }
}

/// The LocalAI chat endpoint.
pub open spec fn local_ai() -> Seq<char> {
    "http://localhost:8080/v1/chat/completions"@
}

/// The Ollama chat endpoint.
pub open spec fn ollama() -> Seq<char> {
    "http://localhost:11434/v1/chat/completions"@
}

/// A row of the table as text.
pub open spec fn row(key: Seq<char>, url: Seq<char>, model: Seq<char>, label: Seq<char>) -> (Seq<char>, (Seq<char>, Seq<char>, Seq<char>)) {
    (key, (url, model, label))
}

/// The model aliases.
pub open spec fn alias_rows() -> Seq<(Seq<char>, (Seq<char>, Seq<char>, Seq<char>))> {
    seq![
        row("fast"@, local_ai(), "phi-3-mini"@, "Fast / phi-3-mini"@),
        row("smart"@, local_ai(), "mistral-7b"@, "Smart / Mistral-7B"@),
        row("coder"@, ollama(), "codellama"@, "Coder / CodeLlama"@),
        row("journal"@, local_ai(), "mistral-7b"@, "34_My-story"@),
        row("health"@, local_ai(), "meditron"@, "35_Health"@),
        row("finance"@, local_ai(), "mistral-7b"@, "21_Treasury"@),
        row("quest"@, local_ai(), "mistral-7b"@, "33_Quests"@),
        row("nixos"@, ollama(), "codellama"@, "11_NixOS"@),
        row("library"@, local_ai(), "mistral-7b"@, "52_Library"@),
    ]
}

/// The JD area rows, in the order they are listed.
pub open spec fn area_rows() -> Seq<(Seq<char>, (Seq<char>, Seq<char>, Seq<char>))> {
    seq![
        row("00"@, local_ai(), "mistral-7b"@, "00_Philosophy"@),
        row("01"@, local_ai(), "mistral-7b"@, "01_Directives"@),
        row("10"@, ollama(), "codellama"@, "10_Ecosystem"@),
        row("11"@, ollama(), "codellama"@, "11_NixOS"@),
        row("12"@, ollama(), "codellama"@, "12_Machines"@),
        row("14"@, ollama(), "codellama"@, "14_Services"@),
        row("17"@, ollama(), "codellama"@, "17_Networking"@),
        row("20"@, local_ai(), "mistral-7b"@, "20_Estate"@),
        row("21"@, local_ai(), "mistral-7b"@, "21_Treasury"@),
        row("22"@, local_ai(), "mistral-7b"@, "22_Projects"@),
        row("24"@, local_ai(), "phi-3-mini"@, "24_Rooms"@),
        row("30"@, local_ai(), "mistral-7b"@, "30_User"@),
        row("33"@, local_ai(), "mistral-7b"@, "33_Quests"@),
        row("34"@, local_ai(), "mistral-7b"@, "34_My-story"@),
        row("35"@, local_ai(), "meditron"@, "35_Health"@),
        row("50"@, local_ai(), "mistral-7b"@, "50_Library"@),
        row("51"@, local_ai(), "mistral-7b"@, "51_Sources"@),
        row("61"@, local_ai(), "mistral-7b"@, "61_Research"@),
        row("62"@, local_ai(), "mistral-7b"@, "62_Projects"@),
        row("80"@, local_ai(), "phi-3-mini"@, "80_Data"@),
        row("82"@, local_ai(), "phi-3-mini"@, "82_Mailroom"@),
        row("83"@, local_ai(), "phi-3-mini"@, "83_Scratchpad"@),
    ]
}

/// The fallback target.
pub open spec fn fallback_row() -> (Seq<char>, Seq<char>, Seq<char>) {
    (local_ai(), "mistral-7b"@, "fallback"@)
}

/// `x` inserted into `s` after every row whose key is at least as long.
pub open spec fn insert_by_len<T>(s: Seq<(Seq<char>, T)>, x: (Seq<char>, T)) -> Seq<(Seq<char>, T)>
    decreases s.len(),
{
    if s.len() == 0 {
        seq![x]
    } else if s[0].0.len() < x.0.len() {
        seq![x] + s
    } else {
        seq![s[0]] + insert_by_len(s.drop_first(), x)
    }
}

/// The rows stably sorted by key length, longest first.
pub open spec fn sort_by_len<T>(s: Seq<(Seq<char>, T)>) -> Seq<(Seq<char>, T)>
    decreases s.len(),
{
    if s.len() == 0 {
        s
    } else {
        insert_by_len(sort_by_len(s.drop_last()), s.last())
    }
}

/// Whether key lengths never grow along the rows.
pub open spec fn longest_first<T>(s: Seq<(Seq<char>, T)>) -> bool {
    forall|i: int, j: int| 0 <= i < j < s.len() ==> (#[trigger] s[j]).0.len() <= (#[trigger] s[i]).0.len()
}

/// The route table.
pub struct RouteTable {
    /// Model alias → target, checked first.
    aliases: Vec<(String, RouteTarget)>,
    /// JD area prefix → target, longest prefix first.
    jd_areas: Vec<(String, RouteTarget)>,
    /// When nothing else matches.
    fallback: RouteTarget,
}

/// The target of the first row whose key is `key`.
pub open spec fn alias_target(rows: Seq<(String, RouteTarget)>, key: Seq<char>) -> Option<RouteTarget>
    decreases rows.len(),
{
    if rows.len() == 0 {
        None
    } else if rows[0].0@ == key {
        Some(rows[0].1)
    } else {
        alias_target(rows.drop_first(), key)
    }
}

/// The target of the first row whose key is a prefix of `addr`.
pub open spec fn area_target(rows: Seq<(String, RouteTarget)>, addr: Seq<char>) -> Option<RouteTarget>
    decreases rows.len(),
{
    if rows.len() == 0 {
        None
    } else if has_prefix(addr, rows[0].0@) {
        Some(rows[0].1)
    } else {
        area_target(rows.drop_first(), addr)
    }
}

impl RouteTable {
    /// The alias rows.
    pub closed spec fn alias_table(&self) -> Seq<(String, RouteTarget)> {
        self.aliases@
    }

    /// The area rows, in the order they are tried.
    pub closed spec fn area_table(&self) -> Seq<(String, RouteTarget)> {
        self.jd_areas@
    }

    /// The fallback target.
    pub closed spec fn fallback_target(&self) -> RouteTarget {
        self.fallback
    }

    /// The table's invariant: areas are tried longest prefix first.
    pub closed spec fn wf(&self) -> bool {
        longest_first(rows_view(self.jd_areas@))
    }
}

fn add_row(rows: &mut Vec<(String, RouteTarget)>, key: &str, url: &str, model: &str, label: &str)
    ensures
        rows_view(final(rows)@) == rows_view(old(rows)@).push(row(key@, url@, model@, label@)),
{
    let ghost before = rows@;
    rows.push((owned(key), target(url, model, label)));
    proof {
        assert(rows_view(rows@) =~= rows_view(before).push(row(key@, url@, model@, label@)));
    }
}

/// Sorts rows stably by key length, longest first.
fn sort_rows(rows: Vec<(String, RouteTarget)>) -> (r: Vec<(String, RouteTarget)>)
    ensures
        rows_view(r@) == sort_by_len(rows_view(rows@)),
{
    let ghost all = rows_view(rows@);
    let mut out: Vec<(String, RouteTarget)> = Vec::new();
    let mut i: usize = 0;
    let n = rows.len();
    let mut rest = rows;
    let ghost orig = rest@;
    proof {
        assert(rows_view(out@) =~= sort_by_len(all.take(0)));
    }
    while rest.len() > 0
        invariant
            all == rows_view(orig),
            orig.len() == n,
            i + rest@.len() == orig.len(),
            rest@ == orig.skip(i as int),
            rows_view(out@) == sort_by_len(all.take(i as int)),
        decreases rest.len(),
    {
        let x = rest.remove(0);
        proof {
            assert(x == orig[i as int]);
            assert(rest@ =~= orig.skip(i + 1));
            assert(all.take(i + 1).drop_last() =~= all.take(i as int));
            assert(all.take(i + 1).last() == row_view(x));
        }
        let xlen = chars_of(x.0.as_str()).len();
        let mut p: usize = 0;
        while p < out.len() && xlen <= chars_of(out[p].0.as_str()).len()
            invariant
                p <= out@.len(),
                xlen == x.0@.len(),
                forall|k: int| 0 <= k < p ==> x.0@.len() <= (#[trigger] out@[k]).0@.len(),
            decreases out.len() - p,
        {
            p = p + 1;
        }
        proof {
            lemma_insert_by_len_at(rows_view(out@), row_view(x), p as int);
        }
        let ghost before = out@;
        out.insert(p, x);
        proof {
            assert(rows_view(out@) =~= rows_view(before).insert(p as int, row_view(x)));
        }
        i = i + 1;
    }
    proof {
        assert(all.take(orig.len() as int) =~= all);
    }
    out
}

proof fn lemma_insert_by_len_at<T>(s: Seq<(Seq<char>, T)>, x: (Seq<char>, T), p: int)
    requires
        0 <= p <= s.len(),
        forall|k: int| 0 <= k < p ==> x.0.len() <= (#[trigger] s[k]).0.len(),
        p < s.len() ==> s[p].0.len() < x.0.len(),
    ensures
        s.insert(p, x) == insert_by_len(s, x),
    decreases s.len(),
{
    if s.len() == 0 {
        assert(s.insert(p, x) =~= seq![x]);
    } else if p == 0 {
        assert(s.insert(0, x) =~= seq![x] + s);
    } else {
        let t = s.drop_first();
        assert forall|k: int| 0 <= k < p - 1 implies x.0.len() <= (#[trigger] t[k]).0.len() by {
            assert(t[k] == s[k + 1]);
        }
        if p < s.len() {
            assert(t[p - 1] == s[p]);
        }
        assert(x.0.len() <= s[0].0.len());
        lemma_insert_by_len_at(t, x, p - 1);
        assert(s.insert(p, x) =~= seq![s[0]] + t.insert(p - 1, x));
    }
}

proof fn lemma_insert_by_len_sorted<T>(s: Seq<(Seq<char>, T)>, x: (Seq<char>, T))
    requires
        longest_first(s),
    ensures
        longest_first(insert_by_len(s, x)),
        insert_by_len(s, x).len() == s.len() + 1,
        forall|k: int| 0 <= k < insert_by_len(s, x).len() ==> #[trigger] insert_by_len(s, x)[k] == x
            || s.contains(insert_by_len(s, x)[k]),
    decreases s.len(),
{
    let r = insert_by_len(s, x);
    if s.len() == 0 {
    } else if s[0].0.len() < x.0.len() {
        assert forall|k: int| 0 <= k < r.len() implies #[trigger] r[k] == x || s.contains(r[k]) by {
            if k > 0 {
                assert(r[k] == s[k - 1]);
            }
        }
    } else {
        let t = s.drop_first();
        assert(longest_first(t)) by {
            assert forall|i: int, j: int| 0 <= i < j < t.len() implies (#[trigger] t[j]).0.len()
                <= (#[trigger] t[i]).0.len() by {
                assert(t[i] == s[i + 1] && t[j] == s[j + 1]);
            }
        }
        lemma_insert_by_len_sorted(t, x);
        let rt = insert_by_len(t, x);
        assert(r == seq![s[0]] + rt);
        assert forall|k: int| 0 <= k < r.len() implies #[trigger] r[k] == x || s.contains(r[k]) by {
            if k > 0 {
                assert(r[k] == rt[k - 1]);
                if rt[k - 1] != x {
                    assert(t.contains(rt[k - 1]));
                    let q = choose|q: int| 0 <= q < t.len() && t[q] == rt[k - 1];
                    assert(s[q + 1] == t[q]);
                }
            } else {
                assert(s[0] == r[0]);
            }
        }
        assert forall|i: int, j: int| 0 <= i < j < r.len() implies (#[trigger] r[j]).0.len() <= (
        #[trigger] r[i]).0.len() by {
            if i == 0 {
                assert(r[j] == rt[j - 1]);
                if rt[j - 1] != x {
                    assert(t.contains(rt[j - 1]));
                    let q = choose|q: int| 0 <= q < t.len() && t[q] == rt[j - 1];
                    assert(s[q + 1] == t[q]);
                }
            } else {
                assert(r[i] == rt[i - 1] && r[j] == rt[j - 1]);
            }
        }
    }
}

proof fn lemma_sort_by_len_sorted<T>(s: Seq<(Seq<char>, T)>)
    ensures
        longest_first(sort_by_len(s)),
        sort_by_len(s).len() == s.len(),
    decreases s.len(),
{
    if s.len() > 0 {
        lemma_sort_by_len_sorted(s.drop_last());
        lemma_insert_by_len_sorted(sort_by_len(s.drop_last()), s.last());
    }
}

/// What the table resolves a (model, address) request to.
pub open spec fn resolution(t: RouteTable, model: Seq<char>, jd: Option<Seq<char>>, r: RouteTarget) -> bool {
    match alias_target(t.alias_table(), model) {
        Some(a) => r == a,
        None => match (
            match jd {
                Some(addr) => area_target(t.area_table(), addr),
                None => None,
            }
        ) {
            Some(a) => r == a,
            None => if model.len() > 0 && model != "default"@ {
                r.url == t.fallback_target().url && r.model@ == model && r.label@ == "passthrough:"@
                    + model
            } else {
                r == t.fallback_target()
            },
        },
    }
}

impl RouteTable {
    /// The table as configured: nine model aliases, twenty-two JD areas
    /// sorted longest prefix first, and Mistral-7B on LocalAI as fallback.
    pub fn load() -> (t: RouteTable)
        ensures
            t.wf(),
            rows_view(t.alias_table()) == alias_rows(),
            rows_view(t.area_table()) == sort_by_len(area_rows()),
            target_view(t.fallback_target()) == fallback_row(),
    {
        let local_ai = "http://localhost:8080/v1/chat/completions";
        let ollama = "http://localhost:11434/v1/chat/completions";
        let mut aliases: Vec<(String, RouteTarget)> = Vec::new();
        add_row(&mut aliases, "fast", local_ai, "phi-3-mini", "Fast / phi-3-mini");
        add_row(&mut aliases, "smart", local_ai, "mistral-7b", "Smart / Mistral-7B");
        add_row(&mut aliases, "coder", ollama, "codellama", "Coder / CodeLlama");
        add_row(&mut aliases, "journal", local_ai, "mistral-7b", "34_My-story");
        add_row(&mut aliases, "health", local_ai, "meditron", "35_Health");
        add_row(&mut aliases, "finance", local_ai, "mistral-7b", "21_Treasury");
        add_row(&mut aliases, "quest", local_ai, "mistral-7b", "33_Quests");
        add_row(&mut aliases, "nixos", ollama, "codellama", "11_NixOS");
        add_row(&mut aliases, "library", local_ai, "mistral-7b", "52_Library");
        let mut areas: Vec<(String, RouteTarget)> = Vec::new();
        add_row(&mut areas, "00", local_ai, "mistral-7b", "00_Philosophy");
        add_row(&mut areas, "01", local_ai, "mistral-7b", "01_Directives");
        add_row(&mut areas, "10", ollama, "codellama", "10_Ecosystem");
        add_row(&mut areas, "11", ollama, "codellama", "11_NixOS");
        add_row(&mut areas, "12", ollama, "codellama", "12_Machines");
        add_row(&mut areas, "14", ollama, "codellama", "14_Services");
        add_row(&mut areas, "17", ollama, "codellama", "17_Networking");
        add_row(&mut areas, "20", local_ai, "mistral-7b", "20_Estate");
        add_row(&mut areas, "21", local_ai, "mistral-7b", "21_Treasury");
        add_row(&mut areas, "22", local_ai, "mistral-7b", "22_Projects");
        add_row(&mut areas, "24", local_ai, "phi-3-mini", "24_Rooms");
        add_row(&mut areas, "30", local_ai, "mistral-7b", "30_User");
        add_row(&mut areas, "33", local_ai, "mistral-7b", "33_Quests");
        add_row(&mut areas, "34", local_ai, "mistral-7b", "34_My-story");
        add_row(&mut areas, "35", local_ai, "meditron", "35_Health");
        add_row(&mut areas, "50", local_ai, "mistral-7b", "50_Library");
        add_row(&mut areas, "51", local_ai, "mistral-7b", "51_Sources");
        add_row(&mut areas, "61", local_ai, "mistral-7b", "61_Research");
        add_row(&mut areas, "62", local_ai, "mistral-7b", "62_Projects");
        add_row(&mut areas, "80", local_ai, "phi-3-mini", "80_Data");
        add_row(&mut areas, "82", local_ai, "phi-3-mini", "82_Mailroom");
        add_row(&mut areas, "83", local_ai, "phi-3-mini", "83_Scratchpad");
        proof {
            assert(rows_view(aliases@) =~= alias_rows());
            assert(rows_view(areas@) =~= area_rows());
        }
        let jd_areas = sort_rows(areas);
        proof {
            lemma_sort_by_len_sorted(area_rows());
        }
        let fallback = target(local_ai, "mistral-7b", "fallback");
        RouteTable { aliases, jd_areas, fallback }
    }

    /// The target for a request naming `model`, with JD address `jd`: the
    /// alias `model` if there is one; else the first (longest) area prefix
    /// of the address; else, for a concrete model name (not empty, not
    /// `default`), that model on the fallback backend, labelled
    /// `passthrough:{model}`; else the fallback.
    pub fn resolve(&self, model: &str, jd: Option<&str>) -> (r: RouteTarget)
        ensures
            resolution(*self, model@, match jd {
                Some(a) => Some(a@),
                None => None,
            }, r),
    {
        let mut i: usize = 0;
        proof {
            assert(self.aliases@.skip(0) =~= self.aliases@);
        }
        while i < self.aliases.len()
            invariant
                i <= self.aliases@.len(),
                alias_target(self.aliases@, model@) == alias_target(self.aliases@.skip(i as int), model@),
            decreases self.aliases.len() - i,
        {
            proof {
                assert(self.aliases@.skip(i as int)[0] == self.aliases@[i as int]);
                assert(self.aliases@.skip(i as int).drop_first() =~= self.aliases@.skip(i + 1));
            }
            if same_text(self.aliases[i].0.as_str(), model) {
                return self.aliases[i].1.duplicate();
            }
            i = i + 1;
        }
        proof {
            assert(self.aliases@.skip(i as int).len() == 0);
        }
        match jd {
            Some(addr) => {
                let mut k: usize = 0;
                proof {
                    assert(self.jd_areas@.skip(0) =~= self.jd_areas@);
                }
                while k < self.jd_areas.len()
                    invariant
                        jd == Some(addr),
                        alias_target(self.aliases@, model@) is None,
                        k <= self.jd_areas@.len(),
                        area_target(self.jd_areas@, addr@) == area_target(
                            self.jd_areas@.skip(k as int),
                            addr@,
                        ),
                    decreases self.jd_areas.len() - k,
                {
                    proof {
                        assert(self.jd_areas@.skip(k as int)[0] == self.jd_areas@[k as int]);
                        assert(self.jd_areas@.skip(k as int).drop_first() =~= self.jd_areas@.skip(
                            k + 1,
                        ));
                    }
                    if starts_with(addr, self.jd_areas[k].0.as_str()) {
                        assert(area_target(self.jd_areas@, addr@) == Some(self.jd_areas@[k as int].1));
                        return self.jd_areas[k].1.duplicate();
                    }
                    k = k + 1;
                }
            },
            None => {},
        }
        if chars_of(model).len() > 0 && !same_text(model, "default") {
            let mut label = owned("passthrough:");
            push_all(&mut label, model);
            return RouteTarget { url: self.fallback.url.clone(), model: owned(model), label };
        }
        self.fallback.duplicate()
    }
}

/// The position of the first row whose key is a prefix of `addr`.
pub open spec fn first_area_index(rows: Seq<(String, RouteTarget)>, addr: Seq<char>) -> Option<int>
    decreases rows.len(),
{
    if rows.len() == 0 {
        None
    } else if has_prefix(addr, rows[0].0@) {
        Some(0)
    } else {
        match first_area_index(rows.drop_first(), addr) {
            Some(i) => Some(i + 1),
            None => None,
        }
    }
}

proof fn lemma_first_area_index(rows: Seq<(String, RouteTarget)>, addr: Seq<char>)
    ensures
        first_area_index(rows, addr) matches Some(i) ==> 0 <= i < rows.len() && has_prefix(
            addr,
            rows[i].0@,
        ) && area_target(rows, addr) == Some(rows[i].1) && forall|k: int|
            0 <= k < i ==> !has_prefix(addr, #[trigger] rows[k].0@),
        first_area_index(rows, addr) is None ==> area_target(rows, addr) is None,
    decreases rows.len(),
{
    if rows.len() > 0 {
        let t = rows.drop_first();
        lemma_first_area_index(t, addr);
        assert forall|k: int| 0 < k < rows.len() implies #[trigger] rows[k] == t[k - 1] by {}
    }
}

/// Law: for a table whose areas are tried longest first (every table
/// `load` makes), the area an address resolves by is a longest area
/// prefix of that address; so "35.7" would be chosen over "35" for
/// "35.7.1".
pub proof fn law_longest_prefix_wins(t: RouteTable, addr: Seq<char>)
    requires
        t.wf(),
    ensures
        area_target(t.area_table(), addr) matches Some(r) ==> exists|i: int|
            0 <= i < t.area_table().len() && r == t.area_table()[i].1 && has_prefix(
                addr,
                #[trigger] t.area_table()[i].0@,
            ) && forall|k: int|
                0 <= k < t.area_table().len() && has_prefix(addr, #[trigger] t.area_table()[k].0@)
                    ==> t.area_table()[k].0@.len() <= t.area_table()[i].0@.len(),
{
    let rows = t.area_table();
    lemma_first_area_index(rows, addr);
    if let Some(i) = first_area_index(rows, addr) {
        assert forall|k: int|
            0 <= k < rows.len() && has_prefix(addr, #[trigger] rows[k].0@) implies rows[k].0@.len()
            <= rows[i].0@.len() by {
            if k > i {
                assert(rows_view(rows)[k].0 == rows[k].0@);
                assert(rows_view(rows)[i].0 == rows[i].0@);
            }
        }
    }
}

proof fn lemma_first_key(rows: Seq<(String, RouteTarget)>, key: Seq<char>, k: int)
    ensures
        0 <= k < rows.len() && rows[k].0@ == key && (forall|j: int| 0 <= j < k ==> #[trigger] rows[j].0@ != key)
            ==> alias_target(rows, key) == Some(rows[k].1),
        (forall|j: int| 0 <= j < rows.len() ==> #[trigger] rows[j].0@ != key) ==> alias_target(rows, key) is None,
    decreases rows.len(),
{
    if rows.len() > 0 {
        lemma_first_key(rows.drop_first(), key, k - 1);
        if 0 <= k < rows.len() && rows[k].0@ == key && (forall|j: int| 0 <= j < k ==> #[trigger] rows[j].0@ != key) {
            if k > 0 {
                assert(rows[0].0@ != key);
                assert(rows.drop_first()[k - 1] == rows[k]);
                assert forall|j: int| 0 <= j < k - 1 implies #[trigger] rows.drop_first()[j].0@ != key by {
                    assert(rows.drop_first()[j] == rows[j + 1]);
                }
            }
        }
        if forall|j: int| 0 <= j < rows.len() ==> #[trigger] rows[j].0@ != key {
            assert(rows[0].0@ != key);
            assert forall|j: int| 0 <= j < rows.len() - 1 implies #[trigger] rows.drop_first()[j].0@ != key by {
                assert(rows.drop_first()[j] == rows[j + 1]);
            }
        }
    }
}

/// Law: how a chat request is routed. A model alias of the table wins
/// (the first row with that alias); otherwise, for a request tagged with
/// an address, an area row whose key prefixes the address decides;
/// otherwise a named model (not empty, not "default") passes through to
/// the fallback backend under its own name, labelled "passthrough:{model}";
/// and anything else goes to the fallback as it is.
pub proof fn law_resolution(t: RouteTable, model: Seq<char>, jd: Option<Seq<char>>, r: RouteTarget, k: int)
    requires
        resolution(t, model, jd, r),
    ensures
        0 <= k < t.alias_table().len() && t.alias_table()[k].0@ == model && (forall|j: int|
            0 <= j < k ==> #[trigger] t.alias_table()[j].0@ != model) ==> r == t.alias_table()[k].1,
        (forall|j: int| 0 <= j < t.alias_table().len() ==> #[trigger] t.alias_table()[j].0@ != model) ==> (
        match jd {
            Some(addr) => match area_target(t.area_table(), addr) {
                Some(x) => r == x,
                None => true,
            },
            None => true,
        }),
        (forall|j: int| 0 <= j < t.alias_table().len() ==> #[trigger] t.alias_table()[j].0@ != model) && (
        jd is None) && model.len() > 0 && model != "default"@ ==> r.url == t.fallback_target().url
            && r.model@ == model && r.label@ == "passthrough:"@ + model,
        (forall|j: int| 0 <= j < t.alias_table().len() ==> #[trigger] t.alias_table()[j].0@ != model) && (
        jd is None) && (model.len() == 0 || model == "default"@) ==> r == t.fallback_target(),
        area_target(t.area_table(), jd.unwrap_or(seq![])) matches Some(x) ==> exists|i: int|
            0 <= i < t.area_table().len() && x == t.area_table()[i].1 && has_prefix(
                jd.unwrap_or(seq![]),
                #[trigger] t.area_table()[i].0@,
            ),
{
    lemma_first_key(t.alias_table(), model, k);
    lemma_area_target_row(t.area_table(), jd.unwrap_or(seq![]));
}

proof fn lemma_area_target_row(rows: Seq<(String, RouteTarget)>, addr: Seq<char>)
    ensures
        area_target(rows, addr) matches Some(x) ==> exists|i: int|
            0 <= i < rows.len() && x == rows[i].1 && has_prefix(addr, #[trigger] rows[i].0@),
    decreases rows.len(),
{
    if rows.len() > 0 && !has_prefix(addr, rows[0].0@) {
        lemma_area_target_row(rows.drop_first(), addr);
        if area_target(rows, addr) is Some {
            let i = choose|i: int|
                0 <= i < rows.drop_first().len() && area_target(rows, addr).unwrap() == rows.drop_first()[i].1
                    && has_prefix(addr, #[trigger] rows.drop_first()[i].0@);
            assert(rows.drop_first()[i] == rows[i + 1]);
        }
    } else if rows.len() > 0 {
        assert(has_prefix(addr, rows[0].0@));
    }
}

} // verus!
