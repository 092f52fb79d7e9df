// Title cleanup: a flat, human-editable list of junk phrases stripped
// from incoming titles before they become a minted subnest's folder
// name. Matching is a literal substring, case-insensitive over ASCII
// letters; the separator debris that removals leave behind is collapsed
// and trimmed afterwards.
use vstd::prelude::*;

use crate::text::{
    chars_of, fold_case, fold_case_char, lemma_lead_len, lemma_lead_len_unique, lemma_tail_len,
    lemma_tail_len_unique, string_from_range, trim, trim_by, trim_ws,
};

verus! {

/// Characters that a removal can leave behind as debris.
pub open spec fn is_debris(c: char) -> bool {
    c == ' ' || c == '-' || c == '_' || c == '.'
}

fn debris(c: char) -> (b: bool)
    ensures
        b == is_debris(c),
{
    c == ' ' || c == '-' || c == '_' || c == '.'
}

/// Whether `p` occurs in `s` at `i`, ignoring ASCII case.
pub open spec fn folded_match_at(s: Seq<char>, p: Seq<char>, i: int) -> bool {
    &&& 0 <= i
    &&& i + p.len() <= s.len()
    &&& forall|k: int| 0 <= k < p.len() ==> fold_case(#[trigger] s[i + k]) == fold_case(p[k])
}

/// `s` with every occurrence of the non-empty phrase `p` removed, scanning
/// left to right and resuming after each removed occurrence.
pub open spec fn strip_phrase(s: Seq<char>, p: Seq<char>) -> Seq<char>
    decreases s.len(),
{
    if p.len() == 0 || s.len() == 0 {
        s
    } else if folded_match_at(s, p, 0) {
        strip_phrase(s.skip(p.len() as int), p)
    } else {
        seq![s[0]] + strip_phrase(s.drop_first(), p)
    }
}

/// `s` with the phrases removed one after the other, in list order.
pub open spec fn strip_phrases(s: Seq<char>, phrases: Seq<Seq<char>>) -> Seq<char>
    decreases phrases.len(),
{
    if phrases.len() == 0 {
        s
    } else {
        strip_phrase(strip_phrases(s, phrases.drop_last()), phrases.last())
    }
}

/// `s` with every debris character dropped whose predecessor is debris
/// too: each run of debris shrinks to its first character.
pub open spec fn collapse_debris(s: Seq<char>) -> Seq<char>
    decreases s.len(),
{
    if s.len() == 0 {
        s
    } else {
        let prev = collapse_debris(s.drop_last());
        if is_debris(s.last()) && s.len() >= 2 && is_debris(s[s.len() - 2]) {
            prev
        } else {
            prev.push(s.last())
        }
    }
}

/// The cleaned title: phrases stripped, debris runs collapsed, debris
/// trimmed from both ends.
pub open spec fn cleaned(title: Seq<char>, phrases: Seq<Seq<char>>) -> Seq<char> {
    trim_by(collapse_debris(strip_phrases(title, phrases)), |c: char| is_debris(c))
}

fn folded_matches_at(s: &Vec<char>, i: usize, p: &Vec<char>) -> (r: bool)
    requires
        i <= s.len(),
    ensures
        r == folded_match_at(s@, p@, i as int),
{
    if p.len() > s.len() - i {
        return false;
    }
    let mut k: usize = 0;
    while k < p.len()
        invariant
            i + p.len() <= s.len(),
            k <= p.len(),
            forall|j: int| 0 <= j < k ==> fold_case(#[trigger] s@[i + j]) == fold_case(p@[j]),
        decreases p.len() - k,
    {
        if fold_case_char(s[i + k]) != fold_case_char(p[k]) {
            return false;
        }
        k = k + 1;
    }
    true
}

proof fn lemma_strip_unfold(s: Seq<char>, p: Seq<char>, i: int)
    requires
        p.len() > 0,
        0 <= i < s.len(),
    ensures
        folded_match_at(s, p, i) ==> strip_phrase(s.skip(i), p) == strip_phrase(
            s.skip(i + p.len()),
            p,
        ),
        !folded_match_at(s, p, i) ==> strip_phrase(s.skip(i), p) == seq![s[i]] + strip_phrase(
            s.skip(i + 1),
            p,
        ),
{
    let t = s.skip(i);
    if folded_match_at(t, p, 0) {
        assert forall|k: int| 0 <= k < p.len() implies fold_case(#[trigger] s[i + k]) == fold_case(
            p[k],
        ) by {
            assert(t[0 + k] == s[i + k]);
            assert(fold_case(t[0 + k]) == fold_case(p[k]));
        }
    }
    if folded_match_at(s, p, i) {
        assert forall|k: int| 0 <= k < p.len() implies fold_case(#[trigger] t[0 + k]) == fold_case(
            p[k],
        ) by {
            assert(t[0 + k] == s[i + k]);
            assert(fold_case(s[i + k]) == fold_case(p[k]));
        }
        assert(t.skip(p.len() as int) =~= s.skip(i + p.len()));
    }
    assert(t.drop_first() =~= s.skip(i + 1));
}

/// `s` with every occurrence of the non-empty `p` removed.
fn strip_one(s: &Vec<char>, p: &Vec<char>) -> (r: Vec<char>)
    requires
        p.len() > 0,
    ensures
        r@ == strip_phrase(s@, p@),
{
    let mut out: Vec<char> = Vec::new();
    let mut i: usize = 0;
    proof {
        assert(s@.skip(0) =~= s@);
    }
    while i < s.len()
        invariant
            p.len() > 0,
            i <= s.len(),
            strip_phrase(s@, p@) == out@ + strip_phrase(s@.skip(i as int), p@),
        decreases s.len() - i,
    {
        proof {
            lemma_strip_unfold(s@, p@, i as int);
        }
        if folded_matches_at(s, i, p) {
            i = i + p.len();
        } else {
            out.push(s[i]);
            proof {
                assert(out@ =~= out@.drop_last() + seq![s@[i as int]]);
            }
            i = i + 1;
        }
    }
    proof {
        assert(s@.skip(i as int).len() == 0);
        assert(out@ + s@.skip(i as int) =~= out@);
    }
    out
}

fn collapse(s: &Vec<char>) -> (r: Vec<char>)
    ensures
        r@ == collapse_debris(s@),
{
    let mut out: Vec<char> = Vec::new();
    let mut last_was_sep = false;
    let mut i: usize = 0;
    while i < s.len()
        invariant
            i <= s.len(),
            out@ == collapse_debris(s@.take(i as int)),
            last_was_sep == (i > 0 && is_debris(s@[i - 1])),
        decreases s.len() - i,
    {
        let c = s[i];
        proof {
            let t = s@.take(i + 1);
            assert(t.drop_last() =~= s@.take(i as int));
            assert(t.last() == c);
            if i > 0 {
                assert(t[t.len() - 2] == s@[i - 1]);
            }
        }
        if debris(c) {
            if !last_was_sep {
                out.push(c);
            }
            last_was_sep = true;
        } else {
            out.push(c);
            last_was_sep = false;
        }
        i = i + 1;
    }
    proof {
        assert(s@.take(s.len() as int) =~= s@);
    }
    out
}

/// Strips every phrase out of `title` (literal substring, ASCII
/// case-insensitive), then collapses the separator debris the removals
/// leave behind and trims it from both ends. Empty phrases are skipped.
pub fn clean(title: &str, phrases: &[String]) -> (r: String)
    ensures
        r@ == cleaned(title@, phrases@.map_values(|p: String| p@)),
{
    let ghost views = phrases@.map_values(|p: String| p@);
    let mut cur = chars_of(title);
    let mut j: usize = 0;
    while j < phrases.len()
        invariant
            j <= phrases.len(),
            views == phrases@.map_values(|p: String| p@),
            cur@ == strip_phrases(title@, views.take(j as int)),
        decreases phrases.len() - j,
    {
        let p = chars_of(phrases[j].as_str());
        proof {
            assert(views.take(j + 1).drop_last() =~= views.take(j as int));
            assert(views.take(j + 1).last() == p@);
        }
        if p.len() > 0 {
            cur = strip_one(&cur, &p);
        }
        j = j + 1;
    }
    proof {
        assert(views.take(phrases.len() as int) =~= views);
    }
    let collapsed = collapse(&cur);
    let ghost dp = |c: char| is_debris(c);
    let mut from: usize = 0;
    while from < collapsed.len() && debris(collapsed[from])
        invariant
            from <= collapsed.len(),
            forall|k: int| 0 <= k < from ==> is_debris(#[trigger] collapsed@[k]),
        decreases collapsed.len() - from,
    {
        from = from + 1;
    }
    let mut to = collapsed.len();
    while to > from && debris(collapsed[to - 1])
        invariant
            from <= to <= collapsed.len(),
            forall|k: int| to <= k < collapsed.len() ==> is_debris(#[trigger] collapsed@[k]),
        decreases to,
    {
        to = to - 1;
    }
    proof {
        let c = collapsed@;
        lemma_lead_len_unique(c, dp, from as int);
        let t = c.skip(from as int);
        assert forall|i: int| t.len() - (c.len() - to) <= i < t.len() implies dp(
            #[trigger] t[i],
        ) by {
            assert(t[i] == c[i + from]);
        }
        if to > from {
            assert(t[t.len() - (c.len() - to) - 1] == c[to - 1]);
        }
        lemma_tail_len_unique(t, dp, c.len() - to);
        assert(c.subrange(from as int, to as int) =~= t.take(t.len() - (c.len() - to)));
    }
    string_from_range(&collapsed, from, to)
}

/// Collapsing leaves no two adjacent debris characters.
proof fn lemma_collapse_no_runs(s: Seq<char>)
    ensures
        forall|k: int|
            0 <= k < collapse_debris(s).len() - 1 ==> !(is_debris(
                #[trigger] collapse_debris(s)[k],
            ) && is_debris(collapse_debris(s)[k + 1])),
        collapse_debris(s).len() > 0 <==> s.len() > 0,
        s.len() > 0 ==> is_debris(collapse_debris(s).last()) == is_debris(s.last()),
    decreases s.len(),
{
    if s.len() > 0 {
        let prev = collapse_debris(s.drop_last());
        lemma_collapse_no_runs(s.drop_last());
        let cur = collapse_debris(s);
        if s.len() >= 2 {
            assert(s.drop_last().last() == s[s.len() - 2]);
        }
        assert forall|k: int| 0 <= k < cur.len() - 1 implies !(is_debris(#[trigger] cur[k])
            && is_debris(cur[k + 1])) by {
            if k + 1 < prev.len() {
                assert(cur[k] == prev[k]);
                assert(cur[k + 1] == prev[k + 1]);
            }
        }
    }
}

/// Law: a cleaned title never starts or ends with separator debris and
/// never holds two debris characters in a row.
pub proof fn law_clean_leaves_no_debris(title: Seq<char>, phrases: Seq<Seq<char>>)
    ensures
        forall|k: int|
            0 <= k < cleaned(title, phrases).len() - 1 ==> !(is_debris(
                #[trigger] cleaned(title, phrases)[k],
            ) && is_debris(cleaned(title, phrases)[k + 1])),
        cleaned(title, phrases).len() > 0 ==> !is_debris(cleaned(title, phrases)[0])
            && !is_debris(cleaned(title, phrases).last()),
{
    let c = collapse_debris(strip_phrases(title, phrases));
    let dp = |ch: char| is_debris(ch);
    lemma_collapse_no_runs(strip_phrases(title, phrases));
    lemma_lead_len(c, dp);
    let t = c.skip(crate::text::lead_len(c, dp) as int);
    lemma_tail_len(t, dp);
    let r = cleaned(title, phrases);
    let from = crate::text::lead_len(c, dp);
    assert forall|k: int| 0 <= k < r.len() - 1 implies !(is_debris(#[trigger] r[k]) && is_debris(
        r[k + 1],
    )) by {
        assert(r[k] == c[k + from]);
        assert(r[k + 1] == c[k + 1 + from]);
    }
    if r.len() > 0 {
        assert(r[0] == c[from as int]);
        assert(r.last() == t[t.len() - crate::text::tail_len(t, dp) - 1]);
    }
}

/// Reading `text` left to right, split at '\n': the finished lines and the
/// line still being read.
pub open spec fn line_scan(text: Seq<char>) -> (Seq<Seq<char>>, Seq<char>)
    decreases text.len(),
{
    if text.len() == 0 {
        (seq![], seq![])
    } else {
        let (done, cur) = line_scan(text.drop_last());
        if text.last() == '\n' {
            (done.push(cur), seq![])
        } else {
            (done, cur.push(text.last()))
        }
    }
}

/// The '\n'-separated lines of `text` (a trailing empty line included).
pub open spec fn split_lines(text: Seq<char>) -> Seq<Seq<char>> {
    line_scan(text).0.push(line_scan(text).1)
}

/// Whether a trimmed line holds a phrase: not blank, not a `#` comment.
pub open spec fn is_phrase_line(line: Seq<char>) -> bool {
    line.len() > 0 && line[0] != '#'
}

/// The phrases listed in the given lines: each line trimmed, blank lines
/// and comment lines dropped, order kept.
pub open spec fn phrases_in(lines: Seq<Seq<char>>) -> Seq<Seq<char>>
    decreases lines.len(),
{
    if lines.len() == 0 {
        seq![]
    } else {
        let prev = phrases_in(lines.drop_last());
        let t = trim_ws(lines.last());
        if is_phrase_line(t) {
            prev.push(t)
        } else {
            prev
        }
    }
}

fn push_phrase(out: &mut Vec<String>, cs: &Vec<char>, start: usize, end: usize)
    requires
        start <= end <= cs.len(),
    ensures
        final(out)@.map_values(|p: String| p@) == ({
            let t = trim_ws(cs@.subrange(start as int, end as int));
            if is_phrase_line(t) {
                old(out)@.map_values(|p: String| p@).push(t)
            } else {
                old(out)@.map_values(|p: String| p@)
            }
        }),
{
    let line = string_from_range(cs, start, end);
    let t = trim(line.as_str());
    let tc = chars_of(t.as_str());
    if tc.len() > 0 && tc[0] != '#' {
        let ghost before = out@;
        out.push(t);
        proof {
            assert(out@.map_values(|p: String| p@) =~= before.map_values(|p: String| p@).push(
                t@,
            ));
        }
    }
}

/// The phrase list held in the text of a cleanup file: one phrase per
/// line, surrounding white space trimmed, blank lines and lines starting
/// with '#' ignored.
pub fn parse_phrases(text: &str) -> (r: Vec<String>)
    ensures
        r@.map_values(|p: String| p@) == phrases_in(split_lines(text@)),
{
    let cs = chars_of(text);
    let mut out: Vec<String> = Vec::new();
    let mut start: usize = 0;
    let mut i: usize = 0;
    let ghost mut lines: Seq<Seq<char>> = seq![];
    proof {
        assert(out@.map_values(|p: String| p@) =~= seq![]);
        assert(cs@.take(0) =~= seq![]);
        assert(cs@.subrange(0, 0) =~= seq![]);
    }
    while i < cs.len()
        invariant
            start <= i <= cs.len(),
            line_scan(cs@.take(i as int)) == (lines, cs@.subrange(start as int, i as int)),
            out@.map_values(|p: String| p@) == phrases_in(lines),
        decreases cs.len() - i,
    {
        proof {
            assert(cs@.take(i + 1).drop_last() =~= cs@.take(i as int));
        }
        if cs[i] == '\n' {
            push_phrase(&mut out, &cs, start, i);
            proof {
                let old_lines = lines;
                lines = lines.push(cs@.subrange(start as int, i as int));
                assert(lines.drop_last() =~= old_lines);
                assert(cs@.subrange(i + 1, i + 1) =~= seq![]);
            }
            start = i + 1;
        } else {
            proof {
                assert(cs@.subrange(start as int, i + 1) =~= cs@.subrange(
                    start as int,
                    i as int,
                ).push(cs@[i as int]));
            }
        }
        i = i + 1;
    }
    push_phrase(&mut out, &cs, start, cs.len());
    proof {
        assert(cs@.take(cs.len() as int) =~= cs@);
        let all = lines.push(cs@.subrange(start as int, cs.len() as int));
        assert(all.drop_last() =~= lines);
    }
    out
}

} // verus!
