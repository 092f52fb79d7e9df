// Filesystem-safe folder names for Nests.
//
// White space and commas collapse to a single '-', so "Test Book One"
// becomes "Test-Book-One"; characters that at least one common
// filesystem refuses outright are dropped rather than substituted.
use vstd::prelude::*;

use crate::text::{
    chars_of, is_white_space, lemma_lead_len_unique, lemma_tail_len, lemma_tail_len_unique,
    string_from_range, tail_len, trim, trim_end_by, trim_ws, white_space,
};

verus! {

/// White space and commas separate the words of a slug.
pub open spec fn is_slug_separator(c: char) -> bool {
    is_white_space(c) || c == ','
}

/// Characters that NTFS/exFAT refuse in a file name.
pub open spec fn is_forbidden(c: char) -> bool {
    ||| c == '/'
    ||| c == '\\'
    ||| c == ':'
    ||| c == '*'
    ||| c == '?'
    ||| c == '"'
    ||| c == '<'
    ||| c == '>'
    ||| c == '|'
}

fn forbidden(c: char) -> (b: bool)
    ensures
        b == is_forbidden(c),
{
    c == '/' || c == '\\' || c == ':' || c == '*' || c == '?' || c == '"' || c == '<' || c
        == '>' || c == '|'
}

/// Reading `s` left to right: the slug built so far, and whether its last
/// character is a '-' that stands for a run of separators.
pub open spec fn slug_scan(s: Seq<char>) -> (Seq<char>, bool)
    decreases s.len(),
{
    if s.len() == 0 {
        (seq![], false)
    } else {
        let (out, pending) = slug_scan(s.drop_last());
        let c = s.last();
        if is_slug_separator(c) {
            if !pending && out.len() > 0 {
                (out.push('-'), true)
            } else {
                (out, pending)
            }
        } else if is_forbidden(c) {
            (out, pending)
        } else {
            (out.push(c), false)
        }
    }
}

/// The slug of `s`: trimmed, separators collapsed to '-', forbidden
/// characters dropped, trailing '-' removed.
pub open spec fn slug_of(s: Seq<char>) -> Seq<char> {
    trim_end_by(slug_scan(trim_ws(s)).0, |c: char| c == '-')
}

/// Filesystem-safe slug of a title (see `slug_of`).
pub fn slugify(s: &str) -> (r: String)
    ensures
        r@ == slug_of(s@),
{
    let t = trim(s);
    let cs = chars_of(t.as_str());
    let mut out: Vec<char> = Vec::new();
    let mut last_was_sep = false;
    let mut i: usize = 0;
    while i < cs.len()
        invariant
            i <= cs.len(),
            (out@, last_was_sep) == slug_scan(cs@.take(i as int)),
        decreases cs.len() - i,
    {
        let c = cs[i];
        proof {
            assert(cs@.take(i + 1).drop_last() =~= cs@.take(i as int));
        }
        if white_space(c) || c == ',' {
            if !last_was_sep && out.len() > 0 {
                out.push('-');
                last_was_sep = true;
            }
        } else if forbidden(c) {
        } else {
            out.push(c);
            last_was_sep = false;
        }
        i = i + 1;
    }
    proof {
        assert(cs@.take(cs.len() as int) =~= cs@);
    }
    let mut end = out.len();
    while end > 0 && out[end - 1] == '-'
        invariant
            end <= out.len(),
            forall|k: int| end <= k < out.len() ==> #[trigger] out@[k] == '-',
        decreases end,
    {
        end = end - 1;
    }
    proof {
        lemma_tail_len_unique(out@, |c: char| c == '-', out.len() - end);
    }
    string_from_range(&out, 0, end)
}

/// Every character of the scan is '-' or a character of the input that is
/// neither a separator nor forbidden, and it never ends in a '-' that
/// stands for a separator run unless `pending` says so.
proof fn lemma_scan_chars(s: Seq<char>)
    ensures
        forall|k: int|
            0 <= k < slug_scan(s).0.len() ==> {
                let c = #[trigger] slug_scan(s).0[k];
                c == '-' || (!is_slug_separator(c) && !is_forbidden(c))
            },
    decreases s.len(),
{
    if s.len() > 0 {
        let prev = slug_scan(s.drop_last()).0;
        lemma_scan_chars(s.drop_last());
        let cur = slug_scan(s).0;
        assert forall|k: int| 0 <= k < cur.len() implies {
            let c = #[trigger] cur[k];
            c == '-' || (!is_slug_separator(c) && !is_forbidden(c))
        } by {
            if k < prev.len() {
                assert(cur[k] == prev[k]);
            }
        }
    }
}

/// A sequence of characters that are neither separators nor forbidden
/// scans to itself.
proof fn lemma_scan_plain(s: Seq<char>)
    requires
        forall|k: int| 0 <= k < s.len() ==> !is_slug_separator(#[trigger] s[k]) && !is_forbidden(
            s[k],
        ),
    ensures
        slug_scan(s) == (s, false) || (s.len() == 0 && slug_scan(s) == (s, false)),
    decreases s.len(),
{
    if s.len() > 0 {
        assert forall|k: int| 0 <= k < s.drop_last().len() implies !is_slug_separator(
            #[trigger] s.drop_last()[k],
        ) && !is_forbidden(s.drop_last()[k]) by {
            assert(s.drop_last()[k] == s[k]);
        }
        lemma_scan_plain(s.drop_last());
        assert(s.drop_last().push(s.last()) =~= s);
    }
}

/// Law: a slug holds no white space, no comma and no character that a
/// common filesystem refuses, and it never ends with '-'.
pub proof fn law_slug_is_filesystem_safe(s: Seq<char>)
    ensures
        forall|k: int|
            0 <= k < slug_of(s).len() ==> !is_slug_separator(#[trigger] slug_of(s)[k])
                && !is_forbidden(slug_of(s)[k]),
        slug_of(s).len() > 0 ==> slug_of(s).last() != '-',
{
    let scanned = slug_scan(trim_ws(s)).0;
    let p = |c: char| c == '-';
    lemma_scan_chars(trim_ws(s));
    lemma_tail_len(scanned, p);
    assert forall|k: int| 0 <= k < slug_of(s).len() implies !is_slug_separator(
        #[trigger] slug_of(s)[k],
    ) && !is_forbidden(slug_of(s)[k]) by {
        assert(slug_of(s)[k] == scanned[k]);
    }
    if slug_of(s).len() > 0 {
        assert(slug_of(s).last() == scanned[scanned.len() - tail_len(scanned, p) - 1]);
    }
}

/// Law: slugifying a slug changes nothing.
pub proof fn law_slug_idempotent(s: Seq<char>)
    ensures
        slug_of(slug_of(s)) == slug_of(s),
{
    let t = slug_of(s);
    law_slug_is_filesystem_safe(s);
    let ws = |c: char| is_white_space(c);
    let dash = |c: char| c == '-';
    lemma_lead_len_unique(t, ws, 0);
    assert(t.skip(0) =~= t);
    lemma_tail_len_unique(t, ws, 0);
    assert(t.take(t.len() as int) =~= t);
    assert(trim_ws(t) == t);
    lemma_scan_plain(t);
    lemma_tail_len_unique(t, dash, 0);
}

} // verus!
