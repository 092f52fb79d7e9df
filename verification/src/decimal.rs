// Johnny.Decimal records: a code such as "13.4-A-SOIL" names a place in
// the tree; its depth is the number of separators ('.' or '-') and its
// parent is the code up to the last separator.
use vstd::prelude::*;

use crate::envelope::{Timestamp, now};
use crate::text::{chars_of, owned, string_from_range};

verus! {

/// A record of the Johnny.Decimal tree.
#[derive(Debug, Clone)]
pub struct DecimalRecord {
    /// The store's id for the record, once it has one.
    pub id: Option<String>,
    /// The code, e.g. "13.4-A-SPECIFIC-TERM".
    pub code: String,
    pub title: String,
    pub content: String,
    /// 0 for a category, 1 for an id, 2 and more for a sub-item.
    pub depth: u32,
    /// The code of the parent ("13.4" for "13.4-A").
    pub parent_code: Option<String>,
    pub tags: Vec<String>,
    /// Where the record's vector lives, for retrieval.
    pub vector_id: Option<String>,
    /// Links to the world outside (a cabinet, a script path), each key
    /// once; a new record has none.
    pub external_context: Vec<(String, String)>,
    pub created_at: Timestamp,
    pub updated_at: Timestamp,
}

/// A code separator.
pub open spec fn is_separator(c: char) -> bool {
    c == '.' || c == '-'
}

/// The number of separators in a code.
pub open spec fn separators(s: Seq<char>) -> nat
    decreases s.len(),
{
    if s.len() == 0 {
        0
    } else {
        separators(s.drop_last()) + if is_separator(s.last()) {
            1nat
        } else {
            0nat
        }
    }
}

/// The position of the last separator, if any.
pub open spec fn last_separator(s: Seq<char>) -> Option<int>
    decreases s.len(),
{
    if s.len() == 0 {
        None
    } else if is_separator(s.last()) {
        Some(s.len() - 1)
    } else {
        last_separator(s.drop_last())
    }
}

impl DecimalRecord {
    /// Whether the record is a process (a leaf, two or more levels deep)
    /// rather than a folder.
    pub fn is_process(&self) -> (r: bool)
        ensures
            r == (self.depth >= 2),
    {
        self.depth >= 2
    }
}

/// The service that makes records.
pub struct DecimalService;

proof fn lemma_separators_bound(s: Seq<char>)
    ensures
        separators(s) <= s.len(),
    decreases s.len(),
{
    if s.len() > 0 {
        lemma_separators_bound(s.drop_last());
    }
}

impl DecimalService {
    /// The record for `code` with this content and title: its depth is the
    /// number of separators in the code (as a `u32`), its parent the code
    /// up to the last separator (none for a top-level code), stamped now,
    /// with no id, tags, vector or links. Every code is accepted.
    pub fn parse_code(input: &str, content: &str, title: &str) -> (r: Result<DecimalRecord, String>)
        ensures
            r matches Ok(rec) && rec.code@ == input@ && rec.title@ == title@ && rec.content@
                == content@ && rec.depth == separators(input@) as u32 && match last_separator(input@) {
                Some(i) => rec.parent_code matches Some(p) && p@ == input@.take(i),
                None => rec.parent_code is None,
            } && rec.id is None && rec.tags@.len() == 0 && rec.vector_id is None
                && rec.external_context@.len() == 0,
    {
        let cs = chars_of(input);
        let mut count: usize = 0;
        let mut last: Option<usize> = None;
        let mut i: usize = 0;
        while i < cs.len()
            invariant
                i <= cs@.len(),
                count == separators(cs@.take(i as int)),
                last == match last_separator(cs@.take(i as int)) {
                    Some(k) => Some(k as usize),
                    None => None::<usize>,
                },
                match last_separator(cs@.take(i as int)) {
                    Some(k) => 0 <= k < i,
                    None => true,
                },
            decreases cs.len() - i,
        {
            proof {
                assert(cs@.take(i + 1).drop_last() =~= cs@.take(i as int));
                assert(cs@.take(i + 1).last() == cs@[i as int]);
                lemma_separators_bound(cs@.take(i as int));
            }
            if cs[i] == '.' || cs[i] == '-' {
                count = count + 1;
                last = Some(i);
            }
            i = i + 1;
        }
        proof {
            assert(cs@.take(cs@.len() as int) =~= cs@);
        }
        let parent_code = match last {
            Some(k) => {
                proof {
                    assert(cs@.subrange(0, k as int) =~= input@.take(k as int));
                }
                Some(string_from_range(&cs, 0, k))
            },
            None => None,
        };
        let created_at = now();
        let updated_at = now();
        Ok(
            DecimalRecord {
                id: None,
                code: owned(input),
                title: owned(title),
                content: owned(content),
                depth: count as u32,
                parent_code,
                tags: Vec::new(),
                vector_id: None,
                external_context: Vec::new(),
                created_at,
                updated_at,
            },
        )
    }
}

/// Law: a code's parent sits exactly one level up: cutting at the last
/// separator removes exactly one separator.
pub proof fn law_parent_is_one_level_up(s: Seq<char>)
    ensures
        last_separator(s) matches Some(i) ==> 0 <= i < s.len() && separators(s.take(i)) + 1
            == separators(s),
    decreases s.len(),
{
    if s.len() > 0 {
        let t = s.drop_last();
        if is_separator(s.last()) {
            assert(s.take(s.len() - 1) =~= t);
        } else {
            law_parent_is_one_level_up(t);
            if let Some(i) = last_separator(t) {
                assert(t.take(i) =~= s.take(i));
            }
        }
    }
}

} // verus!
