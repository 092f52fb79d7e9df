// Paths as the library handles them: '/'-separated strings.
use vstd::prelude::*;

use crate::text::{chars_of, owned, push_all, push_char};

verus! {

/// `PathBuf::push` on a Unix path: an absolute `child` replaces `parent`;
/// otherwise `child` is appended, with a '/' in between unless `parent`
/// is empty or already ends with one.
pub open spec fn joined(parent: Seq<char>, child: Seq<char>) -> Seq<char> {
    if child.len() > 0 && child[0] == '/' {
        child
    } else if parent.len() == 0 || parent.last() == '/' {
        parent + child
    } else {
        parent + seq!['/'] + child
    }
}

/// `parent.join(child)` (see `joined`).
pub fn join_path(parent: &str, child: &str) -> (r: String)
    ensures
        r@ == joined(parent@, child@),
{
    let c = chars_of(child);
    if c.len() > 0 && c[0] == '/' {
        return owned(child);
    }
    let p = chars_of(parent);
    let mut r = owned(parent);
    if !(p.len() == 0 || p[p.len() - 1] == '/') {
        push_char(&mut r, '/');
    }
    push_all(&mut r, child);
    r
}

/// What `Path::strip_prefix` gives for `path` and `base`, rendered back to
/// a string.
pub uninterp spec fn stripped_path(path: Seq<char>, base: Seq<char>) -> Option<Seq<char>>;

/// `Path::new(path).strip_prefix(base)`: the rest of `path` once the
/// components of `base` are removed from its front, or `None` when `base`
/// is not a component-wise prefix of `path`. Its result is a function of
/// the two paths alone; nothing more about it is stated here.
#[verifier::external_body]
pub(crate) fn strip_path_prefix(path: &str, base: &str) -> (r: Option<String>)
    ensures
        r matches Some(s) ==> stripped_path(path@, base@) == Some(s@),
        r is None ==> stripped_path(path@, base@) is None,
{
    std::path::Path::new(path).strip_prefix(base).ok().map(|p| p.to_string_lossy().into_owned())
}

/// What `Path::file_name` gives for a path, as text.
pub uninterp spec fn file_name_of(path: Seq<char>) -> Option<Seq<char>>;

/// `Path::new(path).file_name()` as UTF-8 text: the last component of the
/// path; `None` when the path ends in `..`, is a root, or that component
/// is not valid UTF-8. Its result depends on the path alone.
#[verifier::external_body]
pub(crate) fn file_name(path: &str) -> (r: Option<String>)
    ensures
        match r {
            Some(n) => file_name_of(path@) == Some(n@),
            None => file_name_of(path@) is None,
        },
{
    std::path::Path::new(path).file_name().and_then(|n| n.to_str()).map(|n| n.to_string())
}

/// `s` with every '\\' turned into '/'.
pub open spec fn forward_slashes(s: Seq<char>) -> Seq<char> {
    s.map_values(|c: char| if c == '\\' { '/' } else { c })
}

pub fn to_forward_slashes(s: &str) -> (r: String)
    ensures
        r@ == forward_slashes(s@),
{
    let cs = chars_of(s);
    let mut r = String::new();
    let mut i: usize = 0;
    while i < cs.len()
        invariant
            i <= cs.len(),
            r@ == forward_slashes(cs@.take(i as int)),
        decreases cs.len() - i,
    {
        let c = if cs[i] == '\\' {
            '/'
        } else {
            cs[i]
        };
        push_char(&mut r, c);
        proof {
            assert(forward_slashes(cs@.take(i + 1)) =~= forward_slashes(cs@.take(i as int)).push(
                c,
            ));
        }
        i = i + 1;
    }
    proof {
        assert(cs@.take(cs.len() as int) =~= cs@);
    }
    r
}

} // verus!
