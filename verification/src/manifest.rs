// The parsed form of a `nest` / `.mailroom` file: one node of the
// Johnny Decimal tree, its routing rules and its Mailroom behaviour.
use vstd::prelude::*;

use crate::text::{owned, push_all, push_char};

verus! {

/// What kind of node a manifest describes.
#[derive(Debug, Clone, Copy, PartialEq, Eq, Structural)]
pub enum NodeKind {
    Domain,
    Collection,
    Leaf,
    Log,
    Archive,
    Index,
    Inferred,
}

/// How a node stores what it receives.
#[derive(Debug, Clone, Copy, PartialEq, Eq, Structural)]
pub enum StoreKind {
    Overwrite,
    Append,
}

/// `[routing]` rules: data type → JD address, in file order, each data
/// type at most once.
#[derive(Debug, Clone)]
pub struct RoutingConfig {
    pub rules: Vec<(String, String)>,
}

/// `[mailroom]` switches of a node.
#[derive(Debug, Clone)]
pub struct MailroomConfig {
    pub active: bool,
    pub requires_auth: bool,
    pub notify_on_write: bool,
    pub ai_classify: bool,
    /// A Rookery: envelopes addressed here mint a child Nest each.
    pub mints_subnests: bool,
    /// How a Rookery addresses the children it mints (`content_hash`
    /// when absent).
    pub child_addressing: Option<String>,
}

/// One node of the tree, as its `nest` file describes it.
#[derive(Debug, Clone)]
pub struct Manifest {
    pub id: String,
    pub name: String,
    /// Path relative to the library root, e.g. "34_My-story/34.2_Journal";
    /// `{id}_{name}` when absent.
    pub path: Option<String>,
    pub kind: NodeKind,
    /// Data types the node accepts; empty means anything.
    pub accepts: Vec<String>,
    pub store: Option<StoreKind>,
    pub routing: Option<RoutingConfig>,
    pub library: Option<String>,
    pub mailroom: Option<MailroomConfig>,
    pub about: Option<String>,
    pub known_tags: Vec<String>,
    pub call_number: Option<String>,
}

/// Where a node lives under the library root.
pub open spec fn effective_path_of(m: Manifest) -> Seq<char> {
    match m.path {
        Some(p) => p@,
        None => m.id@ + seq!['_'] + m.name@,
    }
}

/// Whether a node mints a child Nest for each envelope it receives.
pub open spec fn mints_subnests_of(m: Manifest) -> bool {
    match m.mailroom {
        Some(c) => c.mints_subnests,
        None => false,
    }
}

impl Manifest {
    /// Where this node lives under the library root: its explicit `path`,
    /// or `{id}_{name}`.
    pub fn effective_path(&self) -> (r: String)
        ensures
            r@ == effective_path_of(*self),
    {
        match &self.path {
            Some(p) => owned(p.as_str()),
            None => {
                let mut r = owned(self.id.as_str());
                push_char(&mut r, '_');
                push_all(&mut r, self.name.as_str());
                r
            },
        }
    }

    /// Whether this node is a Rookery.
    pub fn mints_subnests(&self) -> (b: bool)
        ensures
            b == mints_subnests_of(*self),
    {
        match &self.mailroom {
            Some(c) => c.mints_subnests,
            None => false,
        }
    }
}

/// A manifest with nothing but an id, a name and a kind.
pub open spec fn is_blank(m: Manifest, id: Seq<char>, name: Seq<char>, kind: NodeKind) -> bool {
    &&& m.id@ == id
    &&& m.name@ == name
    &&& m.path is None
    &&& m.kind == kind
    &&& m.accepts@.len() == 0
    &&& m.store is None
    &&& m.routing is None
    &&& m.library is None
    &&& m.mailroom is None
    &&& m.about is None
    &&& m.known_tags@.len() == 0
    &&& m.call_number is None
}

/// A fresh manifest holding only an id, a name and a kind.
pub fn blank_manifest(id: &str, name: &str, kind: NodeKind) -> (m: Manifest)
    ensures
        is_blank(m, id@, name@, kind),
{
    Manifest {
        id: owned(id),
        name: owned(name),
        path: None,
        kind,
        accepts: Vec::new(),
        store: None,
        routing: None,
        library: None,
        mailroom: None,
        about: None,
        known_tags: Vec::new(),
        call_number: None,
    }
}

} // verus!
