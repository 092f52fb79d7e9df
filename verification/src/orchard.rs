// A fresh Orchard: a schema tree of Nests, and where each Station (the
// directory and nest file of one Nest) goes on disk.
//
// "Fresh trees" policy: an existing nest file always wins; materializing
// only fills in what is missing. The caller does the writing.
use vstd::prelude::*;

use crate::manifest::{Manifest, NodeKind, effective_path_of, is_blank, blank_manifest};
use crate::paths::{join_path, joined};
use crate::route::Route;

verus! {

/// One node of the schema tree: a manifest and the Nests beneath it.
#[derive(Debug)]
pub struct Nest {
    pub manifest: Manifest,
    pub children: Vec<Nest>,
}

/// A node of the schema file (`schema.ron`): a JD code, a name, a note,
/// and the nodes beneath it.
#[derive(Debug)]
pub struct SchemaNode {
    pub code: String,
    pub name: String,
    pub note: String,
    pub children: Vec<SchemaNode>,
}

/// Whether `n` is the Nest tree of schema node `s`: a blank, inferred
/// manifest with the node's code and name, over the children's trees.
pub open spec fn grown_from(n: Nest, s: SchemaNode) -> bool
    decreases s,
{
    &&& is_blank(n.manifest, s.code@, s.name@, NodeKind::Inferred)
    &&& n.children@.len() == s.children@.len()
    &&& forall|i: int| 0 <= i < s.children@.len() ==> grown_from(#[trigger] n.children@[i], s.children@[i])
}

/// The Nest tree of a schema node: every node becomes a blank manifest of
/// kind `inferred` with the node's code as id and its name.
pub fn schema_to_orchard(node: &SchemaNode) -> (n: Nest)
    ensures
        grown_from(n, *node),
    decreases node,
{
    let manifest = blank_manifest(node.code.as_str(), node.name.as_str(), NodeKind::Inferred);
    let mut children: Vec<Nest> = Vec::new();
    let mut i: usize = 0;
    while i < node.children.len()
        invariant
            i <= node.children@.len(),
            children@.len() == i,
            forall|k: int| 0 <= k < i ==> grown_from(#[trigger] children@[k], node.children@[k]),
        decreases node.children.len() - i,
    {
        let c = schema_to_orchard(&node.children[i]);
        children.push(c);
        i = i + 1;
    }
    Nest { manifest, children }
}

/// A Station to materialize: the directory and the manifest whose nest
/// file goes there (only when none is there yet).
#[derive(Debug, Clone)]
pub struct Station<'a> {
    pub dir: String,
    pub manifest: &'a Manifest,
}

/// The Stations of a Nest under `parent`, parent first: the Nest's own
/// directory is `parent` joined with its effective path, and its children
/// go under that directory.
pub open spec fn stations_of(n: Nest, parent: Seq<char>) -> Seq<(Seq<char>, Manifest)>
    decreases n, n.children@.len() + 1,
{
    let dir = joined(parent, effective_path_of(n.manifest));
    seq![(dir, n.manifest)] + children_stations(n, dir, n.children@.len() as int)
}

/// The Stations of the first `k` children of `n`, each under `dir`.
pub open spec fn children_stations(n: Nest, dir: Seq<char>, k: int) -> Seq<(Seq<char>, Manifest)>
    decreases n, k,
{
    if k <= 0 || k > n.children@.len() {
        Seq::empty()
    } else {
        children_stations(n, dir, k - 1) + stations_of(n.children@[k - 1], dir)
    }
}

/// The Stations of a list of Nests, each under `parent`, in order.
pub open spec fn forest_stations(ns: Seq<Nest>, parent: Seq<char>) -> Seq<(Seq<char>, Manifest)>
    decreases ns.len(),
{
    if ns.len() == 0 {
        Seq::empty()
    } else {
        forest_stations(ns.drop_last(), parent) + stations_of(ns.last(), parent)
    }
}

/// Stations as text and manifest.
pub open spec fn stations_view(s: Seq<Station>) -> Seq<(Seq<char>, Manifest)> {
    s.map_values(|x: Station| (x.dir@, *x.manifest))
}

/// Appends the Stations of `node` under `parent` to `out`.
fn collect_stations<'a>(node: &'a Nest, parent: &str, out: &mut Vec<Station<'a>>)
    ensures
        stations_view(final(out)@) == stations_view(old(out)@) + stations_of(*node, parent@),
    decreases node,
{
    let dir = join_path(parent, node.manifest.effective_path().as_str());
    let ghost start = stations_view(out@);
    out.push(Station { dir: join_path(parent, node.manifest.effective_path().as_str()), manifest: &node.manifest });
    proof {
        assert(stations_view(out@) =~= start + seq![(dir@, node.manifest)]);
        assert(children_stations(*node, dir@, 0) =~= Seq::empty());
    }
    let mut i: usize = 0;
    while i < node.children.len()
        invariant
            i <= node.children@.len(),
            stations_view(out@) == start + seq![(dir@, node.manifest)] + children_stations(*node, dir@, i as int),
        decreases node.children.len() - i,
    {
        let ghost before = stations_view(out@);
        collect_stations(&node.children[i], dir.as_str(), out);
        proof {
            assert(stations_view(out@) =~= start + seq![(dir@, node.manifest)] + children_stations(*node, dir@, i + 1));
        }
        i = i + 1;
    }
    proof {
        assert(start + seq![(dir@, node.manifest)] + children_stations(*node, dir@, node.children@.len() as int)
            =~= start + stations_of(*node, parent@));
    }
}

/// A collection of Nests: the in-memory shape of an Orchard's schema
/// tree.
#[derive(Debug)]
pub struct Orchard {
    pub nests: Vec<Nest>,
}

impl Orchard {
    /// An Orchard of these Nests.
    pub fn new(nests: Vec<Nest>) -> (o: Orchard)
        ensures
            o.nests == nests,
    {
        Orchard { nests }
    }

    /// The Stations to materialize under `vault_root`, every Nest of the
    /// tree before its children; the caller creates each directory and
    /// writes each nest file that is not there yet.
    pub fn materialize<'a>(&'a self, vault_root: &str) -> (r: Vec<Station<'a>>)
        ensures
            stations_view(r@) == forest_stations(self.nests@, vault_root@),
    {
        let mut out: Vec<Station<'a>> = Vec::new();
        let mut i: usize = 0;
        proof {
            assert(stations_view(out@) =~= forest_stations(self.nests@.take(0), vault_root@));
        }
        while i < self.nests.len()
            invariant
                i <= self.nests@.len(),
                stations_view(out@) == forest_stations(self.nests@.take(i as int), vault_root@),
            decreases self.nests.len() - i,
        {
            collect_stations(&self.nests[i], vault_root, &mut out);
            proof {
                assert(self.nests@.take(i + 1).drop_last() =~= self.nests@.take(i as int));
            }
            i = i + 1;
        }
        proof {
            assert(self.nests@.take(self.nests@.len() as int) =~= self.nests@);
        }
        out
    }
}

/// The schema forest as Nest trees, in order.
pub fn schema_forest(nodes: &Vec<SchemaNode>) -> (r: Vec<Nest>)
    ensures
        r@.len() == nodes@.len(),
        forall|i: int| 0 <= i < nodes@.len() ==> grown_from(#[trigger] r@[i], nodes@[i]),
{
    let mut out: Vec<Nest> = Vec::new();
    let mut i: usize = 0;
    while i < nodes.len()
        invariant
            i <= nodes@.len(),
            out@.len() == i,
            forall|k: int| 0 <= k < i ==> grown_from(#[trigger] out@[k], nodes@[k]),
        decreases nodes.len() - i,
    {
        out.push(schema_to_orchard(&nodes[i]));
        i = i + 1;
    }
    out
}

/// The Orchard a schema describes: one Nest tree per top-level schema
/// node, in order. Materializing it (see `Orchard::materialize`) fills in
/// whatever the vault lacks.
pub fn generate_fresh_tree(schema: &Vec<SchemaNode>) -> (o: Orchard)
    ensures
        o.nests@.len() == schema@.len(),
        forall|i: int| 0 <= i < schema@.len() ==> grown_from(#[trigger] o.nests@[i], schema@[i]),
{
    Orchard::new(schema_forest(schema))
}

/// The Dodo: the carrier that takes envelopes from Nest to Nest along a
/// Route.
pub struct Dodo {
    pub top_nest: Nest,
    pub available_nests: Vec<Nest>,
    pub current_route: Route,
}

impl Dodo {
    /// The Nest the Dodo starts from.
    pub fn get_home_nest(&self) -> (r: &Nest)
        ensures
            *r == self.top_nest,
    {
        &self.top_nest
    }
}

} // verus!
