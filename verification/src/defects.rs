//! What can be wrong with the tables a hierarchy is built from, and the walk
//! that finds it.
//!
//! The walk goes depth first from a root: it looks at a part before the
//! edges of the part, and at the edges in the order they are listed. It
//! stops at the first part that is on the way from the root to itself, and
//! at the first part that the catalog lacks.

use vstd::prelude::*;
use crate::error::{edge_text, BomError};
use crate::part::{Part, PartId};
use crate::quantity::Quantity;
use crate::tables::Edges;

verus! {

/// The edges that `deps` lists for part `id`: none where it has no entry.
pub open spec fn edges_of(deps: Map<Seq<char>, Edges>, id: Seq<char>) -> Seq<(PartId, Quantity)> {
    if deps.contains_key(id) {
        deps[id]@
    } else {
        Seq::empty()
    }
}

/// Whether part `id` is an assembly: `deps` lists at least one edge for it.
pub open spec fn is_assembly(deps: Map<Seq<char>, Edges>, id: Seq<char>) -> bool {
    edges_of(deps, id).len() > 0
}

/// The place of the first edge for part `id` at or after `from`, and the
/// number of edges where there is none.
pub open spec fn first_edge(edges: Seq<(PartId, Quantity)>, id: Seq<char>, from: int) -> int
    decreases edges.len() - from,
{
    if from < 0 || from >= edges.len() {
        edges.len() as int
    } else if edges[from].0@ == id {
        from
    } else {
        first_edge(edges, id, from + 1)
    }
}

/// `first_edge` answers with the first place at or after `from` that holds
/// an edge for `id`.
pub proof fn lemma_first_edge(edges: Seq<(PartId, Quantity)>, id: Seq<char>, from: int)
    requires
        0 <= from <= edges.len(),
    ensures
        from <= first_edge(edges, id, from) <= edges.len(),
        first_edge(edges, id, from) < edges.len() ==> edges[first_edge(edges, id, from)].0@ == id,
        forall|k: int| from <= k < first_edge(edges, id, from) ==> (#[trigger] edges[k]).0@ != id,
    decreases edges.len() - from,
{
    if from < edges.len() && edges[from].0@ != id {
        lemma_first_edge(edges, id, from + 1);
    }
}

/// What can be wrong with the tables.
pub ghost enum Defect {
    /// The part is referenced and absent from the catalog.
    Missing(Seq<char>),
    /// The first part lists the second, which is the first itself or one of
    /// the parts on the way from the root to it.
    Cycle(Seq<char>, Seq<char>),
}

impl Defect {
    /// Whether `error` reports this defect.
    pub open spec fn reported_as(self, error: BomError) -> bool {
        match self {
            Defect::Missing(id) => error matches BomError::PartNotFound(text) && text@ == id,
            Defect::Cycle(parent, child) => error matches BomError::CircularDependency(text)
                && text@ == edge_text(parent, child),
        }
    }
}

/// The first defect that a depth-first walk meets at part `id` or below it,
/// where `id` is reached from `parent` by way of the parts in `path`.
///
/// The walk looks at a part before its edges, and at the edges in the order
/// they are listed.
pub open spec fn defect_at(
    deps: Map<Seq<char>, Edges>,
    parts: Map<Seq<char>, Part>,
    parent: Seq<char>,
    id: Seq<char>,
    path: Set<Seq<char>>,
) -> Option<Defect>
    decreases deps.dom().difference(path).len(), 0nat,
    when deps.dom().finite()
{
    if path.contains(id) {
        Some(Defect::Cycle(parent, id))
    } else if !parts.contains_key(id) {
        Some(Defect::Missing(id))
    } else if !deps.contains_key(id) {
        None
    } else {
        proof {
            deps.dom().lemma_set_insert_diff_decreases(path, id);
        }
        defect_among(deps, parts, id, 0, path.insert(id))
    }
}

/// The first defect that the walk meets at or below the edges of `parent`
/// from edge `from` on, where `path` holds `parent` and the parts on the way
/// to it.
pub open spec fn defect_among(
    deps: Map<Seq<char>, Edges>,
    parts: Map<Seq<char>, Part>,
    parent: Seq<char>,
    from: int,
    path: Set<Seq<char>>,
) -> Option<Defect>
    decreases deps.dom().difference(path).len(), 1 + edges_of(deps, parent).len() - from,
    when deps.dom().finite()
{
    let edges = edges_of(deps, parent);
    if from < 0 || from >= edges.len() {
        None
    } else {
        match defect_at(deps, parts, parent, edges[from].0@, path) {
            Some(defect) => Some(defect),
            None => defect_among(deps, parts, parent, from + 1, path),
        }
    }
}

/// The first defect that a depth-first walk from part `root` meets.
pub open spec fn first_defect(
    deps: Map<Seq<char>, Edges>,
    parts: Map<Seq<char>, Part>,
    root: Seq<char>,
) -> Option<Defect> {
    defect_at(deps, parts, root, root, Set::empty())
}

} // verus!
