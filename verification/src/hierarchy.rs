//! What it means for a node to be the hierarchy of a part.

use vstd::prelude::*;
use std::rc::Rc;
use crate::bom::{find_from, lemma_find_from, node_of, Bom};
use crate::defects::{defect_among, defect_at, edges_of, first_edge, is_assembly};
use crate::part::{Part, PartId};
use crate::quantity::Quantity;
use crate::tables::{keyed_by_id, Edges};

verus! {

/// Whether `subs` holds an entry for part `id`.
pub open spec fn has_entry(subs: Seq<(PartId, Rc<Bom>)>, id: Seq<char>) -> bool {
    exists|j: int| 0 <= j < subs.len() && (#[trigger] subs[j]).0@ == id
}

/// Whether part `id` is listed by a line of `node` or of a node below it.
pub open spec fn lists(node: Bom, id: Seq<char>) -> bool
    decreases node,
{
    ||| exists|i: int|
        0 <= i < node.components@.len() && (#[trigger] node.components@[i]).part_id@ == id
    ||| exists|j: int|
        0 <= j < node.sub_boms@.len() && lists(*(#[trigger] node.sub_boms@[j]).1, id)
}

/// Whether no node below `node` lists the part it is entered under,
/// directly or by way of the nodes below it.
pub open spec fn cycle_free_below(node: Bom) -> bool
    decreases node,
{
    forall|j: int|
        0 <= j < node.sub_boms@.len() ==> {
            &&& !lists(*(#[trigger] node.sub_boms@[j]).1, node.sub_boms@[j].0@)
            &&& cycle_free_below(*node.sub_boms@[j].1)
        }
}

/// Whether no part occurs among its own ancestors: `node` does not list its
/// own part, and no node below it lists the part it is entered under.
pub open spec fn cycle_free(node: Bom) -> bool {
    !lists(node, node.root.id@) && cycle_free_below(node)
}

/// Whether `node` is the hierarchy of part `id`: its part is the catalog's,
/// its lines are the edges of `id` in their order, and its nodes are the
/// hierarchies of those edges' parts that are assemblies, one for each, in
/// the order in which the edges first name them.
pub open spec fn represents(
    node: Bom,
    deps: Map<Seq<char>, Edges>,
    parts: Map<Seq<char>, Part>,
    id: Seq<char>,
) -> bool
    decreases node,
{
    let edges = edges_of(deps, id);
    &&& parts.contains_key(id)
    &&& node.root@ == parts[id]@
    &&& node.quantity == Quantity::Units(1)
    &&& node.metadata.is_blank()
    &&& node.components@.len() == edges.len()
    &&& forall|i: int|
        0 <= i < edges.len() ==> {
            &&& (#[trigger] node.components@[i]).is_line(edges[i].0@, edges[i].1)
            &&& parts.contains_key(edges[i].0@)
            &&& has_entry(node.sub_boms@, edges[i].0@) <==> is_assembly(deps, edges[i].0@)
        }
    &&& forall|j: int|
        0 <= j < node.sub_boms@.len() ==> {
            let key = (#[trigger] node.sub_boms@[j]).0@;
            &&& exists|i: int| 0 <= i < edges.len() && (#[trigger] edges[i]).0@ == key
            &&& forall|k: int|
                0 <= k < j ==> first_edge(edges, (#[trigger] node.sub_boms@[k]).0@, 0)
                    < first_edge(edges, key, 0)
            &&& represents(*node.sub_boms@[j].1, deps, parts, key)
        }
}

/// `subs` holds an entry for `id` exactly where `find_from` finds one.
pub proof fn lemma_entry_found(subs: Seq<(PartId, Rc<Bom>)>, id: Seq<char>)
    ensures
        has_entry(subs, id) <==> 0 <= find_from(subs, id, 0) < subs.len(),
        has_entry(subs, id) ==> subs[find_from(subs, id, 0)].0@ == id,
{
    lemma_find_from(subs, id, 0);
}

/// A hierarchy without a cycle, reached by way of parts that it does not
/// list, holds no defect: the walk from its part finds none.
pub proof fn lemma_no_defect_below(
    node: Bom,
    deps: Map<Seq<char>, Edges>,
    parts: Map<Seq<char>, Part>,
    parent: Seq<char>,
    id: Seq<char>,
    path: Set<Seq<char>>,
)
    requires
        deps.dom().finite(),
        keyed_by_id(parts),
        represents(node, deps, parts, id),
        cycle_free(node),
        !path.contains(id),
        forall|c: Seq<char>| lists(node, c) ==> !path.contains(c),
    ensures
        defect_at(deps, parts, parent, id, path) is None,
    decreases node, edges_of(deps, id).len() + 2,
{
    if deps.contains_key(id) {
        lemma_no_defect_lines(node, deps, parts, id, path, 0);
    }
}

proof fn lemma_no_defect_lines(
    node: Bom,
    deps: Map<Seq<char>, Edges>,
    parts: Map<Seq<char>, Part>,
    id: Seq<char>,
    path: Set<Seq<char>>,
    from: int,
)
    requires
        deps.dom().finite(),
        keyed_by_id(parts),
        represents(node, deps, parts, id),
        cycle_free(node),
        !path.contains(id),
        forall|c: Seq<char>| lists(node, c) ==> !path.contains(c),
        0 <= from <= edges_of(deps, id).len(),
    ensures
        defect_among(deps, parts, id, from, path.insert(id)) is None,
    decreases node, 1 + edges_of(deps, id).len() - from,
{
    let edges = edges_of(deps, id);
    if from < edges.len() {
        let child = edges[from].0@;
        let below_path = path.insert(id);
        assert(node.components@[from].is_line(child, edges[from].1));
        if is_assembly(deps, child) {
            lemma_entry_found(node.sub_boms@, child);
            let j = find_from(node.sub_boms@, child, 0);
            let sub = *node.sub_boms@[j].1;
            assert(represents(sub, deps, parts, child));
            lemma_no_defect_below(sub, deps, parts, id, child, below_path);
        } else {
            assert(defect_at(deps, parts, id, child, below_path) is None);
        }
        lemma_no_defect_lines(node, deps, parts, id, path, from + 1);
    }
}

/// Whether `later` holds every node that `earlier` holds, under the same
/// part.
pub open spec fn keeps_all(
    earlier: Map<Seq<char>, Rc<Bom>>,
    later: Map<Seq<char>, Rc<Bom>>,
) -> bool {
    forall|k: Seq<char>| #[trigger]
        earlier.contains_key(k) ==> later.contains_key(k) && later[k] == earlier[k]
}

/// Whether every node below `node` is the node that `directory` holds for
/// the part it is entered under.
pub open spec fn drawn_from(node: Bom, directory: Map<Seq<char>, Rc<Bom>>) -> bool
    decreases node,
{
    forall|j: int|
        0 <= j < node.sub_boms@.len() ==> {
            let entry = #[trigger] node.sub_boms@[j];
            &&& directory.contains_key(entry.0@)
            &&& directory[entry.0@] == entry.1
            &&& drawn_from(*entry.1, directory)
        }
}

/// Whether the hierarchy holds one node for each part: wherever a part is
/// entered, at or below `root`, it is entered with the same node.
pub open spec fn one_node_per_part(root: Bom) -> bool {
    exists|directory: Map<Seq<char>, Rc<Bom>>| drawn_from(root, directory)
}

/// Nodes drawn from a directory are drawn from every directory that keeps
/// all of it.
pub proof fn lemma_drawn_from_larger(
    node: Bom,
    earlier: Map<Seq<char>, Rc<Bom>>,
    later: Map<Seq<char>, Rc<Bom>>,
)
    requires
        drawn_from(node, earlier),
        keeps_all(earlier, later),
    ensures
        drawn_from(node, later),
    decreases node,
{
    assert forall|j: int| 0 <= j < node.sub_boms@.len() implies {
        let entry = #[trigger] node.sub_boms@[j];
        &&& later.contains_key(entry.0@)
        &&& later[entry.0@] == entry.1
        &&& drawn_from(*entry.1, later)
    } by {
        let entry = node.sub_boms@[j];
        lemma_drawn_from_larger(node_of(entry.1), earlier, later);
    }
}

} // verus!
