//! What one unit of a part takes according to the dependency table alone,
//! and that the explosion of the part's hierarchy reports exactly that.

use vstd::prelude::*;
use crate::bom::Bom;
use crate::defects::{edges_of, is_assembly};
use crate::explosion::{explosion, Explosion, Tally};
use crate::hierarchy::{cycle_free, cycle_free_below, lemma_entry_found, lists, represents};
use crate::laws::{law_totals_are_requirements, requirement};
use crate::part::Part;
use crate::tables::{keyed_by_id, Edges};
use crate::totals::amount_of;

verus! {

/// How much of the purchased part `target` the edges of `parent` from edge
/// `from` on take, where one unit of `parent` is taken `multiplier` times:
/// the sum, over every chain of edges from those edges down to an edge for
/// `target`, of the product of the quantities along the chain. No bound
/// applies.
///
/// `path` holds `parent` and the parts on the way to it; an edge back to
/// one of them is not followed.
pub open spec fn table_need(
    deps: Map<Seq<char>, Edges>,
    parent: Seq<char>,
    from: int,
    multiplier: nat,
    target: Seq<char>,
    path: Set<Seq<char>>,
) -> nat
    decreases deps.dom().difference(path).len(), edges_of(deps, parent).len() - from,
    when deps.dom().finite()
{
    let edges = edges_of(deps, parent);
    if from < 0 || from >= edges.len() {
        0
    } else {
        let child = edges[from].0@;
        let needed = multiplier * edges[from].1.count();
        let here = if !is_assembly(deps, child) {
            if child == target {
                needed
            } else {
                0
            }
        } else if path.contains(child) {
            0
        } else {
            proof {
                deps.dom().lemma_set_insert_diff_decreases(path, child);
            }
            table_need(deps, child, 0, needed, target, path.insert(child))
        };
        here + table_need(deps, parent, from + 1, multiplier, target, path)
    }
}

/// What the lines of a hierarchy take is what the edges of its part take
/// according to the table.
pub proof fn lemma_need_of_hierarchy(
    node: Bom,
    deps: Map<Seq<char>, Edges>,
    parts: Map<Seq<char>, Part>,
    id: Seq<char>,
    from: int,
    multiplier: nat,
    target: Seq<char>,
    path: Set<Seq<char>>,
)
    requires
        deps.dom().finite(),
        represents(node, deps, parts, id),
        cycle_free_below(node),
        forall|c: Seq<char>| lists(node, c) ==> !path.contains(c),
        0 <= from,
    ensures
        requirement(node, from, multiplier, target, Tally::Purchased) == table_need(
            deps,
            id,
            from,
            multiplier,
            target,
            path,
        ),
    decreases node, node.components@.len() - from,
{
    let edges = edges_of(deps, id);
    if from < edges.len() {
        let child = edges[from].0@;
        let needed = multiplier * edges[from].1.count();
        assert(node.components@[from].is_line(child, edges[from].1));
        lemma_entry_found(node.sub_boms@, child);
        if is_assembly(deps, child) {
            let sub = node.sub_node(child);
            lemma_need_of_hierarchy(
                sub,
                deps,
                parts,
                child,
                0,
                needed,
                target,
                path.insert(child),
            );
        }
        lemma_need_of_hierarchy(node, deps, parts, id, from + 1, multiplier, target, path);
    }
}

/// End to end: the totals that the explosion of a built hierarchy reports
/// are what the table says one unit of the root takes of each purchased
/// part, the quantities multiplied along every chain of edges and the
/// chains added up.
pub proof fn law_explosion_of_built_hierarchy_is_table_need(
    root: Bom,
    deps: Map<Seq<char>, Edges>,
    parts: Map<Seq<char>, Part>,
    id: Seq<char>,
)
    requires
        deps.dom().finite(),
        keyed_by_id(parts),
        represents(root, deps, parts, id),
        cycle_free(root),
    ensures
        explosion(root) matches Explosion::Totals(totals) ==> forall|target: Seq<char>|
            amount_of(totals, target) == #[trigger] table_need(
                deps,
                id,
                0,
                1,
                target,
                set![id],
            ),
{
    law_totals_are_requirements(root, Tally::Purchased);
    assert forall|target: Seq<char>|
        requirement(root, 0, 1, target, Tally::Purchased) == #[trigger] table_need(
            deps,
            id,
            0,
            1,
            target,
            set![id],
        ) by {
        lemma_need_of_hierarchy(root, deps, parts, id, 0, 1, target, set![id]);
    }
}

} // verus!
