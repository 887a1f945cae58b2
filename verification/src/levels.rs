//! The levels of the nodes of a hierarchy.
//!
//! A node carries as its level the depth at which a depth-first walk, the
//! lines of each node in the order they are listed, first meets its part. A
//! node that several parents share is met first by way of one of them, and
//! carries the level of that visit.

use vstd::prelude::*;
use std::rc::Rc;
use crate::bom::{find_from, Bom};
use crate::component::Component;
use crate::part::PartId;

verus! {

/// The level that a node built at `depth` carries: the depth, held at
/// `u32::MAX`.
pub open spec fn level_of(depth: nat) -> u32 {
    if depth <= u32::MAX {
        depth as u32
    } else {
        u32::MAX
    }
}

/// Whether `later` says of every part what `earlier` says of it.
pub open spec fn extends(earlier: Map<Seq<char>, nat>, later: Map<Seq<char>, nat>) -> bool {
    forall|k: Seq<char>| #[trigger]
        earlier.contains_key(k) ==> later.contains_key(k) && later[k] == earlier[k]
}

/// The depth at which a depth-first walk first meets each part: `seen`, and
/// with it what the walk over `node`, met at `depth`, adds. A part that
/// `seen` holds is not walked again.
pub open spec fn first_depths(node: Bom, depth: nat, seen: Map<Seq<char>, nat>) -> Map<
    Seq<char>,
    nat,
>
    decreases node, 0int,
{
    if seen.contains_key(node.root.id@) {
        seen
    } else {
        depths_upto(
            node.components@,
            node.sub_boms@,
            node.components@.len() as int,
            depth + 1,
            seen.insert(node.root.id@, depth),
        )
    }
}

/// What the walk has seen after the first `upto` of the lines `components`,
/// whose parts are met at `depth` and whose nodes are those of `subs`.
pub open spec fn depths_upto(
    components: Seq<Component>,
    subs: Seq<(PartId, Rc<Bom>)>,
    upto: int,
    depth: nat,
    seen: Map<Seq<char>, nat>,
) -> Map<Seq<char>, nat>
    decreases subs, upto,
{
    if upto <= 0 || upto > components.len() {
        seen
    } else {
        let before = depths_upto(components, subs, upto - 1, depth, seen);
        let place = find_from(subs, components[upto - 1].part_id@, 0);
        if 0 <= place < subs.len() {
            first_depths(*subs[place].1, depth, before)
        } else {
            before
        }
    }
}

/// Whether every node at or below `node` carries the level of the depth
/// that `depths` gives for its part.
pub open spec fn levels_follow(node: Bom, depths: Map<Seq<char>, nat>) -> bool
    decreases node,
{
    &&& depths.contains_key(node.root.id@)
    &&& node.bom_level == level_of(depths[node.root.id@])
    &&& forall|j: int|
        0 <= j < node.sub_boms@.len() ==> levels_follow(*(#[trigger] node.sub_boms@[j]).1, depths)
}

/// Levels that follow some depths follow all depths that extend them.
pub proof fn lemma_levels_follow_extended(
    node: Bom,
    earlier: Map<Seq<char>, nat>,
    later: Map<Seq<char>, nat>,
)
    requires
        levels_follow(node, earlier),
        extends(earlier, later),
    ensures
        levels_follow(node, later),
    decreases node,
{
    assert forall|j: int| 0 <= j < node.sub_boms@.len() implies levels_follow(
        *(#[trigger] node.sub_boms@[j]).1,
        later,
    ) by {
        lemma_levels_follow_extended(*node.sub_boms@[j].1, earlier, later);
    }
}

/// The walk over the first `upto` lines looks only at those lines and at
/// the nodes that `subs` holds for their parts.
pub proof fn lemma_depths_upto_same(
    components: Seq<Component>,
    subs: Seq<(PartId, Rc<Bom>)>,
    other_components: Seq<Component>,
    other_subs: Seq<(PartId, Rc<Bom>)>,
    upto: int,
    depth: nat,
    seen: Map<Seq<char>, nat>,
)
    requires
        0 <= upto <= components.len(),
        upto <= other_components.len(),
        forall|k: int|
            0 <= k < upto ==> (#[trigger] components[k]).part_id@ == other_components[k].part_id@,
        forall|k: int|
            0 <= k < upto ==> {
                let id = (#[trigger] components[k]).part_id@;
                let place = find_from(subs, id, 0);
                let other_place = find_from(other_subs, id, 0);
                if 0 <= place < subs.len() {
                    0 <= other_place < other_subs.len() && other_subs[other_place].1
                        == subs[place].1
                } else {
                    !(0 <= other_place < other_subs.len())
                }
            },
    ensures
        depths_upto(components, subs, upto, depth, seen) == depths_upto(
            other_components,
            other_subs,
            upto,
            depth,
            seen,
        ),
    decreases upto,
{
    if upto > 0 {
        lemma_depths_upto_same(
            components,
            subs,
            other_components,
            other_subs,
            upto - 1,
            depth,
            seen,
        );
    }
}

} // verus!
