//! Building the hierarchy of a part from the flat tables.
//!
//! The build walks depth first from the root. A node is made once for each
//! part and kept; every later reference to the part gets the node that was
//! kept. A node is kept only when everything below it has been built, and
//! the parts whose nodes are still being built are remembered apart, so that
//! a part that lists itself, directly or by way of others, is reported and
//! not followed.

use vstd::prelude::*;
use vstd::hash_map::StringHashMap;
use vstd::hash_set::StringHashSet;
use std::rc::Rc;
use crate::bom::{find_from, lemma_find_from, node_of, Bom, BomMetadata};
use crate::component::Component;
use crate::error::{edge_label, BomError};
use crate::defects::{
    defect_among, defect_at, first_defect, first_edge, is_assembly, lemma_first_edge,
};
use crate::hierarchy::{
    cycle_free, drawn_from, has_entry, keeps_all, lemma_drawn_from_larger,
    lemma_no_defect_below, lists, one_node_per_part, represents,
};
use crate::levels::{
    depths_upto, extends, first_depths, lemma_depths_upto_same, lemma_levels_follow_extended,
    level_of, levels_follow,
};
use crate::part::{Part, PartId};
use crate::quantity::Quantity;
use crate::tables::{keyed_by_id, Dependencies, Edges, PartCatalog};

verus! {

/// `Rc::clone` of std: a second pointer to the node that `node` points to.
/// Nothing is copied. Not proved.
#[verifier::external_body]
fn share(node: &Rc<Bom>) -> (shared: Rc<Bom>)
    ensures
        shared == *node,
{
    Rc::clone(node)
}

/// Whether every node that is kept is the hierarchy of the part it is kept
/// for, is free of cycles, and has all the parts it lists kept too.
spec fn kept_sound(
    kept: Map<Seq<char>, Rc<Bom>>,
    deps: Map<Seq<char>, Edges>,
    parts: Map<Seq<char>, Part>,
) -> bool {
    forall|k: Seq<char>| #[trigger]
        kept.contains_key(k) ==> {
            &&& represents(*kept[k], deps, parts, k)
            &&& cycle_free(*kept[k])
            &&& forall|c: Seq<char>| lists(*kept[k], c) ==> kept.contains_key(c)
            &&& drawn_from(*kept[k], kept)
        }
}

/// Whether the depths that were seen are those of the assemblies that are
/// kept or being built, and the nodes that are kept carry their levels.
spec fn depths_sound(
    kept: Map<Seq<char>, Rc<Bom>>,
    deps: Map<Seq<char>, Edges>,
    seen: Map<Seq<char>, nat>,
    building: Set<Seq<char>>,
) -> bool {
    &&& forall|k: Seq<char>| #[trigger]
        kept.contains_key(k) && is_assembly(deps, k) ==> seen.contains_key(k) && levels_follow(
            *kept[k],
            seen,
        )
    &&& forall|k: Seq<char>| #[trigger]
        seen.contains_key(k) ==> kept.contains_key(k) || building.contains(k)
}

/// Whether no part that is being built has a node kept.
spec fn apart(kept: Map<Seq<char>, Rc<Bom>>, building: Set<Seq<char>>) -> bool {
    forall|k: Seq<char>| #[trigger] building.contains(k) ==> !kept.contains_key(k)
}

/// The place of the entry for `id` among `subs`.
fn find_sub(subs: &Vec<(PartId, Rc<Bom>)>, id: &String) -> (place: Option<usize>)
    ensures
        match place {
            Some(p) => p < subs@.len() && subs@[p as int].0@ == id@,
            None => !has_entry(subs@, id@),
        },
{
    let mut i: usize = 0;
    while i < subs.len()
        invariant
            i <= subs@.len(),
            forall|k: int| 0 <= k < i ==> (#[trigger] subs@[k]).0@ != id@,
        decreases subs@.len() - i,
    {
        if subs[i].0 == *id {
            return Some(i);
        }
        i += 1;
    }
    None
}

/// Builds the node of part `id`, which `parent` lists, or hands out the one
/// that is kept for it. The node is met at `depth`; `seen` holds the depths
/// at which the assemblies met so far were first met.
fn build_node(
    id: &String,
    parent: &String,
    deps: &Dependencies,
    parts: &PartCatalog,
    kept: &mut StringHashMap<Rc<Bom>>,
    building: &mut StringHashSet,
    level: u32,
    Ghost(depth): Ghost<nat>,
    Ghost(seen): Ghost<Map<Seq<char>, nat>>,
) -> (outcome: Result<(Rc<Bom>, Ghost<Map<Seq<char>, nat>>), BomError>)
    requires
        kept_sound(old(kept)@, deps@, parts@),
        apart(old(kept)@, old(building)@),
        depths_sound(old(kept)@, deps@, seen, old(building)@),
        level == level_of(depth),
    ensures
        match outcome {
            Ok((node, after)) => {
                &&& defect_at(deps@, parts@, parent@, id@, old(building)@) is None
                &&& final(kept)@.contains_key(id@)
                &&& final(kept)@[id@] == node
                &&& kept_sound(final(kept)@, deps@, parts@)
                &&& keeps_all(old(kept)@, final(kept)@)
                &&& apart(final(kept)@, old(building)@)
                &&& final(building)@ == old(building)@
                &&& !old(kept)@.contains_key(id@) ==> node.bom_level == level
                &&& extends(seen, after@)
                &&& depths_sound(final(kept)@, deps@, after@, old(building)@)
                &&& after@ == if is_assembly(deps@, id@) {
                    first_depths(*node, depth, seen)
                } else {
                    seen
                }
            },
            Err(error) => defect_at(deps@, parts@, parent@, id@, old(building)@) matches Some(
                defect,
            ) && defect.reported_as(error),
        },
    decreases deps@.dom().difference(old(building)@).len(),
{
    proof {
        use_type_invariant(deps);
        use_type_invariant(parts);
        deps.lemma_finite();
        parts.lemma_keyed();
    }
    let ghost path = building@;
    match kept.get(id.as_str()) {
        Some(found) => {
            proof {
                lemma_no_defect_below(node_of(kept@[id@]), deps@, parts@, parent@, id@, path);
            }
            return Ok((share(found), Ghost(seen)));
        },
        None => {},
    }
    if building.contains(id.as_str()) {
        return Err(BomError::CircularDependency(edge_label(parent.as_str(), id.as_str())));
    }
    let part = match parts.get(id.as_str()) {
        Some(found) => found.clone(),
        None => {
            return Err(BomError::PartNotFound(id.clone()));
        },
    };
    let mut components: Vec<Component> = Vec::new();
    let mut sub_boms: Vec<(PartId, Rc<Bom>)> = Vec::new();
    let ghost started = seen.insert(id@, depth);
    let ghost mut seen_now = seen;
    match deps.get(id.as_str()) {
        Some(edges) => {
            if edges.len() > 0 {
                building.insert(id.clone());
                let ghost below = path.insert(id@);
                proof {
                    deps@.dom().lemma_set_insert_diff_decreases(path, id@);
                    seen_now = started;
                    assert forall|k: Seq<char>| #[trigger]
                        kept@.contains_key(k) && is_assembly(deps@, k) implies started.contains_key(
                        k,
                    ) && levels_follow(*kept@[k], started) by {
                        lemma_levels_follow_extended(node_of(kept@[k]), seen, started);
                    }
                }
                let next_level = if level < u32::MAX {
                    level + 1
                } else {
                    level
                };
                let mut i: usize = 0;
                while i < edges.len()
                    invariant
                        deps@.dom().finite(),
                        keyed_by_id(parts@),
                        deps@.contains_key(id@),
                        *edges == deps@[id@],
                        parts@.contains_key(id@),
                        i <= edges@.len(),
                        path == old(building)@,
                        !path.contains(id@),
                        below == path.insert(id@),
                        building@ == below,
                        deps@.dom().difference(below).len() < deps@.dom().difference(path).len(),
                        defect_among(deps@, parts@, id@, 0, below) == defect_among(
                            deps@,
                            parts@,
                            id@,
                            i as int,
                            below,
                        ),
                        components@.len() == i,
                        forall|k: int|
                            0 <= k < i ==> (#[trigger] components@[k]).is_line(
                                edges@[k].0@,
                                edges@[k].1,
                            ),
                        forall|k: int|
                            0 <= k < i ==> kept@.contains_key((#[trigger] edges@[k]).0@),
                        forall|k: int|
                            0 <= k < i ==> (has_entry(sub_boms@, (#[trigger] edges@[k]).0@)
                                <==> is_assembly(deps@, edges@[k].0@)),
                        forall|j: int|
                            0 <= j < sub_boms@.len() ==> {
                                let key = (#[trigger] sub_boms@[j]).0@;
                                &&& kept@.contains_key(key)
                                &&& kept@[key] == sub_boms@[j].1
                                &&& exists|k: int| 0 <= k < i && (#[trigger] edges@[k]).0@ == key
                                &&& first_edge(edges@, key, 0) < i
                                &&& forall|m: int|
                                    0 <= m < j ==> first_edge(
                                        edges@,
                                        (#[trigger] sub_boms@[m]).0@,
                                        0,
                                    ) < first_edge(edges@, key, 0)
                            },
                        kept_sound(kept@, deps@, parts@),
                        keeps_all(old(kept)@, kept@),
                        apart(kept@, below),
                        next_level == level_of(depth + 1),
                        started == seen.insert(id@, depth),
                        extends(started, seen_now),
                        depths_sound(kept@, deps@, seen_now, below),
                        seen_now == depths_upto(
                            components@,
                            sub_boms@,
                            i as int,
                            depth + 1,
                            started,
                        ),
                    decreases edges@.len() - i,
                {
                    let child = &edges[i].0;
                    let per_parent = edges[i].1;
                    let ghost subs_before = sub_boms@;
                    let ghost lines_before = components@;
                    components.push(Component::line(child.clone(), per_parent));
                    let (sub, after) = match build_node(
                        child,
                        id,
                        deps,
                        parts,
                        kept,
                        building,
                        next_level,
                        Ghost(depth + 1),
                        Ghost(seen_now),
                    ) {
                        Ok(built) => built,
                        Err(error) => {
                            return Err(error);
                        },
                    };
                    proof {
                        seen_now = after@;
                    }
                    if sub.components.len() > 0 {
                        match find_sub(&sub_boms, child) {
                            Some(_) => {},
                            None => {
                                sub_boms.push((child.clone(), sub));
                            },
                        }
                    }
                    proof {
                        assert forall|j: int| 0 <= j < sub_boms@.len() implies {
                            let key = (#[trigger] sub_boms@[j]).0@;
                            &&& kept@.contains_key(key)
                            &&& kept@[key] == sub_boms@[j].1
                            &&& exists|k: int| 0 <= k < i + 1 && (#[trigger] edges@[k]).0@ == key
                            &&& first_edge(edges@, key, 0) < i + 1
                            &&& forall|m: int|
                                0 <= m < j ==> first_edge(
                                    edges@,
                                    (#[trigger] sub_boms@[m]).0@,
                                    0,
                                ) < first_edge(edges@, key, 0)
                        } by {
                            if j >= subs_before.len() {
                                lemma_first_edge(edges@, sub_boms@[j].0@, 0);
                            }
                        }
                        assert forall|k: int| 0 <= k < i + 1 implies (has_entry(
                            sub_boms@,
                            (#[trigger] edges@[k]).0@,
                        ) <==> is_assembly(deps@, edges@[k].0@)) by {
                            let e = edges@[k].0@;
                            if has_entry(subs_before, e) {
                                let j = choose|j: int|
                                    0 <= j < subs_before.len() && (#[trigger] subs_before[j]).0@
                                        == e;
                                assert(sub_boms@[j].0@ == e);
                            }
                            if k == i && is_assembly(deps@, e) && !has_entry(subs_before, e) {
                                assert(sub_boms@[subs_before.len() as int].0@ == e);
                            }
                        }
                        // The lines before this one are walked as they were.
                        assert forall|k: int| 0 <= k < i implies {
                            let key = (#[trigger] lines_before[k]).part_id@;
                            let place = find_from(subs_before, key, 0);
                            let other_place = find_from(sub_boms@, key, 0);
                            if 0 <= place < subs_before.len() {
                                0 <= other_place < sub_boms@.len() && sub_boms@[other_place].1
                                    == subs_before[place].1
                            } else {
                                !(0 <= other_place < sub_boms@.len())
                            }
                        } by {
                            lemma_find_from(subs_before, lines_before[k].part_id@, 0);
                            lemma_find_from(sub_boms@, lines_before[k].part_id@, 0);
                        }
                        lemma_depths_upto_same(
                            lines_before,
                            subs_before,
                            components@,
                            sub_boms@,
                            i as int,
                            depth + 1,
                            started,
                        );
                        // This line is walked as the node below it was built.
                        lemma_find_from(sub_boms@, child@, 0);
                    }
                    i += 1;
                }
                building.remove(id.as_str());
                assert(building@ =~= path);
            }
        },
        None => {},
    }
    let node = Rc::new(
        Bom {
            root: part,
            quantity: Quantity::Units(1),
            components,
            sub_boms,
            metadata: BomMetadata::default(),
            bom_level: level,
        },
    );
    proof {
        if is_assembly(deps@, id@) {
            assert(started.contains_key(id@));
            assert forall|k: Seq<char>| #[trigger] seen.contains_key(k) implies seen_now.contains_key(
                k,
            ) && seen_now[k] == seen[k] by {
                assert(started.contains_key(k));
            }
        }
    }
    let ghost kept_before = kept@;
    kept.insert(id.clone(), share(&node));
    proof {
        assert forall|k: Seq<char>| #[trigger] kept_before.contains_key(k) implies drawn_from(
            *kept@[k],
            kept@,
        ) by {
            lemma_drawn_from_larger(node_of(kept_before[k]), kept_before, kept@);
        }
    }
    Ok((node, Ghost(seen_now)))
}

impl Bom {
    /// Builds the hierarchy of part `root_id` from the dependency table and
    /// the catalog.
    ///
    /// The build succeeds where the walk from `root_id` meets no defect: no
    /// part that the catalog lacks, and no part that lists itself. It then
    /// returns the hierarchy of `root_id`, in which each part has one node,
    /// shared by all that list it, and each node carries as its level the
    /// depth at which the walk first met its part. Where the walk meets a
    /// defect, the first one is reported.
    pub fn build_hierarchy(deps: &Dependencies, parts_db: &PartCatalog, root_id: PartId) -> (outcome:
        Result<Rc<Bom>, BomError>)
        ensures
            match outcome {
                Ok(root) => {
                    &&& first_defect(deps@, parts_db@, root_id@) is None
                    &&& represents(*root, deps@, parts_db@, root_id@)
                    &&& cycle_free(*root)
                    &&& one_node_per_part(*root)
                    &&& levels_follow(*root, first_depths(*root, 0, Map::empty()))
                },
                Err(error) => first_defect(deps@, parts_db@, root_id@) matches Some(defect)
                    && defect.reported_as(error),
            },
    {
        let mut kept: StringHashMap<Rc<Bom>> = StringHashMap::new();
        let mut building = StringHashSet::new();
        let ghost nothing = Map::<Seq<char>, nat>::empty();
        match build_node(
            &root_id,
            &root_id,
            deps,
            parts_db,
            &mut kept,
            &mut building,
            0,
            Ghost(0),
            Ghost(nothing),
        ) {
            Ok((root, _)) => Ok(root),
            Err(error) => Err(error),
        }
    }
}

} // verus!
