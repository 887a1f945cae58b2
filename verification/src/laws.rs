//! What holds of every hierarchy and of every explosion.

use vstd::prelude::*;
use std::rc::Rc;
use crate::bom::{lemma_find_from, node_of, Bom};
use crate::explosion::{counts, explode_lines, explosion, walk, Explosion, Tally};
use crate::hierarchy::{
    cycle_free, cycle_free_below, drawn_from, lists, one_node_per_part, represents,
};
use crate::part::Part;
use crate::tables::Edges;
use crate::totals::amount_of;

verus! {

/// Whether every line at or below `node` takes a positive quantity.
pub open spec fn quantities_positive(node: Bom) -> bool
    decreases node,
{
    &&& forall|i: int|
        0 <= i < node.components@.len() ==> (#[trigger] node.components@[i]).quantity.count() > 0
    &&& forall|j: int|
        0 <= j < node.sub_boms@.len() ==> quantities_positive(*(#[trigger] node.sub_boms@[j]).1)
}

/// Whether every edge of the table takes a positive quantity.
pub open spec fn table_positive(deps: Map<Seq<char>, Edges>) -> bool {
    forall|id: Seq<char>, i: int|
        deps.contains_key(id) && 0 <= i < deps[id]@.len() ==> (#[trigger] deps[id]@[i]).1.count()
            > 0
}

/// Whether every total is positive.
pub open spec fn all_positive(totals: Map<Seq<char>, nat>) -> bool {
    forall|k: Seq<char>| totals.contains_key(k) ==> #[trigger] totals[k] > 0
}

/// The walk over a node that is free of cycles, reached by way of parts that
/// the node does not list, never ends on a cycle.
pub proof fn lemma_no_cycle_reported(
    node: Bom,
    from: int,
    multiplier: nat,
    path: Set<Seq<char>>,
    totals: Map<Seq<char>, nat>,
    tally: Tally,
)
    requires
        cycle_free_below(node),
        forall|c: Seq<char>| lists(node, c) ==> !path.contains(c),
        0 <= from,
    ensures
        !(explode_lines(node, from, multiplier, path, totals, tally) is Cycle),
    decreases node, node.components@.len() - from,
{
    if from < node.components@.len() {
        let line = node.components@[from];
        let child = line.part_id@;
        let needed = multiplier * line.quantity.count();
        let added = if counts(node, child, tally) {
            totals.insert(child, amount_of(totals, child) + needed)
        } else {
            totals
        };
        if node.has_sub(child) {
            lemma_find_from(node.sub_boms@, child, 0);
            let sub = node.sub_node(child);
            lemma_no_cycle_reported(sub, 0, needed, path.insert(child), added, tally);
            match explode_lines(sub, 0, needed, path.insert(child), added, tally) {
                Explosion::Totals(below) => {
                    lemma_no_cycle_reported(node, from + 1, multiplier, path, below, tally);
                },
                _ => {},
            }
        } else {
            lemma_no_cycle_reported(node, from + 1, multiplier, path, added, tally);
        }
    }
}

/// Where every quantity is positive, a walk that starts from positive
/// totals with a positive multiplier ends with positive totals.
pub proof fn lemma_totals_positive(
    node: Bom,
    from: int,
    multiplier: nat,
    path: Set<Seq<char>>,
    totals: Map<Seq<char>, nat>,
    tally: Tally,
)
    requires
        quantities_positive(node),
        multiplier > 0,
        all_positive(totals),
        0 <= from,
    ensures
        explode_lines(node, from, multiplier, path, totals, tally) matches Explosion::Totals(t)
            ==> all_positive(t),
    decreases node, node.components@.len() - from,
{
    if from < node.components@.len() {
        let line = node.components@[from];
        let child = line.part_id@;
        let needed = multiplier * line.quantity.count();
        let added = if counts(node, child, tally) {
            totals.insert(child, amount_of(totals, child) + needed)
        } else {
            totals
        };
        assert(needed > 0) by (nonlinear_arith)
            requires
                needed == multiplier * line.quantity.count(),
                multiplier > 0,
                line.quantity.count() > 0,
        ;
        if node.has_sub(child) {
            let sub = node.sub_node(child);
            lemma_totals_positive(sub, 0, needed, path.insert(child), added, tally);
            match explode_lines(sub, 0, needed, path.insert(child), added, tally) {
                Explosion::Totals(below) => {
                    lemma_totals_positive(node, from + 1, multiplier, path, below, tally);
                },
                _ => {},
            }
        } else {
            lemma_totals_positive(node, from + 1, multiplier, path, added, tally);
        }
    }
}

/// The hierarchy of a part under a table of positive quantities takes
/// positive quantities only.
pub proof fn lemma_built_quantities_positive(
    node: Bom,
    deps: Map<Seq<char>, Edges>,
    parts: Map<Seq<char>, Part>,
    id: Seq<char>,
)
    requires
        represents(node, deps, parts, id),
        table_positive(deps),
    ensures
        quantities_positive(node),
    decreases node,
{
    assert forall|j: int| 0 <= j < node.sub_boms@.len() implies quantities_positive(
        *(#[trigger] node.sub_boms@[j]).1,
    ) by {
        lemma_built_quantities_positive(
            *node.sub_boms@[j].1,
            deps,
            parts,
            node.sub_boms@[j].0@,
        );
    }
}

/// A walk over a hierarchy that is free of cycles never reports a cycle.
pub proof fn law_cycle_free_explodes_without_cycle(root: Bom, tally: Tally)
    requires
        cycle_free(root),
    ensures
        !(walk(root, tally) is Cycle),
{
    lemma_no_cycle_reported(root, 0, 1, set![root.root.id@], Map::empty(), tally);
}

/// A walk over a hierarchy whose quantities are all positive gives every
/// part it reports a positive total.
pub proof fn law_positive_quantities_give_positive_totals(root: Bom, tally: Tally)
    requires
        quantities_positive(root),
    ensures
        walk(root, tally) matches Explosion::Totals(totals) ==> all_positive(totals),
{
    lemma_totals_positive(root, 0, 1, set![root.root.id@], Map::empty(), tally);
}

/// Exploding what a build returns: the hierarchy of a part under a table of
/// positive quantities explodes without a cycle, and every total that the
/// explosion reports is positive.
pub proof fn law_built_hierarchy_explodes(
    root: Bom,
    deps: Map<Seq<char>, Edges>,
    parts: Map<Seq<char>, Part>,
    id: Seq<char>,
)
    requires
        represents(root, deps, parts, id),
        cycle_free(root),
        table_positive(deps),
    ensures
        !(explosion(root) is Cycle),
        explosion(root) matches Explosion::Totals(totals) ==> all_positive(totals),
{
    lemma_built_quantities_positive(root, deps, parts, id);
    law_cycle_free_explodes_without_cycle(root, Tally::Purchased);
    law_positive_quantities_give_positive_totals(root, Tally::Purchased);
}

/// Whether part `id` is entered with the node `sub` at or below `node`.
pub open spec fn enters(node: Bom, id: Seq<char>, sub: Rc<Bom>) -> bool
    decreases node,
{
    ||| exists|j: int|
        0 <= j < node.sub_boms@.len() && (#[trigger] node.sub_boms@[j]).0@ == id
            && node.sub_boms@[j].1 == sub
    ||| exists|j: int|
        0 <= j < node.sub_boms@.len() && enters(*(#[trigger] node.sub_boms@[j]).1, id, sub)
}

/// A part that is entered below a node drawn from a directory is entered
/// with the node that the directory holds for it.
pub proof fn lemma_entered_from_directory(
    node: Bom,
    directory: Map<Seq<char>, Rc<Bom>>,
    id: Seq<char>,
    sub: Rc<Bom>,
)
    requires
        drawn_from(node, directory),
        enters(node, id, sub),
    ensures
        directory.contains_key(id),
        directory[id] == sub,
    decreases node,
{
    if exists|j: int|
        0 <= j < node.sub_boms@.len() && (#[trigger] node.sub_boms@[j]).0@ == id
            && node.sub_boms@[j].1 == sub {
    } else {
        let j = choose|j: int|
            0 <= j < node.sub_boms@.len() && enters(*(#[trigger] node.sub_boms@[j]).1, id, sub);
        lemma_entered_from_directory(node_of(node.sub_boms@[j].1), directory, id, sub);
    }
}

/// Sharing: in a hierarchy that holds one node for each part, a part that is
/// entered in two places is entered with the same node in both.
pub proof fn law_one_node_per_part(root: Bom, id: Seq<char>, first: Rc<Bom>, second: Rc<Bom>)
    requires
        one_node_per_part(root),
        enters(root, id, first),
        enters(root, id, second),
    ensures
        first == second,
{
    let directory = choose|directory: Map<Seq<char>, Rc<Bom>>| drawn_from(root, directory);
    lemma_entered_from_directory(root, directory, id, first);
    lemma_entered_from_directory(root, directory, id, second);
}

/// How much of part `id` a walk that tallies `tally` counts over the lines
/// of `node` from line `from` on, each line of a node reached with
/// `multiplier` taking `multiplier` times its quantity: the sum, over every
/// way down from those lines to a line for `id` that is counted, of the
/// product of the quantities on the way. No bound applies.
pub open spec fn requirement(
    node: Bom,
    from: int,
    multiplier: nat,
    id: Seq<char>,
    tally: Tally,
) -> nat
    decreases node, node.components@.len() - from,
{
    if from < 0 || from >= node.components@.len() {
        0
    } else {
        let line = node.components@[from];
        let child = line.part_id@;
        let needed = multiplier * line.quantity.count();
        let here = if counts(node, child, tally) && child == id {
            needed
        } else {
            0
        };
        let below = if node.has_sub(child) {
            requirement(node.sub_node(child), 0, needed, id, tally)
        } else {
            0
        };
        here + below + requirement(node, from + 1, multiplier, id, tally)
    }
}

/// Whether a walk that tallies `tally` counts a line for part `id` among
/// the lines of `node` from line `from` on, or below one of them.
pub open spec fn tallied(node: Bom, from: int, id: Seq<char>, tally: Tally) -> bool
    decreases node, node.components@.len() - from,
{
    if from < 0 || from >= node.components@.len() {
        false
    } else {
        let child = node.components@[from].part_id@;
        ||| counts(node, child, tally) && child == id
        ||| node.has_sub(child) && tallied(node.sub_node(child), 0, id, tally)
        ||| tallied(node, from + 1, id, tally)
    }
}

/// Whether every multiplier that the lines of `node` from line `from` on
/// get, and every multiplier below them, is within `u32::MAX`.
pub open spec fn multipliers_fit(node: Bom, from: int, multiplier: nat) -> bool
    decreases node, node.components@.len() - from,
{
    if from < 0 || from >= node.components@.len() {
        true
    } else {
        let line = node.components@[from];
        let child = line.part_id@;
        let needed = multiplier * line.quantity.count();
        &&& needed <= u32::MAX
        &&& node.has_sub(child) ==> multipliers_fit(node.sub_node(child), 0, needed)
        &&& multipliers_fit(node, from + 1, multiplier)
    }
}

/// Whether every total is within `u32::MAX`.
pub open spec fn all_fit(totals: Map<Seq<char>, nat>) -> bool {
    forall|k: Seq<char>| totals.contains_key(k) ==> #[trigger] totals[k] <= u32::MAX
}

/// A walk that ends with totals has added to the total of each part what
/// it counts of it, and has a total for a part where it had one before or
/// counts a line for the part.
pub proof fn lemma_totals_add_up(
    node: Bom,
    from: int,
    multiplier: nat,
    path: Set<Seq<char>>,
    totals: Map<Seq<char>, nat>,
    tally: Tally,
    id: Seq<char>,
)
    requires
        0 <= from,
    ensures
        explode_lines(node, from, multiplier, path, totals, tally) matches Explosion::Totals(t)
            ==> {
            &&& amount_of(t, id) == amount_of(totals, id) + requirement(
                node,
                from,
                multiplier,
                id,
                tally,
            )
            &&& t.contains_key(id) <==> totals.contains_key(id) || tallied(node, from, id, tally)
        },
    decreases node, node.components@.len() - from,
{
    if from < node.components@.len() {
        let line = node.components@[from];
        let child = line.part_id@;
        let needed = multiplier * line.quantity.count();
        let added = if counts(node, child, tally) {
            totals.insert(child, amount_of(totals, child) + needed)
        } else {
            totals
        };
        if node.has_sub(child) {
            let sub = node.sub_node(child);
            lemma_totals_add_up(sub, 0, needed, path.insert(child), added, tally, id);
            match explode_lines(sub, 0, needed, path.insert(child), added, tally) {
                Explosion::Totals(below) => {
                    lemma_totals_add_up(node, from + 1, multiplier, path, below, tally, id);
                },
                _ => {},
            }
        } else {
            lemma_totals_add_up(node, from + 1, multiplier, path, added, tally, id);
        }
    }
}

/// A walk that ends with totals met no multiplier above `u32::MAX`, and
/// left every total within `u32::MAX` if they were so before.
pub proof fn lemma_walk_fits(
    node: Bom,
    from: int,
    multiplier: nat,
    path: Set<Seq<char>>,
    totals: Map<Seq<char>, nat>,
    tally: Tally,
)
    requires
        0 <= from,
    ensures
        explode_lines(node, from, multiplier, path, totals, tally) matches Explosion::Totals(t)
            ==> {
            &&& multipliers_fit(node, from, multiplier)
            &&& all_fit(totals) ==> all_fit(t)
        },
    decreases node, node.components@.len() - from,
{
    if from < node.components@.len() {
        let line = node.components@[from];
        let child = line.part_id@;
        let needed = multiplier * line.quantity.count();
        let added = if counts(node, child, tally) {
            totals.insert(child, amount_of(totals, child) + needed)
        } else {
            totals
        };
        if node.has_sub(child) {
            let sub = node.sub_node(child);
            lemma_walk_fits(sub, 0, needed, path.insert(child), added, tally);
            match explode_lines(sub, 0, needed, path.insert(child), added, tally) {
                Explosion::Totals(below) => {
                    lemma_walk_fits(node, from + 1, multiplier, path, below, tally);
                },
                _ => {},
            }
        } else {
            lemma_walk_fits(node, from + 1, multiplier, path, added, tally);
        }
    }
}

/// Where no cycle can be met, every multiplier fits, and every total with
/// what the lines still count fits, the walk ends with totals.
pub proof fn lemma_walk_succeeds(
    node: Bom,
    from: int,
    multiplier: nat,
    path: Set<Seq<char>>,
    totals: Map<Seq<char>, nat>,
    tally: Tally,
)
    requires
        0 <= from,
        cycle_free_below(node),
        forall|c: Seq<char>| lists(node, c) ==> !path.contains(c),
        multipliers_fit(node, from, multiplier),
        forall|id: Seq<char>|
            amount_of(totals, id) + #[trigger] requirement(node, from, multiplier, id, tally)
                <= u32::MAX,
    ensures
        explode_lines(node, from, multiplier, path, totals, tally) is Totals,
    decreases node, node.components@.len() - from,
{
    if from < node.components@.len() {
        let line = node.components@[from];
        let child = line.part_id@;
        let needed = multiplier * line.quantity.count();
        let added = if counts(node, child, tally) {
            totals.insert(child, amount_of(totals, child) + needed)
        } else {
            totals
        };
        assert(amount_of(totals, child) + requirement(node, from, multiplier, child, tally)
            <= u32::MAX);
        if node.has_sub(child) {
            lemma_find_from(node.sub_boms@, child, 0);
            let sub = node.sub_node(child);
            assert forall|id: Seq<char>|
                amount_of(added, id) + #[trigger] requirement(sub, 0, needed, id, tally)
                    <= u32::MAX by {
                assert(amount_of(totals, id) + requirement(node, from, multiplier, id, tally)
                    <= u32::MAX);
            }
            lemma_walk_succeeds(sub, 0, needed, path.insert(child), added, tally);
            let below = explode_lines(sub, 0, needed, path.insert(child), added, tally)->Totals_0;
            assert forall|id: Seq<char>|
                amount_of(below, id) + #[trigger] requirement(
                    node,
                    from + 1,
                    multiplier,
                    id,
                    tally,
                ) <= u32::MAX by {
                lemma_totals_add_up(sub, 0, needed, path.insert(child), added, tally, id);
                assert(amount_of(totals, id) + requirement(node, from, multiplier, id, tally)
                    <= u32::MAX);
            }
            lemma_walk_succeeds(node, from + 1, multiplier, path, below, tally);
        } else {
            assert forall|id: Seq<char>|
                amount_of(added, id) + #[trigger] requirement(
                    node,
                    from + 1,
                    multiplier,
                    id,
                    tally,
                ) <= u32::MAX by {
                assert(amount_of(totals, id) + requirement(node, from, multiplier, id, tally)
                    <= u32::MAX);
            }
            lemma_walk_succeeds(node, from + 1, multiplier, path, added, tally);
        }
    }
}

/// Exactness: the totals that a walk reports are what it counts, computed
/// without a bound. Every multiplier on the way was within `u32::MAX`, and
/// so is every total; the parts that have a total are those of the lines
/// that the walk counts.
pub proof fn law_totals_are_requirements(root: Bom, tally: Tally)
    ensures
        walk(root, tally) matches Explosion::Totals(totals) ==> {
            &&& multipliers_fit(root, 0, 1)
            &&& forall|id: Seq<char>|
                {
                    &&& amount_of(totals, id) == #[trigger] requirement(root, 0, 1, id, tally)
                    &&& requirement(root, 0, 1, id, tally) <= u32::MAX
                    &&& totals.contains_key(id) <==> tallied(root, 0, id, tally)
                }
        },
{
    let path = set![root.root.id@];
    let nothing = Map::<Seq<char>, nat>::empty();
    lemma_walk_fits(root, 0, 1, path, nothing, tally);
    match walk(root, tally) {
        Explosion::Totals(totals) => {
            assert forall|id: Seq<char>|
                {
                    &&& amount_of(totals, id) == #[trigger] requirement(root, 0, 1, id, tally)
                    &&& requirement(root, 0, 1, id, tally) <= u32::MAX
                    &&& totals.contains_key(id) <==> tallied(root, 0, id, tally)
                } by {
                lemma_totals_add_up(root, 0, 1, path, nothing, tally, id);
            }
        },
        _ => {},
    }
}

/// Success: a walk over a hierarchy that is free of cycles ends with totals
/// where every multiplier and every requirement is within `u32::MAX`.
pub proof fn law_explosion_succeeds(root: Bom, tally: Tally)
    requires
        cycle_free(root),
        multipliers_fit(root, 0, 1),
        forall|id: Seq<char>| #[trigger] requirement(root, 0, 1, id, tally) <= u32::MAX,
    ensures
        walk(root, tally) is Totals,
{
    lemma_walk_succeeds(root, 0, 1, set![root.root.id@], Map::empty(), tally);
}

/// Overflow: a walk over a hierarchy that is free of cycles reports an
/// overflow where a multiplier or a requirement passes `u32::MAX`. It never
/// answers with totals that are not exact.
pub proof fn law_overflow_is_reported(root: Bom, tally: Tally)
    requires
        cycle_free(root),
        !multipliers_fit(root, 0, 1) || exists|id: Seq<char>| #[trigger]
            requirement(root, 0, 1, id, tally) > u32::MAX,
    ensures
        walk(root, tally) is Overflow,
{
    law_totals_are_requirements(root, tally);
    law_cycle_free_explodes_without_cycle(root, tally);
}

} // verus!
