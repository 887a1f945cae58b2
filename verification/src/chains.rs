//! Chains of edges in the dependency table, and what the first defect of a
//! walk says about them.
//!
//! A chain is a sequence of parts in which each lists the next. The walk
//! from a root finds no defect exactly where every chain from the root
//! stays in the catalog and passes no part twice.

use vstd::prelude::*;
use crate::defects::{defect_among, defect_at, edges_of, first_defect, Defect};
use crate::part::Part;
use crate::tables::Edges;

verus! {

/// Whether the table lists `child` among the edges of `parent`.
pub open spec fn has_edge(deps: Map<Seq<char>, Edges>, parent: Seq<char>, child: Seq<char>) -> bool {
    exists|i: int|
        0 <= i < edges_of(deps, parent).len() && (#[trigger] edges_of(deps, parent)[i]).0@ == child
}

/// Whether `chain` holds at least one part, and each of its parts lists the
/// next.
pub open spec fn is_chain(deps: Map<Seq<char>, Edges>, chain: Seq<Seq<char>>) -> bool {
    &&& chain.len() >= 1
    &&& forall|i: int| 0 <= i < chain.len() - 1 ==> has_edge(deps, #[trigger] chain[i], chain[i + 1])
}

/// Whether every part of `chain` is in the catalog.
pub open spec fn in_catalog(parts: Map<Seq<char>, Part>, chain: Seq<Seq<char>>) -> bool {
    forall|i: int| 0 <= i < chain.len() ==> parts.contains_key(#[trigger] chain[i])
}

/// Whether a chain from `root` shows the defect: it ends at a part that the
/// catalog lacks, or it ends at a part that lists a part of the chain.
pub open spec fn shown_by(
    deps: Map<Seq<char>, Edges>,
    parts: Map<Seq<char>, Part>,
    root: Seq<char>,
    defect: Defect,
    chain: Seq<Seq<char>>,
) -> bool {
    &&& is_chain(deps, chain)
    &&& chain[0] == root
    &&& match defect {
        Defect::Missing(id) => chain.last() == id && !parts.contains_key(id),
        Defect::Cycle(parent, child) => chain.last() == parent && has_edge(deps, parent, child)
            && chain.contains(child),
    }
}

/// Edges whose walk finds no defect lead to parts whose walk finds none.
proof fn lemma_edges_clean(
    deps: Map<Seq<char>, Edges>,
    parts: Map<Seq<char>, Part>,
    parent: Seq<char>,
    from: int,
    path: Set<Seq<char>>,
    at: int,
)
    requires
        deps.dom().finite(),
        0 <= from <= at < edges_of(deps, parent).len(),
        defect_among(deps, parts, parent, from, path) is None,
    ensures
        defect_at(deps, parts, parent, edges_of(deps, parent)[at].0@, path) is None,
    decreases at - from,
{
    if from < at {
        lemma_edges_clean(deps, parts, parent, from + 1, path, at);
    }
}

/// Where the walk from a part finds no defect, every chain from the part
/// stays in the catalog, off the way to the part, and passes no part twice.
proof fn lemma_clean_chain(
    deps: Map<Seq<char>, Edges>,
    parts: Map<Seq<char>, Part>,
    parent: Seq<char>,
    id: Seq<char>,
    path: Set<Seq<char>>,
    chain: Seq<Seq<char>>,
)
    requires
        deps.dom().finite(),
        defect_at(deps, parts, parent, id, path) is None,
        is_chain(deps, chain),
        chain[0] == id,
    ensures
        in_catalog(parts, chain),
        forall|i: int| 0 <= i < chain.len() ==> !path.contains(#[trigger] chain[i]),
        chain.no_duplicates(),
    decreases chain.len(),
{
    if chain.len() > 1 {
        let next = chain[1];
        let at = choose|i: int|
            0 <= i < edges_of(deps, id).len() && (#[trigger] edges_of(deps, id)[i]).0@ == next;
        let below = path.insert(id);
        lemma_edges_clean(deps, parts, id, 0, below, at);
        let rest = chain.subrange(1, chain.len() as int);
        lemma_clean_chain(deps, parts, id, next, below, rest);
        assert forall|i: int| 0 <= i < chain.len() implies parts.contains_key(
            #[trigger] chain[i],
        ) && !path.contains(chain[i]) by {
            if i > 0 {
                assert(rest[i - 1] == chain[i]);
            }
        }
        assert forall|i: int, j: int|
            0 <= i < chain.len() && 0 <= j < chain.len() && i != j implies chain[i] != chain[j] by {
            if i > 0 {
                assert(rest[i - 1] == chain[i]);
            }
            if j > 0 {
                assert(rest[j - 1] == chain[j]);
            }
        }
    }
}

/// A defect that the walk finds at or below a part is shown by a chain
/// that extends the way to the part.
proof fn lemma_defect_shown(
    deps: Map<Seq<char>, Edges>,
    parts: Map<Seq<char>, Part>,
    root: Seq<char>,
    parent: Seq<char>,
    id: Seq<char>,
    path: Set<Seq<char>>,
    trail: Seq<Seq<char>>,
) -> (chain: Seq<Seq<char>>)
    requires
        deps.dom().finite(),
        defect_at(deps, parts, parent, id, path) is Some,
        is_chain(deps, trail),
        trail[0] == root,
        trail.last() == id,
        forall|k: Seq<char>| path.contains(k) ==> trail.drop_last().contains(k),
        trail.len() >= 2 ==> trail[trail.len() - 2] == parent,
    ensures
        shown_by(deps, parts, root, defect_at(deps, parts, parent, id, path)->Some_0, chain),
    decreases deps.dom().difference(path).len(), 0nat,
{
    if path.contains(id) {
        trail.drop_last()
    } else if !parts.contains_key(id) {
        trail
    } else {
        deps.dom().lemma_set_insert_diff_decreases(path, id);
        lemma_defect_shown_edges(deps, parts, root, id, 0, path.insert(id), trail)
    }
}

proof fn lemma_defect_shown_edges(
    deps: Map<Seq<char>, Edges>,
    parts: Map<Seq<char>, Part>,
    root: Seq<char>,
    parent: Seq<char>,
    from: int,
    path: Set<Seq<char>>,
    trail: Seq<Seq<char>>,
) -> (chain: Seq<Seq<char>>)
    requires
        deps.dom().finite(),
        0 <= from,
        defect_among(deps, parts, parent, from, path) is Some,
        is_chain(deps, trail),
        trail[0] == root,
        trail.last() == parent,
        forall|k: Seq<char>| path.contains(k) ==> trail.contains(k),
    ensures
        shown_by(deps, parts, root, defect_among(deps, parts, parent, from, path)->Some_0, chain),
    decreases deps.dom().difference(path).len(), 1 + edges_of(deps, parent).len() - from,
{
    let edges = edges_of(deps, parent);
    let child = edges[from].0@;
    if defect_at(deps, parts, parent, child, path) is Some {
        let longer = trail.push(child);
        assert(longer.drop_last() =~= trail);
        lemma_defect_shown(deps, parts, root, parent, child, path, longer)
    } else {
        lemma_defect_shown_edges(deps, parts, root, parent, from + 1, path, trail)
    }
}

/// Sound tables: where the walk from `root` finds no defect, every chain
/// from `root` stays in the catalog and passes no part twice. The table is
/// free of cycles as far as `root` reaches.
pub proof fn law_no_defect_means_clean_chains(
    deps: Map<Seq<char>, Edges>,
    parts: Map<Seq<char>, Part>,
    root: Seq<char>,
    chain: Seq<Seq<char>>,
)
    requires
        deps.dom().finite(),
        first_defect(deps, parts, root) is None,
        is_chain(deps, chain),
        chain[0] == root,
    ensures
        in_catalog(parts, chain),
        chain.no_duplicates(),
{
    lemma_clean_chain(deps, parts, root, root, Set::empty(), chain);
}

/// Defects are real: where the walk from `root` finds a defect, a chain
/// from `root` shows it. A missing part is reached by the chain, and a part
/// that closes a cycle is listed by the last part of a chain that holds it.
pub proof fn law_defect_is_shown_by_chain(
    deps: Map<Seq<char>, Edges>,
    parts: Map<Seq<char>, Part>,
    root: Seq<char>,
) -> (chain: Seq<Seq<char>>)
    requires
        deps.dom().finite(),
        first_defect(deps, parts, root) is Some,
    ensures
        shown_by(deps, parts, root, first_defect(deps, parts, root)->Some_0, chain),
{
    let trail = seq![root];
    lemma_defect_shown(deps, parts, root, root, root, Set::empty(), trail)
}

/// Clean tables build: where every chain from `root` stays in the catalog
/// and passes no part twice, the walk from `root` finds no defect.
pub proof fn law_clean_chains_mean_no_defect(
    deps: Map<Seq<char>, Edges>,
    parts: Map<Seq<char>, Part>,
    root: Seq<char>,
)
    requires
        deps.dom().finite(),
        forall|chain: Seq<Seq<char>>|
            #[trigger] is_chain(deps, chain) && chain[0] == root ==> in_catalog(parts, chain)
                && chain.no_duplicates(),
    ensures
        first_defect(deps, parts, root) is None,
{
    if first_defect(deps, parts, root) is Some {
        let chain = law_defect_is_shown_by_chain(deps, parts, root);
        match first_defect(deps, parts, root)->Some_0 {
            Defect::Missing(id) => {
                assert(chain[chain.len() - 1] == id);
            },
            Defect::Cycle(parent, child) => {
                let longer = chain.push(child);
                assert(is_chain(deps, longer)) by {
                    assert forall|i: int| 0 <= i < longer.len() - 1 implies has_edge(
                        deps,
                        #[trigger] longer[i],
                        longer[i + 1],
                    ) by {
                        if i < chain.len() - 1 {
                            assert(has_edge(deps, chain[i], chain[i + 1]));
                        }
                    }
                }
                let at = choose|i: int| 0 <= i < chain.len() && chain[i] == child;
                assert(longer[at] == longer[chain.len() as int]);
            },
        }
    }
}

} // verus!
