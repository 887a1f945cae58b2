//! Explosion: the total quantity of every purchased part that one unit of
//! the root takes.
//!
//! The hierarchy is walked depth first, the lines of each node in the order
//! they are listed. A node reached with multiplier `m` gives each of its
//! lines the multiplier `m` times the line's quantity. A line that leads to a
//! node is walked with that multiplier; a line that leads to none adds it to
//! the total of its part. The walk ends on the first line whose multiplier
//! or total passes `u32::MAX`, or whose part is among the parts on the way
//! from the root to the line.
//!
//! The same walk can tally the assemblies in place of the purchased parts:
//! then a line that leads to a node adds its multiplier to the total of its
//! part, and a line that leads to none adds nothing.

use vstd::prelude::*;
use vstd::hash_set::StringHashSet;
use crate::bom::Bom;
use crate::error::{edge_label, edge_text, BomError};
use crate::quantity::Quantity;
use crate::totals::{amount_of, Totals};

verus! {

/// What a walk adds up.
#[derive(Debug, Clone, Copy, PartialEq, Eq, Structural)]
pub enum Tally {
    /// The parts of the lines that lead to no node.
    Purchased,
    /// The parts of the lines that lead to a node.
    Assemblies,
}

/// How a walk ends.
pub ghost enum Explosion {
    /// With the totals of what it tallies.
    Totals(Map<Seq<char>, nat>),
    /// On a multiplier or a total above `u32::MAX`.
    Overflow,
    /// On a line of the first part whose part, the second, is already on the
    /// way from the root.
    Cycle(Seq<char>, Seq<char>),
}

impl Explosion {
    /// Whether `error` reports this end of a walk.
    pub open spec fn reported_as(self, error: BomError) -> bool {
        match self {
            Explosion::Totals(_) => false,
            Explosion::Overflow => error matches BomError::QuantityCalculationOverflow { context }
                && context is None,
            Explosion::Cycle(parent, child) => error matches BomError::CircularDependency(text)
                && text@ == edge_text(parent, child),
        }
    }
}

/// Whether a walk that tallies `tally` adds the line for `child` to the
/// total of its part.
pub open spec fn counts(node: Bom, child: Seq<char>, tally: Tally) -> bool {
    (tally is Assemblies) == node.has_sub(child)
}

/// The end of the walk over the lines of `node` from line `from` on, where
/// `node` was reached with `multiplier` by way of the parts in `path`, and
/// `totals` is what the walk has added up so far of what it tallies.
pub open spec fn explode_lines(
    node: Bom,
    from: int,
    multiplier: nat,
    path: Set<Seq<char>>,
    totals: Map<Seq<char>, nat>,
    tally: Tally,
) -> Explosion
    decreases node, node.components@.len() - from,
{
    if from < 0 || from >= node.components@.len() {
        Explosion::Totals(totals)
    } else {
        let line = node.components@[from];
        let child = line.part_id@;
        let needed = multiplier * line.quantity.count();
        let counted = counts(node, child, tally);
        let added = if counted {
            totals.insert(child, amount_of(totals, child) + needed)
        } else {
            totals
        };
        if needed > u32::MAX {
            Explosion::Overflow
        } else if path.contains(child) {
            Explosion::Cycle(node.root.id@, child)
        } else if counted && amount_of(totals, child) + needed > u32::MAX {
            Explosion::Overflow
        } else if node.has_sub(child) {
            match explode_lines(node.sub_node(child), 0, needed, path.insert(child), added, tally) {
                Explosion::Totals(below) => explode_lines(
                    node,
                    from + 1,
                    multiplier,
                    path,
                    below,
                    tally,
                ),
                failure => failure,
            }
        } else {
            explode_lines(node, from + 1, multiplier, path, added, tally)
        }
    }
}

/// The end of the walk that tallies `tally` over the whole hierarchy under
/// `root`, for one unit of it.
pub open spec fn walk(root: Bom, tally: Tally) -> Explosion {
    explode_lines(root, 0, 1, set![root.root.id@], Map::empty(), tally)
}

/// The end of the walk over the whole hierarchy under `root`, for one unit
/// of it, with the totals of the purchased parts.
pub open spec fn explosion(root: Bom) -> Explosion {
    walk(root, Tally::Purchased)
}

/// Walks the lines of `node`, adding to `totals`.
fn explode_into(
    node: &Bom,
    multiplier: u32,
    path: &mut StringHashSet,
    totals: &mut Totals,
    tally: Tally,
) -> (outcome: Result<(), BomError>)
    ensures
        match outcome {
            Ok(()) => explode_lines(*node, 0, multiplier as nat, old(path)@, old(totals)@, tally)
                == Explosion::Totals(final(totals)@) && final(path)@ == old(path)@,
            Err(error) => explode_lines(
                *node,
                0,
                multiplier as nat,
                old(path)@,
                old(totals)@,
                tally,
            ).reported_as(error),
        },
    decreases *node,
{
    let ghost path_before = path@;
    let ghost totals_before = totals@;
    let mut i: usize = 0;
    while i < node.components.len()
        invariant
            i <= node.components@.len(),
            path@ == path_before,
            path_before == old(path)@,
            totals_before == old(totals)@,
            explode_lines(*node, 0, multiplier as nat, path_before, totals_before, tally)
                == explode_lines(*node, i as int, multiplier as nat, path_before, totals@, tally),
        decreases node.components@.len() - i,
    {
        let line = &node.components[i];
        let Quantity::Units(per_parent) = line.quantity;
        let needed = match multiplier.checked_mul(per_parent) {
            Some(n) => n,
            None => {
                return Err(BomError::QuantityCalculationOverflow { context: None });
            },
        };
        if path.contains(line.part_id.as_str()) {
            return Err(
                BomError::CircularDependency(
                    edge_label(node.root.id.as_str(), line.part_id.as_str()),
                ),
            );
        }
        let below = node.sub_bom(&line.part_id);
        let counted = match tally {
            Tally::Purchased => below.is_none(),
            Tally::Assemblies => below.is_some(),
        };
        if counted && !totals.add(line.part_id.as_str(), needed) {
            return Err(BomError::QuantityCalculationOverflow { context: None });
        }
        if let Some(sub) = below {
            path.insert(line.part_id.clone());
            explode_into(sub, needed, path, totals, tally)?;
            path.remove(line.part_id.as_str());
        }
        i += 1;
    }
    Ok(())
}

impl Bom {
    /// The totals of one walk over the hierarchy under this node.
    fn tally(&self, tally: Tally) -> (outcome: Result<Totals, BomError>)
        ensures
            match outcome {
                Ok(totals) => walk(*self, tally) == Explosion::Totals(totals@),
                Err(error) => walk(*self, tally).reported_as(error),
            },
    {
        let mut totals = Totals::new();
        let mut path = StringHashSet::new();
        path.insert(self.root.id.clone());
        match explode_into(self, 1, &mut path, &mut totals, tally) {
            Ok(()) => Ok(totals),
            Err(error) => Err(error),
        }
    }

    /// The total quantity of every purchased part that one unit of this node
    /// takes. Assemblies have no total.
    pub fn explode_quantities(&self) -> (outcome: Result<Totals, BomError>)
        ensures
            match outcome {
                Ok(totals) => explosion(*self) == Explosion::Totals(totals@),
                Err(error) => explosion(*self).reported_as(error),
            },
    {
        self.tally(Tally::Purchased)
    }

    /// The total quantity of every assembly below this node that one unit
    /// of this node takes. Purchased parts have no total.
    pub fn explode_assemblies(&self) -> (outcome: Result<Totals, BomError>)
        ensures
            match outcome {
                Ok(totals) => walk(*self, Tally::Assemblies) == Explosion::Totals(totals@),
                Err(error) => walk(*self, Tally::Assemblies).reported_as(error),
            },
    {
        self.tally(Tally::Assemblies)
    }
}

} // verus!
