//! The hierarchy of a bill of materials.

use vstd::prelude::*;
use std::collections::HashMap;
use std::rc::Rc;
use crate::component::Component;
use crate::part::{Part, PartId};
use crate::quantity::Quantity;

verus! {

/// Administrative data of a bill of materials.
#[derive(Debug, Clone)]
pub struct BomMetadata {
    pub version: String,
    pub revision: String,
    pub created_by: Option<String>,
    pub created_date: Option<String>,
    pub notes: Option<String>,
    pub attributes: HashMap<String, String>,
}

impl BomMetadata {
    /// Whether nothing has been filled in.
    pub open spec fn is_blank(self) -> bool {
        &&& self.version@ == Seq::<char>::empty()
        &&& self.revision@ == Seq::<char>::empty()
        &&& self.created_by is None
        &&& self.created_date is None
        &&& self.notes is None
        &&& self.attributes@ == Map::<String, String>::empty()
    }
}

impl Default for BomMetadata {
    fn default() -> (metadata: Self)
        ensures
            metadata.is_blank(),
    {
        BomMetadata {
            version: String::new(),
            revision: String::new(),
            created_by: None,
            created_date: None,
            notes: None,
            attributes: HashMap::new(),
        }
    }
}

/// One node of the hierarchy: a part, the lines that one unit of it takes,
/// and, for each line whose part is itself an assembly, that assembly's node.
///
/// Nodes are shared: every parent of an assembly holds the same node.
#[derive(Debug, Clone)]
pub struct Bom {
    /// The part this node stands for.
    pub root: Part,
    /// How much one build of this node yields.
    pub quantity: Quantity,
    /// The lines, in the order they are listed.
    pub components: Vec<Component>,
    /// The nodes of the lines that are assemblies, each under its part's
    /// identifier. A line whose part has no entry is terminal.
    pub sub_boms: Vec<(PartId, Rc<Bom>)>,
    pub metadata: BomMetadata,
    /// The depth at which the node was built: 0 at the root.
    pub bom_level: u32,
}

/// The node that a shared pointer leads to.
pub open spec fn node_of(shared: Rc<Bom>) -> Bom {
    *shared
}

/// The first place at or after `from` where `subs` holds an entry for `id`,
/// and the length of `subs` where it holds none.
pub open spec fn find_from(subs: Seq<(PartId, Rc<Bom>)>, id: Seq<char>, from: int) -> int
    decreases subs.len() - from,
{
    if from < 0 || from >= subs.len() {
        subs.len() as int
    } else if subs[from].0@ == id {
        from
    } else {
        find_from(subs, id, from + 1)
    }
}

/// `find_from` answers with a place at or after `from`; where that place is
/// in `subs`, it is the first one for `id`.
pub proof fn lemma_find_from(subs: Seq<(PartId, Rc<Bom>)>, id: Seq<char>, from: int)
    requires
        0 <= from <= subs.len(),
    ensures
        from <= find_from(subs, id, from) <= subs.len(),
        find_from(subs, id, from) < subs.len() ==> subs[find_from(subs, id, from)].0@ == id,
        forall|k: int| from <= k < find_from(subs, id, from) ==> (#[trigger] subs[k]).0@ != id,
    decreases subs.len() - from,
{
    if from < subs.len() && subs[from].0@ != id {
        lemma_find_from(subs, id, from + 1);
    }
}

impl Bom {
    /// The place of the node for part `id` among `sub_boms`, and their
    /// number where there is none.
    pub open spec fn sub_position(self, id: Seq<char>) -> int {
        find_from(self.sub_boms@, id, 0)
    }

    /// Whether the line for part `id` leads to a node.
    pub open spec fn has_sub(self, id: Seq<char>) -> bool {
        0 <= self.sub_position(id) < self.sub_boms@.len()
    }

    /// The node for part `id`, where `has_sub(id)`.
    pub open spec fn sub_node(self, id: Seq<char>) -> Bom {
        *self.sub_boms@[self.sub_position(id)].1
    }

    /// A node for `part` with no lines, at level 0. Without a quantity, one
    /// build yields one unit.
    pub fn new(part: Part, quantity: Option<Quantity>) -> (bom: Self)
        ensures
            bom.root == part,
            bom.quantity == match quantity {
                Some(q) => q,
                None => Quantity::Units(1),
            },
            bom.components@.len() == 0,
            bom.sub_boms@.len() == 0,
            bom.metadata.is_blank(),
            bom.bom_level == 0,
    {
        Bom {
            root: part,
            quantity: match quantity {
                Some(q) => q,
                None => Quantity::Units(1),
            },
            components: Vec::new(),
            sub_boms: Vec::new(),
            metadata: BomMetadata::default(),
            bom_level: 0,
        }
    }

    /// The node that the line for part `id` leads to.
    pub fn sub_bom(&self, id: &String) -> (node: Option<&Rc<Bom>>)
        ensures
            match node {
                Some(n) => self.has_sub(id@) && **n == self.sub_node(id@),
                None => !self.has_sub(id@),
            },
    {
        let mut i: usize = 0;
        while i < self.sub_boms.len()
            invariant
                i <= self.sub_boms@.len(),
                find_from(self.sub_boms@, id@, 0) == find_from(self.sub_boms@, id@, i as int),
            decreases self.sub_boms@.len() - i,
        {
            if self.sub_boms[i].0 == *id {
                return Some(&self.sub_boms[i].1);
            }
            i += 1;
        }
        None
    }
}

} // verus!
