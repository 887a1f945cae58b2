//! The flat inputs of a build: the catalog of parts, and the table that
//! lists, for each assembly, the parts one unit of it takes.

use vstd::prelude::*;
use vstd::hash_map::StringHashMap;
use crate::part::{Part, PartId};
use crate::quantity::Quantity;

verus! {

/// The parts that one unit of a parent takes, in the order they are listed.
pub type Edges = Vec<(PartId, Quantity)>;

/// Whether every part of `parts` is filed under its own identifier.
pub open spec fn keyed_by_id(parts: Map<Seq<char>, Part>) -> bool {
    forall|k: Seq<char>| parts.contains_key(k) ==> (#[trigger] parts[k]).id@ == k
}

/// The catalog: every known part under its identifier.
pub struct PartCatalog {
    parts: StringHashMap<Part>,
}

impl View for PartCatalog {
    type V = Map<Seq<char>, Part>;

    closed spec fn view(&self) -> Map<Seq<char>, Part> {
        self.parts@
    }
}

impl PartCatalog {
    #[verifier::type_invariant]
    pub closed spec fn well_formed(self) -> bool {
        keyed_by_id(self.parts@)
    }

    /// A catalog files every part under its own identifier.
    pub proof fn lemma_keyed(&self)
        requires
            self.well_formed(),
        ensures
            keyed_by_id(self@),
    {
    }

    /// An empty catalog.
    pub fn new() -> (catalog: Self)
        ensures
            catalog@ == Map::<Seq<char>, Part>::empty(),
    {
        PartCatalog { parts: StringHashMap::new() }
    }

    /// Files `part` under its own identifier, in place of any part that was
    /// there.
    pub fn insert(&mut self, part: Part)
        ensures
            final(self)@ == old(self)@.insert(part.id@, part),
    {
        proof {
            use_type_invariant(&*self);
        }
        let id = part.id.clone();
        let mut parts = StringHashMap::new();
        core::mem::swap(&mut self.parts, &mut parts);
        parts.insert(id, part);
        core::mem::swap(&mut self.parts, &mut parts);
    }

    /// The part filed under `id`.
    pub fn get(&self, id: &str) -> (part: Option<&Part>)
        ensures
            match part {
                Some(p) => self@.contains_key(id@) && *p == self@[id@],
                None => !self@.contains_key(id@),
            },
    {
        self.parts.get(id)
    }

    /// Whether a part is filed under `id`.
    pub fn contains(&self, id: &str) -> (found: bool)
        ensures
            found == self@.contains_key(id@),
    {
        self.parts.contains_key(id)
    }

    /// The number of parts.
    pub fn len(&self) -> (count: usize)
        ensures
            count == self@.len(),
    {
        self.parts.len()
    }
}

/// The dependency table: for each assembly, its edges. A part without an
/// entry, or with an empty one, is terminal.
pub struct Dependencies {
    table: StringHashMap<Edges>,
}

impl View for Dependencies {
    type V = Map<Seq<char>, Edges>;

    closed spec fn view(&self) -> Map<Seq<char>, Edges> {
        self.table@
    }
}

impl Dependencies {
    #[verifier::type_invariant]
    pub closed spec fn well_formed(self) -> bool {
        self.table@.dom().finite()
    }

    /// An empty table.
    pub fn new() -> (table: Self)
        ensures
            table@ == Map::<Seq<char>, Edges>::empty(),
    {
        Dependencies { table: StringHashMap::new() }
    }

    /// Lists `edges` for `parent`, in place of what was listed for it.
    pub fn insert(&mut self, parent: PartId, edges: Edges)
        ensures
            final(self)@ == old(self)@.insert(parent@, edges),
    {
        proof {
            use_type_invariant(&*self);
        }
        let mut table = StringHashMap::new();
        core::mem::swap(&mut self.table, &mut table);
        table.insert(parent, edges);
        core::mem::swap(&mut self.table, &mut table);
    }

    /// The edges listed for `parent`.
    pub fn get(&self, parent: &str) -> (edges: Option<&Edges>)
        ensures
            match edges {
                Some(e) => self@.contains_key(parent@) && *e == self@[parent@],
                None => !self@.contains_key(parent@),
            },
    {
        self.table.get(parent)
    }

    /// The number of parents listed.
    pub fn len(&self) -> (count: usize)
        ensures
            count == self@.len(),
    {
        self.table.len()
    }

    /// A table lists finitely many parents.
    pub proof fn lemma_finite(&self)
        requires
            self.well_formed(),
        ensures
            self@.dom().finite(),
    {
    }
}

} // verus!
