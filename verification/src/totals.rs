//! The result of an explosion: for each purchased part, the total quantity
//! that one unit of the root takes.

use vstd::prelude::*;
use vstd::hash_map::StringHashMap;
use vstd::string::StringExecFns;
use crate::part::PartId;

verus! {

/// The parts in the order they were first met, the amount of each, and the
/// place of each part in that order.
struct Ledger {
    ids: Vec<PartId>,
    amounts: Vec<u32>,
    index: StringHashMap<usize>,
}

impl Ledger {
    spec fn consistent(self) -> bool {
        &&& self.ids@.len() == self.amounts@.len()
        &&& forall|i: int|
            0 <= i < self.ids@.len() ==> self.index@.contains_key(#[trigger] self.ids@[i]@)
                && self.index@[self.ids@[i]@] == i
        &&& forall|k: Seq<char>| #[trigger]
            self.index@.contains_key(k) ==> self.index@[k] < self.ids@.len()
                && self.ids@[self.index@[k] as int]@ == k
    }

    spec fn as_map(self) -> Map<Seq<char>, nat> {
        Map::new(
            |k: Seq<char>| self.index@.contains_key(k),
            |k: Seq<char>| self.amounts@[self.index@[k] as int] as nat,
        )
    }

    spec fn keys(self) -> Seq<Seq<char>> {
        Seq::new(self.ids@.len(), |i: int| self.ids@[i]@)
    }

    fn empty() -> (ledger: Self)
        ensures
            ledger.consistent(),
            ledger.as_map() == Map::<Seq<char>, nat>::empty(),
            ledger.keys() == Seq::<Seq<char>>::empty(),
    {
        Ledger { ids: Vec::new(), amounts: Vec::new(), index: StringHashMap::new() }
    }
}

/// Total quantities, part by part.
pub struct Totals {
    ledger: Ledger,
}

impl View for Totals {
    type V = Map<Seq<char>, nat>;

    closed spec fn view(&self) -> Map<Seq<char>, nat> {
        self.ledger.as_map()
    }
}

/// What `id` has in `totals`, and 0 where it has nothing.
pub open spec fn amount_of(totals: Map<Seq<char>, nat>, id: Seq<char>) -> nat {
    if totals.contains_key(id) {
        totals[id]
    } else {
        0
    }
}

impl Totals {
    #[verifier::type_invariant]
    pub closed spec fn well_formed(self) -> bool {
        self.ledger.consistent()
    }

    /// The parts that have a total, in the order they were first met.
    pub closed spec fn keys(self) -> Seq<Seq<char>> {
        self.ledger.keys()
    }

    /// No totals at all.
    pub fn new() -> (totals: Self)
        ensures
            totals@ == Map::<Seq<char>, nat>::empty(),
            totals.keys() == Seq::<Seq<char>>::empty(),
    {
        Totals { ledger: Ledger::empty() }
    }

    /// The total of part `id`, if it has one.
    pub fn get(&self, id: &str) -> (amount: Option<u32>)
        ensures
            match amount {
                Some(a) => self@.contains_key(id@) && self@[id@] == a,
                None => !self@.contains_key(id@),
            },
    {
        proof {
            use_type_invariant(self);
        }
        match self.ledger.index.get(id) {
            Some(place) => Some(self.ledger.amounts[*place]),
            None => None,
        }
    }

    /// The number of parts that have a total.
    pub fn len(&self) -> (count: usize)
        ensures
            count == self.keys().len(),
            count == self@.dom().len(),
    {
        proof {
            use_type_invariant(self);
            self.lemma_keys();
            self.keys().unique_seq_to_set();
            assert(self.keys().to_set() =~= self@.dom());
        }
        self.ledger.ids.len()
    }

    /// The parts and their totals, in the order the parts were first met.
    pub fn entries(&self) -> (entries: Vec<(PartId, u32)>)
        ensures
            entries@.len() == self.keys().len(),
            forall|i: int|
                0 <= i < entries@.len() ==> (#[trigger] entries@[i]).0@ == self.keys()[i]
                    && self@.contains_key(self.keys()[i]) && entries@[i].1 == self@[self.keys()[i]],
    {
        proof {
            use_type_invariant(self);
        }
        let mut entries: Vec<(PartId, u32)> = Vec::new();
        let mut i: usize = 0;
        while i < self.ledger.ids.len()
            invariant
                self.ledger.consistent(),
                i <= self.ledger.ids@.len(),
                entries@.len() == i,
                forall|j: int|
                    0 <= j < i ==> (#[trigger] entries@[j]).0@ == self.keys()[j]
                        && self@.contains_key(self.keys()[j])
                        && entries@[j].1 == self@[self.keys()[j]],
            decreases self.ledger.ids@.len() - i,
        {
            let id = self.ledger.ids[i].clone();
            let amount = self.ledger.amounts[i];
            entries.push((id, amount));
            i += 1;
        }
        entries
    }

    /// Adds `amount` to the total of part `id`, unless the total would pass
    /// `u32::MAX`: then nothing changes and the answer is `false`.
    pub fn add(&mut self, id: &str, amount: u32) -> (added: bool)
        ensures
            added == (amount_of(old(self)@, id@) + amount <= u32::MAX),
            added ==> final(self)@ == old(self)@.insert(
                id@,
                amount_of(old(self)@, id@) + amount as nat,
            ),
            !added ==> final(self)@ == old(self)@,
            final(self).keys() == if added && !old(self)@.contains_key(id@) {
                old(self).keys().push(id@)
            } else {
                old(self).keys()
            },
    {
        proof {
            use_type_invariant(&*self);
        }
        let mut ledger = Ledger::empty();
        core::mem::swap(&mut self.ledger, &mut ledger);
        let place = match ledger.index.get(id) {
            Some(p) => Some(*p),
            None => None,
        };
        let added = match place {
            Some(p) => {
                match ledger.amounts[p].checked_add(amount) {
                    Some(sum) => {
                        ledger.amounts.set(p, sum);
                        true
                    },
                    None => false,
                }
            },
            None => {
                let place = ledger.ids.len();
                ledger.ids.push(String::from_str(id));
                ledger.amounts.push(amount);
                ledger.index.insert(String::from_str(id), place);
                true
            },
        };
        core::mem::swap(&mut self.ledger, &mut ledger);
        added
    }

    /// The keys are the parts that have a total, each listed once.
    pub proof fn lemma_keys(self)
        requires
            self.well_formed(),
        ensures
            self.keys().no_duplicates(),
            forall|k: Seq<char>| self@.contains_key(k) <==> self.keys().contains(k),
    {
        let keys = self.keys();
        assert forall|k: Seq<char>| self@.contains_key(k) implies keys.contains(k) by {
            assert(keys[self.ledger.index@[k] as int] == k);
        }
    }
}

} // verus!
