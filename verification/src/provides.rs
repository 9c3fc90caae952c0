//! Which packages provide a capability.
use vstd::prelude::*;
use crate::package::{NameId, SolvableId};

verus! {

/// The packages that provide each capability, in the order in which they were registered.
pub struct ProvidesMap {
    lists: Vec<Vec<SolvableId>>,
}

impl ProvidesMap {
    /// The packages that provide the capability.
    pub closed spec fn of(self, id: NameId) -> Seq<SolvableId> {
        if id.0 < self.lists@.len() {
            self.lists@[id.0 as int]@
        } else {
            Seq::empty()
        }
    }

    /// A map in which nothing is provided.
    pub fn new() -> (r: ProvidesMap)
        ensures
            forall|id: NameId| #[trigger] r.of(id) == Seq::<SolvableId>::empty(),
    {
        ProvidesMap { lists: Vec::new() }
    }

    /// The packages that provide the capability, or `None` where there are none.
    pub fn get(&self, id: NameId) -> (r: Option<&Vec<SolvableId>>)
        ensures
            match r {
                Some(list) => list@ == self.of(id) && list@.len() > 0,
                None => self.of(id).len() == 0,
            },
    {
        let index: usize = id.0 as usize;
        if index < self.lists.len() && self.lists[index].len() > 0 {
            Some(&self.lists[index])
        } else {
            None
        }
    }

    /// Makes room for the list of a capability.
    fn reserve(&mut self, id: NameId)
        ensures
            final(self).lists@.len() > id.0,
            forall|other: NameId| #[trigger] final(self).of(other) == old(self).of(other),
    {
        let index: usize = id.0 as usize;
        while self.lists.len() <= index
            invariant
                index == id.0,
                forall|other: NameId| #[trigger] self.of(other) == old(self).of(other),
            decreases index + 1 - self.lists@.len(),
        {
            let ghost before = *self;
            self.lists.push(Vec::new());
            assert forall|other: NameId| #[trigger] self.of(other) == old(self).of(other) by {
                assert(before.of(other) == old(self).of(other));
                assert(self.of(other) =~= before.of(other));
            }
        }
    }

    /// Registers a package as a provider of the capability.
    pub fn push(&mut self, id: NameId, solvable: SolvableId)
        ensures
            final(self).of(id) == old(self).of(id).push(solvable),
            forall|other: NameId|
                other != id ==> #[trigger] final(self).of(other) == old(self).of(other),
    {
        self.reserve(id);
        let index: usize = id.0 as usize;
        let ghost before = *self;
        self.lists[index].push(solvable);
        assert(before.of(id) == old(self).of(id));
        assert forall|other: NameId| other != id implies #[trigger] self.of(other) == old(
            self,
        ).of(other) by {
            assert(before.of(other) == old(self).of(other));
        }
    }

    /// Registers each of the packages as a provider of the capability.
    pub fn extend(&mut self, id: NameId, solvables: &Vec<SolvableId>)
        ensures
            final(self).of(id) == old(self).of(id) + solvables@,
            forall|other: NameId|
                other != id ==> #[trigger] final(self).of(other) == old(self).of(other),
    {
        let mut i: usize = 0;
        while i < solvables.len()
            invariant
                i <= solvables@.len(),
                self.of(id) == old(self).of(id) + solvables@.take(i as int),
                forall|other: NameId|
                    other != id ==> #[trigger] self.of(other) == old(self).of(other),
            decreases solvables@.len() - i,
        {
            self.push(id, solvables[i]);
            i = i + 1;
            assert(self.of(id) =~= old(self).of(id) + solvables@.take(i as int));
        }
        assert(solvables@.take(i as int) =~= solvables@);
    }
}

} // verus!
