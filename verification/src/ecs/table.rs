//! Sparse storage of one kind of data, by slot.

use vstd::prelude::*;

verus! {

/// The data of one kind that the entities carry, one cell for each slot of
/// the store.  Its view maps the slots that carry something to what they
/// carry.
pub struct Table<T> {
    cells: Vec<Option<T>>,
}

impl<T: View> View for Table<T> {
    type V = Map<int, T::V>;

    closed spec fn view(&self) -> Map<int, T::V> {
        Map::new(
            |i: int| 0 <= i < self.cells@.len() && self.cells@[i] is Some,
            |i: int| self.cells@[i]->Some_0@,
        )
    }
}

impl<T: View> Table<T> {
    /// The number of cells.
    pub closed spec fn cells(&self) -> nat {
        self.cells@.len()
    }

    /// Only cells of the table carry something.
    pub proof fn lemma_within(&self)
        ensures
            forall|i: int| self@.dom().contains(i) ==> 0 <= i < self.cells(),
    {
    }

    /// A table without cells.
    pub fn new() -> (table: Table<T>)
        ensures
            table@ == Map::<int, T::V>::empty(),
            table.cells() == 0,
    {
        let table = Table { cells: Vec::new() };
        assert(table@ =~= Map::<int, T::V>::empty());
        table
    }

    /// The number of cells.
    pub fn capacity(&self) -> (n: usize)
        ensures
            n == self.cells(),
    {
        self.cells.len()
    }

    /// Adds an empty cell at the end.
    pub fn grow(&mut self)
        ensures
            final(self)@ == old(self)@,
            final(self).cells() == old(self).cells() + 1,
    {
        self.cells.push(None);
        assert(self@ =~= old(self)@);
    }

    /// Whether the cell at `index` carries something.
    pub fn contains(&self, index: usize) -> (held: bool)
        ensures
            held == self@.dom().contains(index as int),
    {
        index < self.cells.len() && self.cells[index].is_some()
    }

    /// What the cell at `index` carries.
    pub fn get(&self, index: usize) -> (found: Option<&T>)
        ensures
            found is Some == self@.dom().contains(index as int),
            found matches Some(value) ==> value@ == self@[index as int],
    {
        if index < self.cells.len() {
            self.cells[index].as_ref()
        } else {
            None
        }
    }

    /// The cells that carry something, by rising index.
    pub fn occupied(&self) -> (found: Vec<usize>)
        ensures
            forall|k: int| 0 <= k < found@.len() ==> self@.dom().contains(#[trigger] found@[k] as int),
            forall|k: int, m: int| 0 <= k < m < found@.len() ==> found@[k] < found@[m],
            forall|i: int|
                self@.dom().contains(i) ==> exists|k: int|
                    0 <= k < found@.len() && #[trigger] found@[k] == i,
    {
        let n: usize = self.cells.len();
        let mut found: Vec<usize> = Vec::new();
        let mut i: usize = 0;
        while i < n
            invariant
                n == self.cells@.len(),
                i <= n,
                forall|k: int|
                    0 <= k < found@.len() ==> self@.dom().contains(#[trigger] found@[k] as int)
                        && found@[k] < i,
                forall|k: int, m: int| 0 <= k < m < found@.len() ==> found@[k] < found@[m],
                forall|j: int|
                    self@.dom().contains(j) && j < i ==> exists|k: int|
                        0 <= k < found@.len() && #[trigger] found@[k] == j,
            decreases n - i,
        {
            if self.cells[i].is_some() {
                let ghost before: Seq<usize> = found@;
                found.push(i);
                assert forall|j: int| self@.dom().contains(j) && j < i + 1 implies exists|k: int|
                    0 <= k < found@.len() && #[trigger] found@[k] == j by {
                    if j < i {
                        let k = choose|k: int| 0 <= k < before.len() && #[trigger] before[k] == j;
                        assert(found@[k] == j);
                    } else {
                        assert(found@[before.len() as int] == j);
                    }
                }
            }
            i = i + 1;
        }
        found
    }

    /// Puts `value` into the cell at `index`, in place of what the cell
    /// carried.
    pub fn insert(&mut self, index: usize, value: T)
        requires
            index < old(self).cells(),
        ensures
            final(self)@ == old(self)@.insert(index as int, value@),
            final(self).cells() == old(self).cells(),
    {
        self.cells[index] = Some(value);
        assert(self@ =~= old(self)@.insert(index as int, value@));
    }

    /// Empties the cell at `index` and hands out what it carried.
    pub fn remove(&mut self, index: usize) -> (taken: Option<T>)
        ensures
            final(self)@ == old(self)@.remove(index as int),
            final(self).cells() == old(self).cells(),
            taken is Some == old(self)@.dom().contains(index as int),
            taken matches Some(value) ==> value@ == old(self)@[index as int],
    {
        if index < self.cells.len() {
            let taken: Option<T> = self.cells[index].take();
            assert(self@ =~= old(self)@.remove(index as int));
            taken
        } else {
            assert(self@ =~= old(self)@.remove(index as int));
            None
        }
    }
}

} // verus!
