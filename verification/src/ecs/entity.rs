//! Entity identities and their lifecycle.

use vstd::prelude::*;

verus! {

/// A handle to an entity: the slot it lives in and the generation of that
/// slot at its creation.  A handle whose generation the slot has left
/// behind is stale.
#[derive(Clone, Copy, Debug, PartialEq, Eq, Structural)]
pub struct EntityId {
    pub index: usize,
    pub generation: u64,
}

/// One slot of the store.  Its generation rises by one each time the
/// entity in it is destroyed.
#[derive(Clone, Copy, Debug, PartialEq, Eq, Structural)]
pub struct Slot {
    pub generation: u64,
    pub alive: bool,
}

/// Whether a slot can take a new entity: it is empty, and its generation
/// can still rise.
pub open spec fn vacant(slot: Slot) -> bool {
    !slot.alive && slot.generation < u64::MAX
}

/// The first vacant slot from `from` on, or the number of slots where none
/// is vacant.
pub open spec fn first_vacant(slots: Seq<Slot>, from: int) -> int
    decreases slots.len() - from,
{
    if from < 0 || from >= slots.len() {
        slots.len() as int
    } else if vacant(slots[from]) {
        from
    } else {
        first_vacant(slots, from + 1)
    }
}

/// Whether a handle names an entity that is alive.
pub open spec fn live(slots: Seq<Slot>, id: EntityId) -> bool {
    id.index < slots.len() && slots[id.index as int].alive && slots[id.index as int].generation
        == id.generation
}

/// The handle of the entity that lives in a slot.
pub open spec fn occupant(slots: Seq<Slot>, index: int) -> EntityId {
    EntityId { index: index as usize, generation: slots[index].generation }
}

/// The handle that the next creation gives out: the first vacant slot at
/// its present generation, or a new slot at generation 0.
pub open spec fn newcomer(slots: Seq<Slot>) -> EntityId {
    let at = first_vacant(slots, 0);
    if at < slots.len() {
        occupant(slots, at)
    } else {
        EntityId { index: at as usize, generation: 0 }
    }
}

/// The slots after a creation.
pub open spec fn admitted(slots: Seq<Slot>) -> Seq<Slot> {
    let at = first_vacant(slots, 0);
    if at < slots.len() {
        slots.update(at, Slot { generation: slots[at].generation, alive: true })
    } else {
        slots.push(Slot { generation: 0, alive: true })
    }
}

/// The slots after the entity in slot `index` is destroyed.
pub open spec fn retired(slots: Seq<Slot>, index: int) -> Seq<Slot> {
    slots.update(index, Slot { generation: (slots[index].generation + 1) as u64, alive: false })
}

/// Every live slot has a generation that can still rise.
pub open spec fn sound(slots: Seq<Slot>) -> bool {
    forall|i: int| 0 <= i < slots.len() && #[trigger] slots[i].alive ==> slots[i].generation < u64::MAX
}

/// The first vacant slot lies within the slots or just behind them, and no
/// slot before it is vacant.
pub proof fn lemma_first_vacant(slots: Seq<Slot>, from: int)
    requires
        0 <= from <= slots.len(),
    ensures
        from <= first_vacant(slots, from) <= slots.len(),
        first_vacant(slots, from) < slots.len() ==> vacant(slots[first_vacant(slots, from)]),
        forall|i: int| from <= i < first_vacant(slots, from) ==> !vacant(#[trigger] slots[i]),
    decreases slots.len() - from,
{
    if from < slots.len() && !vacant(slots[from]) {
        lemma_first_vacant(slots, from + 1);
    }
}

/// Whether the slot of a handle has left the generation of the handle
/// behind.
pub open spec fn outlived(slots: Seq<Slot>, id: EntityId) -> bool {
    id.index < slots.len() && slots[id.index as int].generation > id.generation
}

/// A handle that its slot has outlived names no live entity.
pub proof fn lemma_outlived_is_stale(slots: Seq<Slot>, id: EntityId)
    requires
        outlived(slots, id),
    ensures
        !live(slots, id),
{
}

/// The slot of a destroyed entity has outlived its handle.
pub proof fn lemma_retired_outlives(slots: Seq<Slot>, id: EntityId)
    requires
        sound(slots),
        live(slots, id),
    ensures
        outlived(retired(slots, id.index as int), id),
{
}

/// A slot that has outlived a handle has outlived it after any creation
/// and after any destruction: a stale handle stays stale.
pub proof fn lemma_outlived_for_good(slots: Seq<Slot>, id: EntityId, other: EntityId)
    requires
        sound(slots),
        outlived(slots, id),
    ensures
        outlived(admitted(slots), id),
        live(slots, other) ==> outlived(retired(slots, other.index as int), id),
{
    lemma_first_vacant(slots, 0);
}

/// The entities of a world: which slots are taken, and by which generation.
pub struct EntityStore {
    slots: Vec<Slot>,
}

impl View for EntityStore {
    type V = Seq<Slot>;

    closed spec fn view(&self) -> Seq<Slot> {
        self.slots@
    }
}

impl EntityStore {
    /// The invariant of the store.
    pub open spec fn wf(&self) -> bool {
        sound(self@)
    }

    /// A store without slots.
    pub fn new() -> (store: EntityStore)
        ensures
            store@ == Seq::<Slot>::empty(),
            store.wf(),
    {
        EntityStore { slots: Vec::new() }
    }

    /// Whether the invariant of the store holds.
    pub fn is_sound(&self) -> (ok: bool)
        ensures
            ok == self.wf(),
    {
        let n: usize = self.slots.len();
        let mut i: usize = 0;
        while i < n
            invariant
                n == self.slots@.len(),
                i <= n,
                forall|k: int|
                    0 <= k < i && #[trigger] self.slots@[k].alive ==> self.slots@[k].generation
                        < u64::MAX,
            decreases n - i,
        {
            if self.slots[i].alive && self.slots[i].generation == u64::MAX {
                return false;
            }
            i = i + 1;
        }
        true
    }

    /// The number of slots.
    pub fn capacity(&self) -> (n: usize)
        ensures
            n == self@.len(),
    {
        self.slots.len()
    }

    /// Whether the handle names an entity that is alive.
    pub fn is_alive(&self, id: EntityId) -> (alive: bool)
        ensures
            alive == live(self@, id),
    {
        id.index < self.slots.len() && self.slots[id.index].alive && self.slots[id.index].generation
            == id.generation
    }

    /// The handle of the entity that lives in slot `index`, if one does.
    pub fn entity_at(&self, index: usize) -> (found: Option<EntityId>)
        ensures
            found == if index < self@.len() && self@[index as int].alive {
                Some(occupant(self@, index as int))
            } else {
                None
            },
    {
        if index < self.slots.len() && self.slots[index].alive {
            Some(EntityId { index, generation: self.slots[index].generation })
        } else {
            None
        }
    }

    /// Creates an entity, in the first vacant slot or in a new one.
    pub fn create(&mut self) -> (id: EntityId)
        requires
            old(self).wf(),
        ensures
            final(self).wf(),
            final(self)@ == admitted(old(self)@),
            id == newcomer(old(self)@),
            live(final(self)@, id),
            !live(old(self)@, id),
    {
        let n: usize = self.slots.len();
        let mut i: usize = 0;
        while i < n
            invariant
                n == self.slots@.len(),
                i <= n,
                self.slots@ == old(self).slots@,
                sound(self.slots@),
                first_vacant(self.slots@, 0) == first_vacant(self.slots@, i as int),
            decreases n - i,
        {
            let slot: Slot = self.slots[i];
            if !slot.alive && slot.generation < u64::MAX {
                self.slots[i] = Slot { generation: slot.generation, alive: true };
                return EntityId { index: i, generation: slot.generation };
            }
            i = i + 1;
        }
        self.slots.push(Slot { generation: 0, alive: true });
        EntityId { index: n, generation: 0 }
    }

    /// Destroys the entity that the handle names, and says whether it was
    /// alive.  A stale handle changes nothing.
    pub fn destroy(&mut self, id: EntityId) -> (was_alive: bool)
        requires
            old(self).wf(),
        ensures
            final(self).wf(),
            was_alive == live(old(self)@, id),
            final(self)@ == if was_alive {
                retired(old(self)@, id.index as int)
            } else {
                old(self)@
            },
            !live(final(self)@, id),
    {
        if self.is_alive(id) {
            let generation: u64 = self.slots[id.index].generation;
            self.slots[id.index] = Slot { generation: generation + 1, alive: false };
            true
        } else {
            false
        }
    }
}

} // verus!
