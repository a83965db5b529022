//! The world: the entity store, one table for each kind of data, and the
//! commands that wait for the next commit.

use crate::data::{
    Antenna, EMWave, Illumination, Position, RcsModel, TargetIllumination, Velocity, RCS,
};
use crate::ecs::entity::{
    admitted, first_vacant, lemma_first_vacant, live, newcomer, retired, sound, EntityId,
    EntityStore, Slot,
};
use crate::ecs::census::{lemma_commit, lemma_population_alike, wave_count};
use crate::ecs::table::Table;
use vstd::prelude::*;

verus! {

/// A change to the set of entities that a stage asks for while it runs and
/// that the next commit carries out.
#[derive(Clone, Copy, Debug, PartialEq, Eq, Structural)]
pub enum Command {
    /// Create an entity that carries a wave at a position.
    Spawn { position: Position, wave: EMWave },
    /// Destroy an entity with all that it carries.
    Destroy { id: EntityId },
}

/// What a commit did to the waves.
#[derive(Clone, Copy, Debug, PartialEq, Eq, Structural)]
pub struct Commit {
    /// Entities created, each with a wave.
    pub waves_created: usize,
    /// Entities destroyed that carried a wave.
    pub waves_destroyed: usize,
}

/// Whether only slots that hold a live entity are among `carried`.
pub open spec fn housed(slots: Seq<Slot>, carried: Set<int>) -> bool {
    forall|i: int| #[trigger] carried.contains(i) ==> 0 <= i < slots.len() && slots[i].alive
}

/// What a world holds: its slots, what the entities carry by slot, and the
/// commands that wait.
#[verifier::ext_equal]
pub struct Snapshot {
    pub slots: Seq<Slot>,
    pub positions: Map<int, Position>,
    pub velocities: Map<int, Velocity>,
    pub antennas: Map<int, Antenna>,
    pub waves: Map<int, EMWave>,
    pub profiles: Map<int, RcsModel>,
    pub illuminations: Map<int, Seq<Illumination>>,
    pub pending: Seq<Command>,
}

impl Snapshot {
    /// A world without slots.
    pub open spec fn empty() -> Snapshot {
        Snapshot {
            slots: Seq::empty(),
            positions: Map::empty(),
            velocities: Map::empty(),
            antennas: Map::empty(),
            waves: Map::empty(),
            profiles: Map::empty(),
            illuminations: Map::empty(),
            pending: Seq::empty(),
        }
    }

    /// Whether slot `index` holds a live entity.
    pub open spec fn occupied(self, index: int) -> bool {
        0 <= index < self.slots.len() && self.slots[index].alive
    }

    /// Only live entities carry anything, and an entity that carries a wave
    /// has a position.
    pub open spec fn consistent(self) -> bool {
        &&& sound(self.slots)
        &&& housed(self.slots, self.positions.dom())
        &&& housed(self.slots, self.velocities.dom())
        &&& housed(self.slots, self.antennas.dom())
        &&& housed(self.slots, self.waves.dom())
        &&& housed(self.slots, self.profiles.dom())
        &&& housed(self.slots, self.illuminations.dom())
        &&& self.waves.dom().subset_of(self.positions.dom())
    }

    /// The world after an entity is created that carries nothing.
    pub open spec fn created(self) -> Snapshot {
        Snapshot { slots: admitted(self.slots), ..self }
    }

    /// The world after a wave is created at a position, on a new entity.
    pub open spec fn spawned(self, position: Position, wave: EMWave) -> Snapshot {
        let at = first_vacant(self.slots, 0);
        Snapshot {
            slots: admitted(self.slots),
            positions: self.positions.insert(at, position),
            waves: self.waves.insert(at, wave),
            ..self
        }
    }

    /// The world after the entity that `id` names is destroyed.  A stale
    /// handle changes nothing.
    pub open spec fn destroyed(self, id: EntityId) -> Snapshot {
        if live(self.slots, id) {
            let at = id.index as int;
            Snapshot {
                slots: retired(self.slots, at),
                positions: self.positions.remove(at),
                velocities: self.velocities.remove(at),
                antennas: self.antennas.remove(at),
                waves: self.waves.remove(at),
                profiles: self.profiles.remove(at),
                illuminations: self.illuminations.remove(at),
                pending: self.pending,
            }
        } else {
            self
        }
    }

    /// The world after one command is carried out.
    pub open spec fn performed(self, command: Command) -> Snapshot {
        match command {
            Command::Spawn { position, wave } => self.spawned(position, wave),
            Command::Destroy { id } => self.destroyed(id),
        }
    }

    /// The world after the first `upto` of the commands are carried out, in
    /// their order.
    pub open spec fn carried_out(self, commands: Seq<Command>, upto: int) -> Snapshot
        decreases upto,
    {
        if upto <= 0 {
            self
        } else {
            self.carried_out(commands, upto - 1).performed(commands[upto - 1])
        }
    }

    /// The world with no command waiting.
    pub open spec fn settled(self) -> Snapshot {
        Snapshot { pending: Seq::empty(), ..self }
    }

    /// The world after a commit: the waiting commands are carried out in
    /// their order, and none waits any more.
    pub open spec fn maintained(self) -> Snapshot {
        self.settled().carried_out(self.pending, self.pending.len() as int)
    }

    /// How many of the first `upto` commands create a wave.
    pub open spec fn creations(commands: Seq<Command>, upto: int) -> int
        decreases upto,
    {
        if upto <= 0 {
            0
        } else {
            Snapshot::creations(commands, upto - 1) + if commands[upto - 1] is Spawn {
                1int
            } else {
                0int
            }
        }
    }

    /// Whether a command, carried out on this world, destroys an entity
    /// that carries a wave.
    pub open spec fn ends_wave(self, command: Command) -> bool {
        command matches Command::Destroy { id } && live(self.slots, id) && self.waves.dom().contains(
            id.index as int,
        )
    }

    /// How many of the first `upto` commands, carried out in their order on
    /// this world, destroy an entity that carries a wave.
    pub open spec fn destructions(self, commands: Seq<Command>, upto: int) -> int
        decreases upto,
    {
        if upto <= 0 {
            0
        } else {
            self.destructions(commands, upto - 1) + if self.carried_out(
                commands,
                upto - 1,
            ).ends_wave(commands[upto - 1]) {
                1int
            } else {
                0int
            }
        }
    }
}

/// The world of a simulation.
pub struct World {
    pub entities: EntityStore,
    pub positions: Table<Position>,
    pub velocities: Table<Velocity>,
    pub antennas: Table<Antenna>,
    pub waves: Table<EMWave>,
    pub profiles: Table<RCS>,
    pub illuminations: Table<TargetIllumination>,
    pub pending: Vec<Command>,
}

impl View for World {
    type V = Snapshot;

    open spec fn view(&self) -> Snapshot {
        Snapshot {
            slots: self.entities@,
            positions: self.positions@,
            velocities: self.velocities@,
            antennas: self.antennas@,
            waves: self.waves@,
            profiles: self.profiles@,
            illuminations: self.illuminations@,
            pending: self.pending@,
        }
    }
}

impl World {
    /// The invariant of a world: every table has a cell for each slot, and
    /// what the world holds is consistent.
    pub open spec fn wf(&self) -> bool {
        &&& self.positions.cells() == self.entities@.len()
        &&& self.velocities.cells() == self.entities@.len()
        &&& self.antennas.cells() == self.entities@.len()
        &&& self.waves.cells() == self.entities@.len()
        &&& self.profiles.cells() == self.entities@.len()
        &&& self.illuminations.cells() == self.entities@.len()
        &&& self@.consistent()
    }

    /// A world without entities.
    pub fn new() -> (world: World)
        ensures
            world.wf(),
            world@ == Snapshot::empty(),
    {
        let world = World {
            entities: EntityStore::new(),
            positions: Table::new(),
            velocities: Table::new(),
            antennas: Table::new(),
            waves: Table::new(),
            profiles: Table::new(),
            illuminations: Table::new(),
            pending: Vec::new(),
        };
        assert(world@ =~= Snapshot::empty());
        world
    }

    /// Whether the invariant of the world holds.  It holds of a world that
    /// was made by [`World::new`] and changed through the functions of this
    /// crate alone.
    pub fn is_well_formed(&self) -> (ok: bool)
        ensures
            ok == self.wf(),
    {
        let n: usize = self.entities.capacity();
        if self.positions.capacity() != n || self.velocities.capacity() != n
            || self.antennas.capacity() != n || self.waves.capacity() != n
            || self.profiles.capacity() != n || self.illuminations.capacity() != n {
            return false;
        }
        if !self.entities.is_sound() {
            return false;
        }
        if !is_housed(&self.positions, &self.entities) {
            return false;
        }
        if !is_housed(&self.velocities, &self.entities) {
            return false;
        }
        if !is_housed(&self.antennas, &self.entities) {
            return false;
        }
        if !is_housed(&self.waves, &self.entities) {
            return false;
        }
        if !is_housed(&self.profiles, &self.entities) {
            return false;
        }
        if !is_housed(&self.illuminations, &self.entities) {
            return false;
        }
        let mut i: usize = 0;
        while i < n
            invariant
                n == self.waves.cells(),
                i <= n,
                forall|k: int|
                    0 <= k < i && #[trigger] self.waves@.dom().contains(k)
                        ==> self.positions@.dom().contains(k),
            decreases n - i,
        {
            if self.waves.contains(i) && !self.positions.contains(i) {
                assert(self@.waves.dom().contains(i as int));
                return false;
            }
            i = i + 1;
        }
        proof {
            self.waves.lemma_within();
        }
        true
    }

    /// The number of slots.
    pub fn capacity(&self) -> (n: usize)
        ensures
            n == self@.slots.len(),
    {
        self.entities.capacity()
    }

    /// Whether the handle names an entity that is alive.
    pub fn is_alive(&self, id: EntityId) -> (alive: bool)
        ensures
            alive == live(self@.slots, id),
    {
        self.entities.is_alive(id)
    }

    /// Gives every table a cell for the slot at `index`, where that slot is
    /// new.
    fn make_room(&mut self, index: usize)
        requires
            old(self).positions.cells() == old(self).velocities.cells(),
            old(self).positions.cells() == old(self).antennas.cells(),
            old(self).positions.cells() == old(self).waves.cells(),
            old(self).positions.cells() == old(self).profiles.cells(),
            old(self).positions.cells() == old(self).illuminations.cells(),
            index <= old(self).positions.cells(),
        ensures
            final(self)@ == old(self)@,
            index == old(self).positions.cells() ==> final(self).positions.cells() == index + 1,
            index < old(self).positions.cells() ==> final(self).positions.cells() == old(
                self,
            ).positions.cells(),
            final(self).positions.cells() == final(self).velocities.cells(),
            final(self).positions.cells() == final(self).antennas.cells(),
            final(self).positions.cells() == final(self).waves.cells(),
            final(self).positions.cells() == final(self).profiles.cells(),
            final(self).positions.cells() == final(self).illuminations.cells(),
    {
        if index == self.positions.capacity() {
            self.positions.grow();
            self.velocities.grow();
            self.antennas.grow();
            self.waves.grow();
            self.profiles.grow();
            self.illuminations.grow();
        }
    }

    /// Creates an entity that carries nothing.
    pub fn create(&mut self) -> (id: EntityId)
        requires
            old(self).wf(),
        ensures
            final(self).wf(),
            final(self)@ == old(self)@.created(),
            id == newcomer(old(self)@.slots),
            live(final(self)@.slots, id),
    {
        proof {
            lemma_first_vacant(self@.slots, 0);
        }
        let id: EntityId = self.entities.create();
        self.make_room(id.index);
        assert(self@ =~= old(self)@.created());
        id
    }

    /// Creates an entity that carries a wave at a position.
    pub fn spawn(&mut self, position: Position, wave: EMWave) -> (id: EntityId)
        requires
            old(self).wf(),
        ensures
            final(self).wf(),
            final(self)@ == old(self)@.spawned(position, wave),
            id == newcomer(old(self)@.slots),
            live(final(self)@.slots, id),
    {
        proof {
            lemma_first_vacant(self@.slots, 0);
        }
        let id: EntityId = self.entities.create();
        self.make_room(id.index);
        self.positions.insert(id.index, position);
        self.waves.insert(id.index, wave);
        assert(self@ =~= old(self)@.spawned(position, wave));
        id
    }

    /// Destroys the entity that the handle names, with all that it carries,
    /// and says whether it was alive.  A stale handle changes nothing.
    pub fn destroy(&mut self, id: EntityId) -> (was_alive: bool)
        requires
            old(self).wf(),
        ensures
            final(self).wf(),
            was_alive == live(old(self)@.slots, id),
            final(self)@ == old(self)@.destroyed(id),
    {
        if self.entities.destroy(id) {
            let _ = self.positions.remove(id.index);
            let _ = self.velocities.remove(id.index);
            let _ = self.antennas.remove(id.index);
            let _ = self.waves.remove(id.index);
            let _ = self.profiles.remove(id.index);
            let _ = self.illuminations.remove(id.index);
            assert(self@ =~= old(self)@.destroyed(id));
            true
        } else {
            false
        }
    }

    /// Gives a live entity a position, in place of the one it had.  Says
    /// whether the entity was alive; a stale handle changes nothing.
    pub fn insert_position(&mut self, id: EntityId, position: Position) -> (done: bool)
        requires
            old(self).wf(),
        ensures
            final(self).wf(),
            done == live(old(self)@.slots, id),
            final(self)@ == if done {
                Snapshot {
                    positions: old(self)@.positions.insert(id.index as int, position),
                    ..old(self)@
                }
            } else {
                old(self)@
            },
    {
        if self.entities.is_alive(id) {
            self.positions.insert(id.index, position);
            true
        } else {
            false
        }
    }

    /// Gives a live entity a velocity.  Says whether the entity was alive.
    pub fn insert_velocity(&mut self, id: EntityId, velocity: Velocity) -> (done: bool)
        requires
            old(self).wf(),
        ensures
            final(self).wf(),
            done == live(old(self)@.slots, id),
            final(self)@ == if done {
                Snapshot {
                    velocities: old(self)@.velocities.insert(id.index as int, velocity),
                    ..old(self)@
                }
            } else {
                old(self)@
            },
    {
        if self.entities.is_alive(id) {
            self.velocities.insert(id.index, velocity);
            true
        } else {
            false
        }
    }

    /// Gives a live entity an antenna.  Says whether the entity was alive.
    pub fn insert_antenna(&mut self, id: EntityId, antenna: Antenna) -> (done: bool)
        requires
            old(self).wf(),
        ensures
            final(self).wf(),
            done == live(old(self)@.slots, id),
            final(self)@ == if done {
                Snapshot {
                    antennas: old(self)@.antennas.insert(id.index as int, antenna),
                    ..old(self)@
                }
            } else {
                old(self)@
            },
    {
        if self.entities.is_alive(id) {
            self.antennas.insert(id.index, antenna);
            true
        } else {
            false
        }
    }

    /// Gives a live entity that has a position a wave.  Says whether it did.
    pub fn insert_wave(&mut self, id: EntityId, wave: EMWave) -> (done: bool)
        requires
            old(self).wf(),
        ensures
            final(self).wf(),
            done == (live(old(self)@.slots, id) && old(self)@.positions.dom().contains(
                id.index as int,
            )),
            final(self)@ == if done {
                Snapshot { waves: old(self)@.waves.insert(id.index as int, wave), ..old(self)@ }
            } else {
                old(self)@
            },
    {
        if self.entities.is_alive(id) && self.positions.contains(id.index) {
            self.waves.insert(id.index, wave);
            true
        } else {
            false
        }
    }

    /// Gives a live entity a cross-section profile.  Says whether the
    /// entity was alive.
    pub fn insert_profile(&mut self, id: EntityId, profile: RCS) -> (done: bool)
        requires
            old(self).wf(),
        ensures
            final(self).wf(),
            done == live(old(self)@.slots, id),
            final(self)@ == if done {
                Snapshot {
                    profiles: old(self)@.profiles.insert(id.index as int, profile@),
                    ..old(self)@
                }
            } else {
                old(self)@
            },
    {
        if self.entities.is_alive(id) {
            self.profiles.insert(id.index, profile);
            true
        } else {
            false
        }
    }

    /// Gives a live entity a list of hits.  Says whether the entity was
    /// alive.
    pub fn insert_illuminations(&mut self, id: EntityId, hits: TargetIllumination) -> (done: bool)
        requires
            old(self).wf(),
        ensures
            final(self).wf(),
            done == live(old(self)@.slots, id),
            final(self)@ == if done {
                Snapshot {
                    illuminations: old(self)@.illuminations.insert(id.index as int, hits@),
                    ..old(self)@
                }
            } else {
                old(self)@
            },
    {
        if self.entities.is_alive(id) {
            self.illuminations.insert(id.index, hits);
            true
        } else {
            false
        }
    }

    /// Asks for a wave at a position, to be created with the next commit.
    pub fn defer_spawn(&mut self, position: Position, wave: EMWave)
        requires
            old(self).wf(),
        ensures
            final(self).wf(),
            final(self)@ == (Snapshot {
                pending: old(self)@.pending.push(Command::Spawn { position, wave }),
                ..old(self)@
            }),
    {
        self.pending.push(Command::Spawn { position, wave });
    }

    /// Asks for an entity to be destroyed with the next commit.
    pub fn defer_destroy(&mut self, id: EntityId)
        requires
            old(self).wf(),
        ensures
            final(self).wf(),
            final(self)@ == (Snapshot {
                pending: old(self)@.pending.push(Command::Destroy { id }),
                ..old(self)@
            }),
    {
        self.pending.push(Command::Destroy { id });
    }

    /// The commit: carries out the waiting commands in their order, and
    /// says how many waves that created and destroyed.
    pub fn maintain(&mut self) -> (commit: Commit)
        requires
            old(self).wf(),
        ensures
            final(self).wf(),
            final(self)@ == old(self)@.maintained(),
            final(self)@.pending == Seq::<Command>::empty(),
            wave_count(final(self)@) == wave_count(old(self)@) + commit.waves_created
                - commit.waves_destroyed,
            commit.waves_created == Snapshot::creations(
                old(self)@.pending,
                old(self)@.pending.len() as int,
            ),
            commit.waves_destroyed == old(self)@.settled().destructions(
                old(self)@.pending,
                old(self)@.pending.len() as int,
            ),
    {
        let ghost commands: Seq<Command> = self@.pending;
        let ghost base: Snapshot = self@.settled();
        let n: usize = self.pending.len();
        let mut waves_created: usize = 0;
        let mut waves_destroyed: usize = 0;
        let mut i: usize = 0;
        assert(self@ =~= (Snapshot { pending: commands, ..base.carried_out(commands, 0) }));
        while i < n
            invariant
                n == commands.len(),
                i <= n,
                self.wf(),
                self@ == (Snapshot { pending: commands, ..base.carried_out(commands, i as int) }),
                waves_created == Snapshot::creations(commands, i as int),
                waves_destroyed == base.destructions(commands, i as int),
                waves_created <= i,
                waves_destroyed <= i,
            decreases n - i,
        {
            let command: Command = self.pending[i];
            let ghost before: Snapshot = base.carried_out(commands, i as int);
            match command {
                Command::Spawn { position, wave } => {
                    let _ = self.spawn(position, wave);
                    waves_created = waves_created + 1;
                },
                Command::Destroy { id } => {
                    let carried_wave: bool = self.waves.contains(id.index);
                    if self.destroy(id) && carried_wave {
                        waves_destroyed = waves_destroyed + 1;
                    }
                },
            }
            assert(self@ =~= (Snapshot { pending: commands, ..before.performed(command) }));
            i = i + 1;
        }
        let ghost done: Snapshot = self@;
        self.pending.clear();
        proof {
            lemma_commands_stay(base, commands, n as int);
            assert(self@ =~= done.settled());
            assert(self@ =~= old(self)@.maintained());
            lemma_consistent_alike(old(self)@, base);
            lemma_commit(base, commands, n as int);
            lemma_population_alike(old(self)@, base, base.slots.len() as int);
        }
        Commit { waves_created, waves_destroyed }
    }

    /// The position of a live entity.
    pub fn position(&self, id: EntityId) -> (found: Option<Position>)
        ensures
            found == if live(self@.slots, id) && self@.positions.dom().contains(id.index as int) {
                Some(self@.positions[id.index as int])
            } else {
                None
            },
    {
        if self.entities.is_alive(id) {
            match self.positions.get(id.index) {
                Some(position) => Some(*position),
                None => None,
            }
        } else {
            None
        }
    }

    /// The velocity of a live entity.
    pub fn velocity(&self, id: EntityId) -> (found: Option<Velocity>)
        ensures
            found == if live(self@.slots, id) && self@.velocities.dom().contains(id.index as int) {
                Some(self@.velocities[id.index as int])
            } else {
                None
            },
    {
        if self.entities.is_alive(id) {
            match self.velocities.get(id.index) {
                Some(velocity) => Some(*velocity),
                None => None,
            }
        } else {
            None
        }
    }

    /// The antenna of a live entity.
    pub fn antenna(&self, id: EntityId) -> (found: Option<Antenna>)
        ensures
            found == if live(self@.slots, id) && self@.antennas.dom().contains(id.index as int) {
                Some(self@.antennas[id.index as int])
            } else {
                None
            },
    {
        if self.entities.is_alive(id) {
            match self.antennas.get(id.index) {
                Some(antenna) => Some(*antenna),
                None => None,
            }
        } else {
            None
        }
    }

    /// The wave of a live entity.
    pub fn wave(&self, id: EntityId) -> (found: Option<EMWave>)
        ensures
            found == if live(self@.slots, id) && self@.waves.dom().contains(id.index as int) {
                Some(self@.waves[id.index as int])
            } else {
                None
            },
    {
        if self.entities.is_alive(id) {
            match self.waves.get(id.index) {
                Some(wave) => Some(*wave),
                None => None,
            }
        } else {
            None
        }
    }

    /// The hits of a live entity that wait to be reflected, oldest first.
    pub fn illuminations_of(&self, id: EntityId) -> (found: Option<Vec<Illumination>>)
        ensures
            found is Some == (live(self@.slots, id) && self@.illuminations.dom().contains(
                id.index as int,
            )),
            found matches Some(hits) ==> hits@ == self@.illuminations[id.index as int],
    {
        if self.entities.is_alive(id) {
            match self.illuminations.get(id.index) {
                Some(target) => {
                    let mut hits: Vec<Illumination> = Vec::new();
                    let mut k: usize = 0;
                    while k < target.illuminations.len()
                        invariant
                            k <= target.illuminations@.len(),
                            hits@ == target.illuminations@.subrange(0, k as int),
                        decreases target.illuminations@.len() - k,
                    {
                        hits.push(target.illuminations[k]);
                        assert(hits@ =~= target.illuminations@.subrange(0, k + 1));
                        k = k + 1;
                    }
                    assert(hits@ =~= target.illuminations@);
                    Some(hits)
                },
                None => None,
            }
        } else {
            None
        }
    }

    /// The live entities that carry a wave, by rising slot.
    pub fn wave_entities(&self) -> (ids: Vec<EntityId>)
        requires
            self.wf(),
        ensures
            ids@ == wave_bearers(self@, self@.slots.len() as int),
    {
        let n: usize = self.entities.capacity();
        let mut ids: Vec<EntityId> = Vec::new();
        let mut i: usize = 0;
        while i < n
            invariant
                n == self@.slots.len(),
                i <= n,
                self.wf(),
                ids@ == wave_bearers(self@, i as int),
            decreases n - i,
        {
            if self.waves.contains(i) {
                match self.entities.entity_at(i) {
                    Some(id) => {
                        ids.push(id);
                    },
                    None => {},
                }
            }
            i = i + 1;
        }
        ids
    }
}

/// Whether only slots that hold a live entity carry something in a table.
fn is_housed<T: View>(table: &Table<T>, entities: &EntityStore) -> (ok: bool)
    ensures
        ok == housed(entities@, table@.dom()),
{
    let n: usize = table.capacity();
    let mut i: usize = 0;
    while i < n
        invariant
            n == table.cells(),
            i <= n,
            forall|k: int|
                0 <= k < i && #[trigger] table@.dom().contains(k) ==> k < entities@.len()
                    && entities@[k].alive,
        decreases n - i,
    {
        if table.contains(i) && entities.entity_at(i).is_none() {
            return false;
        }
        i = i + 1;
    }
    proof {
        table.lemma_within();
    }
    true
}

/// A world with the slots of a consistent one, in which the same slots
/// carry each kind of data, but that fewer may hold hits, is consistent.
pub proof fn lemma_consistent_alike(known: Snapshot, other: Snapshot)
    requires
        known.consistent(),
        other.slots == known.slots,
        other.positions.dom() =~= known.positions.dom(),
        other.velocities.dom() =~= known.velocities.dom(),
        other.antennas.dom() =~= known.antennas.dom(),
        other.waves.dom() =~= known.waves.dom(),
        other.profiles.dom() =~= known.profiles.dom(),
        other.illuminations.dom().subset_of(known.illuminations.dom()),
    ensures
        other.consistent(),
{
    assert forall|i: int| #[trigger] other.positions.dom().contains(i) implies other.occupied(
        i,
    ) by {
        assert(known.positions.dom().contains(i));
    }
    assert forall|i: int| #[trigger] other.velocities.dom().contains(i) implies other.occupied(
        i,
    ) by {
        assert(known.velocities.dom().contains(i));
    }
    assert forall|i: int| #[trigger] other.antennas.dom().contains(i) implies other.occupied(
        i,
    ) by {
        assert(known.antennas.dom().contains(i));
    }
    assert forall|i: int| #[trigger] other.waves.dom().contains(i) implies other.occupied(i) by {
        assert(known.waves.dom().contains(i));
    }
    assert forall|i: int| #[trigger] other.profiles.dom().contains(i) implies other.occupied(
        i,
    ) by {
        assert(known.profiles.dom().contains(i));
    }
    assert forall|i: int| #[trigger] other.illuminations.dom().contains(i) implies other.occupied(
        i,
    ) by {
        assert(known.illuminations.dom().contains(i));
    }
    assert forall|i: int| #[trigger]
        other.waves.dom().contains(i) implies other.positions.dom().contains(i) by {
        assert(known.waves.dom().contains(i));
    }
}

/// Carrying commands out leaves the waiting commands as they are.
pub proof fn lemma_commands_stay(world: Snapshot, commands: Seq<Command>, upto: int)
    ensures
        world.carried_out(commands, upto).pending == world.pending,
    decreases upto,
{
    if upto > 0 {
        lemma_commands_stay(world, commands, upto - 1);
    }
}

/// The handles of the entities in the slots under `upto` that carry a wave,
/// by rising slot.
pub open spec fn wave_bearers(world: Snapshot, upto: int) -> Seq<EntityId>
    decreases upto,
{
    if upto <= 0 {
        Seq::empty()
    } else if world.waves.dom().contains(upto - 1) {
        wave_bearers(world, upto - 1).push(crate::ecs::entity::occupant(world.slots, upto - 1))
    } else {
        wave_bearers(world, upto - 1)
    }
}

} // verus!
