//! How long a wave lives: what a commit does to the waves of a world.

use crate::ecs::entity::{live, occupant, Slot};
use crate::ecs::systems::encounter::{emitter, endings};
use crate::ecs::world::{Command, Snapshot};
use vstd::prelude::*;

verus! {

/// Whether the emitter in slot `index` is among the slots under `upto`.
pub open spec fn cleared(world: Snapshot, upto: int, index: int) -> bool {
    index < upto && emitter(world, index)
}

/// The world once the emitters in the slots under `upto` are destroyed:
/// their slots are empty at the next generation and carry nothing.
pub open spec fn purged(world: Snapshot, upto: int) -> Snapshot {
    Snapshot {
        slots: Seq::new(
            world.slots.len(),
            |i: int|
                if cleared(world, upto, i) {
                    Slot { generation: (world.slots[i].generation + 1) as u64, alive: false }
                } else {
                    world.slots[i]
                },
        ),
        positions: Map::new(
            |i: int| world.positions.dom().contains(i) && !cleared(world, upto, i),
            |i: int| world.positions[i],
        ),
        velocities: Map::new(
            |i: int| world.velocities.dom().contains(i) && !cleared(world, upto, i),
            |i: int| world.velocities[i],
        ),
        antennas: Map::new(
            |i: int| world.antennas.dom().contains(i) && !cleared(world, upto, i),
            |i: int| world.antennas[i],
        ),
        waves: Map::new(
            |i: int| world.waves.dom().contains(i) && !cleared(world, upto, i),
            |i: int| world.waves[i],
        ),
        profiles: Map::new(
            |i: int| world.profiles.dom().contains(i) && !cleared(world, upto, i),
            |i: int| world.profiles[i],
        ),
        illuminations: Map::new(
            |i: int| world.illuminations.dom().contains(i) && !cleared(world, upto, i),
            |i: int| world.illuminations[i],
        ),
        pending: world.pending,
    }
}

/// What the first `upto` commands do depends on those commands alone.
pub proof fn lemma_prefix(world: Snapshot, one: Seq<Command>, other: Seq<Command>, upto: int)
    requires
        0 <= upto <= one.len(),
        upto <= other.len(),
        forall|k: int| 0 <= k < upto ==> one[k] == other[k],
    ensures
        world.carried_out(one, upto) == world.carried_out(other, upto),
    decreases upto,
{
    if upto > 0 {
        lemma_prefix(world, one, other, upto - 1);
    }
}

/// A commit of the commands that end the waves of a consistent world
/// destroys every emitter in its slot.
pub proof fn lemma_endings(world: Snapshot, upto: int)
    requires
        world.consistent(),
        0 <= upto <= world.slots.len() <= usize::MAX,
    ensures
        world.carried_out(endings(world, upto), endings(world, upto).len() as int) == purged(
            world,
            upto,
        ),
    decreases upto,
{
    let commands = endings(world, upto);
    if upto <= 0 {
        assert(purged(world, upto) =~= world);
    } else {
        lemma_endings(world, upto - 1);
        let shorter = endings(world, upto - 1);
        let before = purged(world, upto - 1);
        if emitter(world, upto - 1) {
            let id = occupant(world.slots, upto - 1);
            lemma_prefix(world, commands, shorter, shorter.len() as int);
            assert(world.positions.dom().contains(upto - 1));
            assert(world.occupied(upto - 1));
            assert(id.index as int == upto - 1);
            assert(live(before.slots, id));
            assert(before.destroyed(id) =~= purged(world, upto));
        } else {
            assert(purged(world, upto) =~= before);
        }
    }
}

/// Once every emitter of a consistent world is destroyed, no wave is left.
pub proof fn lemma_purged(world: Snapshot)
    requires
        world.consistent(),
    ensures
        purged(world, world.slots.len() as int).waves.dom() == Set::<int>::empty(),
{
    let after = purged(world, world.slots.len() as int);
    assert forall|i: int| !after.waves.dom().contains(i) by {
        if world.waves.dom().contains(i) {
            assert(world.positions.dom().contains(i));
            assert(world.occupied(i));
        }
    }
    assert(after.waves.dom() =~= Set::<int>::empty());
}

/// The commands that end the waves depend on the slots and on which of
/// them carry a wave and a position.
pub proof fn lemma_endings_alike(world: Snapshot, other: Snapshot, upto: int)
    requires
        other.slots == world.slots,
        other.waves.dom() == world.waves.dom(),
        other.positions.dom() == world.positions.dom(),
    ensures
        endings(other, upto) == endings(world, upto),
    decreases upto,
{
    if upto > 0 {
        lemma_endings_alike(world, other, upto - 1);
    }
}

} // verus!
