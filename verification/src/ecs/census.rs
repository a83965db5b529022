//! Counting waves: what one command, and what a commit, does to the number
//! of waves in a world.

use crate::data::{EMWave, Position};
use crate::ecs::entity::{first_vacant, lemma_first_vacant, live, EntityId};
use crate::ecs::world::{Command, Snapshot};
use vstd::prelude::*;

verus! {

/// How many of the slots under `upto` carry a wave.
pub open spec fn population(world: Snapshot, upto: int) -> int
    decreases upto,
{
    if upto <= 0 {
        0
    } else {
        population(world, upto - 1) + if world.waves.dom().contains(upto - 1) {
            1int
        } else {
            0int
        }
    }
}

/// How many entities carry a wave.
pub open spec fn wave_count(world: Snapshot) -> int {
    population(world, world.slots.len() as int)
}

/// The count of waves rises by one where a slot under `upto` gains a wave.
pub proof fn lemma_population_gain(world: Snapshot, other: Snapshot, at: int, upto: int)
    requires
        !world.waves.dom().contains(at),
        other.waves.dom() == world.waves.dom().insert(at),
    ensures
        population(other, upto) == population(world, upto) + if 0 <= at < upto {
            1int
        } else {
            0int
        },
    decreases upto,
{
    if upto > 0 {
        lemma_population_gain(world, other, at, upto - 1);
    }
}

/// The count of waves depends on the slots that carry one alone.
pub proof fn lemma_population_alike(world: Snapshot, other: Snapshot, upto: int)
    requires
        other.waves.dom() == world.waves.dom(),
    ensures
        population(other, upto) == population(world, upto),
    decreases upto,
{
    if upto > 0 {
        lemma_population_alike(world, other, upto - 1);
    }
}

/// Where no slot carries a wave, the count of waves is zero.
pub proof fn lemma_population_none(world: Snapshot, upto: int)
    requires
        world.waves.dom() == Set::<int>::empty(),
    ensures
        population(world, upto) == 0,
    decreases upto,
{
    if upto > 0 {
        lemma_population_none(world, upto - 1);
    }
}

/// A wave created in a consistent world leaves it consistent, with one
/// wave more.
pub proof fn lemma_spawned(world: Snapshot, position: Position, wave: EMWave)
    requires
        world.consistent(),
    ensures
        world.spawned(position, wave).consistent(),
        wave_count(world.spawned(position, wave)) == wave_count(world) + 1,
{
    let after = world.spawned(position, wave);
    let at = first_vacant(world.slots, 0);
    let n = world.slots.len() as int;
    lemma_first_vacant(world.slots, 0);
    assert(!world.waves.dom().contains(at)) by {
        if world.waves.dom().contains(at) {
            assert(world.occupied(at));
        }
    }
    assert forall|i: int| world.occupied(i) implies after.occupied(i) by {}
    assert(after.occupied(at));
    assert forall|i: int| #[trigger] after.positions.dom().contains(i) implies after.occupied(
        i,
    ) by {
        if i != at {
            assert(world.positions.dom().contains(i));
        }
    }
    assert forall|i: int| #[trigger] after.waves.dom().contains(i) implies after.occupied(i)
        && after.positions.dom().contains(i) by {
        if i != at {
            assert(world.waves.dom().contains(i));
        }
    }
    assert forall|i: int| #[trigger] after.velocities.dom().contains(i) implies after.occupied(
        i,
    ) by {
        assert(world.velocities.dom().contains(i));
    }
    assert forall|i: int| #[trigger] after.antennas.dom().contains(i) implies after.occupied(
        i,
    ) by {
        assert(world.antennas.dom().contains(i));
    }
    assert forall|i: int| #[trigger] after.profiles.dom().contains(i) implies after.occupied(
        i,
    ) by {
        assert(world.profiles.dom().contains(i));
    }
    assert forall|i: int| #[trigger] after.illuminations.dom().contains(i) implies after.occupied(
        i,
    ) by {
        assert(world.illuminations.dom().contains(i));
    }
    lemma_population_gain(world, after, at, after.slots.len() as int);
    if at == n {
        assert(!world.waves.dom().contains(n)) by {
            if world.waves.dom().contains(n) {
                assert(world.occupied(n));
            }
        }
        assert(population(world, n + 1) == population(world, n));
    }
}

/// An entity destroyed in a consistent world leaves it consistent, with
/// one wave less where the entity was alive and carried one, and with the
/// waves it had otherwise.
pub proof fn lemma_destroyed(world: Snapshot, id: EntityId)
    requires
        world.consistent(),
    ensures
        world.destroyed(id).consistent(),
        wave_count(world.destroyed(id)) == wave_count(world) - if world.ends_wave(
            Command::Destroy { id },
        ) {
            1int
        } else {
            0int
        },
{
    let after = world.destroyed(id);
    if live(world.slots, id) {
        let at = id.index as int;
        assert forall|i: int| world.occupied(i) && i != at implies after.occupied(i) by {}
        assert forall|i: int| #[trigger] after.positions.dom().contains(i) implies after.occupied(
            i,
        ) by {
            assert(world.positions.dom().contains(i));
        }
        assert forall|i: int| #[trigger] after.waves.dom().contains(i) implies after.occupied(i)
            && after.positions.dom().contains(i) by {
            assert(world.waves.dom().contains(i));
        }
        assert forall|i: int| #[trigger] after.velocities.dom().contains(i) implies after.occupied(
            i,
        ) by {
            assert(world.velocities.dom().contains(i));
        }
        assert forall|i: int| #[trigger] after.antennas.dom().contains(i) implies after.occupied(
            i,
        ) by {
            assert(world.antennas.dom().contains(i));
        }
        assert forall|i: int| #[trigger] after.profiles.dom().contains(i) implies after.occupied(
            i,
        ) by {
            assert(world.profiles.dom().contains(i));
        }
        assert forall|i: int| #[trigger] after.illuminations.dom().contains(i) implies after.occupied(
            i,
        ) by {
            assert(world.illuminations.dom().contains(i));
        }
        if world.waves.dom().contains(at) {
            assert(world.waves.dom() =~= after.waves.dom().insert(at));
            lemma_population_gain(after, world, at, world.slots.len() as int);
        } else {
            assert(world.waves.dom() =~= after.waves.dom());
            lemma_population_alike(world, after, world.slots.len() as int);
        }
    }
}

/// A commit on a consistent world leaves it consistent, and the waves
/// after it are the waves before it, plus those it has created, less those
/// it has destroyed.
pub proof fn lemma_commit(world: Snapshot, commands: Seq<Command>, upto: int)
    requires
        world.consistent(),
        0 <= upto <= commands.len(),
    ensures
        world.carried_out(commands, upto).consistent(),
        wave_count(world.carried_out(commands, upto)) == wave_count(world) + Snapshot::creations(
            commands,
            upto,
        ) - world.destructions(commands, upto),
    decreases upto,
{
    if upto > 0 {
        lemma_commit(world, commands, upto - 1);
        let before = world.carried_out(commands, upto - 1);
        match commands[upto - 1] {
            Command::Spawn { position, wave } => {
                lemma_spawned(before, position, wave);
            },
            Command::Destroy { id } => {
                lemma_destroyed(before, id);
            },
        }
    }
}

} // verus!
