//! What the two stages that match waves against entities have in common.

use crate::data::{EMWave, Position};
use crate::ecs::entity::occupant;
use crate::ecs::world::{Command, Snapshot, World};
use crate::fixed::Fixed;
use crate::functions::check_illumination::beam_covers;
use crate::functions::incident_angle::{bearing_of, sightline, sightline_between, Sightline};
use vstd::prelude::*;

verus! {

/// A wave and an entity that it may reach, each by its slot.
#[derive(Clone, Copy, Debug, PartialEq, Eq, Structural)]
pub struct Encounter {
    /// Slot of the entity that carries the wave.
    pub emitter: usize,
    /// Slot of the entity that the wave may reach.
    pub receiver: usize,
}

/// The slots of a list of encounters, emitter first.
pub open spec fn pairs_of(encounters: Seq<Encounter>) -> Seq<(int, int)> {
    Seq::new(
        encounters.len(),
        |k: int| (encounters[k].emitter as int, encounters[k].receiver as int),
    )
}

/// Whether the entity in slot `index` carries a wave with its position.
pub open spec fn emitter(world: Snapshot, index: int) -> bool {
    world.waves.dom().contains(index) && world.positions.dom().contains(index)
}

/// Whether every pair names an emitter of the world and an entity with a
/// position.
pub open spec fn facing(world: Snapshot, pairs: Seq<(int, int)>) -> bool {
    forall|k: int|
        0 <= k < pairs.len() ==> emitter(world, (#[trigger] pairs[k]).0)
            && world.positions.dom().contains(pairs[k].1)
}

/// The arctangent that the caller hands in for the pair at `at`; where it
/// hands in none, the arctangent is not finite.
pub open spec fn arc_at(arctangents: Seq<Fixed>, at: int) -> Fixed {
    if 0 <= at < arctangents.len() {
        arctangents[at]
    } else {
        Fixed::of(None)
    }
}

/// Whether the wave of a pair covers the other entity of the pair, which
/// the emitter sees under the given arctangent.
pub open spec fn lit(world: Snapshot, pair: (int, int), arctangent: Fixed) -> bool {
    beam_covers(
        world.waves[pair.0].azimuth_width,
        world.positions[pair.0].direction,
        bearing_of(arctangent),
    )
}

/// The lines of sight of a list of pairs, each from the emitter to the
/// other entity.
pub open spec fn lines_of(world: Snapshot, pairs: Seq<(int, int)>) -> Seq<Sightline> {
    Seq::new(
        pairs.len(),
        |k: int| sightline_between(world.positions[pairs[k].0], world.positions[pairs[k].1]),
    )
}

/// The commands that end the waves in the slots under `upto`: by rising
/// slot, one for each emitter.
pub open spec fn endings(world: Snapshot, upto: int) -> Seq<Command>
    decreases upto,
{
    if upto <= 0 {
        Seq::empty()
    } else if emitter(world, upto - 1) {
        endings(world, upto - 1).push(Command::Destroy { id: occupant(world.slots, upto - 1) })
    } else {
        endings(world, upto - 1)
    }
}

/// The arctangent for the pair at `at`.
pub(crate) fn arctangent_at(arctangents: &Vec<Fixed>, at: usize) -> (arctangent: Fixed)
    ensures
        arctangent == arc_at(arctangents@, at as int),
{
    if at < arctangents.len() {
        arctangents[at]
    } else {
        Fixed::non_finite()
    }
}

/// The lines of sight of a list of encounters.
pub(crate) fn survey(world: &World, encounters: &Vec<Encounter>) -> (lines: Vec<Sightline>)
    requires
        facing(world@, pairs_of(encounters@)),
    ensures
        lines@ == lines_of(world@, pairs_of(encounters@)),
{
    let ghost pairs: Seq<(int, int)> = pairs_of(encounters@);
    let mut lines: Vec<Sightline> = Vec::new();
    let mut k: usize = 0;
    while k < encounters.len()
        invariant
            k <= encounters@.len(),
            pairs == pairs_of(encounters@),
            facing(world@, pairs),
            lines@ == lines_of(world@, pairs).subrange(0, k as int),
        decreases encounters@.len() - k,
    {
        let encounter: Encounter = encounters[k];
        assert(emitter(world@, pairs[k as int].0));
        match (world.positions.get(encounter.emitter), world.positions.get(encounter.receiver)) {
            (Some(from), Some(to)) => {
                lines.push(sightline(from, to));
            },
            _ => {},
        }
        assert(lines@ =~= lines_of(world@, pairs).subrange(0, k + 1));
        k = k + 1;
    }
    assert(lines@ =~= lines_of(world@, pairs));
    lines
}

/// Asks for every entity that carries a wave with its position to be
/// destroyed with the next commit.
pub(crate) fn end_waves(world: &mut World)
    requires
        old(world).wf(),
    ensures
        final(world).wf(),
        final(world)@ == (Snapshot {
            pending: old(world)@.pending + endings(old(world)@, old(world)@.slots.len() as int),
            ..old(world)@
        }),
{
    let n: usize = world.capacity();
    let mut i: usize = 0;
    assert(world@ =~= (Snapshot {
        pending: old(world)@.pending + endings(old(world)@, 0),
        ..old(world)@
    }));
    while i < n
        invariant
            n == old(world)@.slots.len(),
            i <= n,
            world.wf(),
            world@ == (Snapshot {
                pending: old(world)@.pending + endings(old(world)@, i as int),
                ..old(world)@
            }),
        decreases n - i,
    {
        if world.waves.contains(i) && world.positions.contains(i) {
            match world.entities.entity_at(i) {
                Some(id) => {
                    world.defer_destroy(id);
                },
                None => {},
            }
        }
        assert(world@ =~= (Snapshot {
            pending: old(world)@.pending + endings(old(world)@, i + 1),
            ..old(world)@
        }));
        i = i + 1;
    }
}

/// The wave and the position of an emitter.
pub(crate) fn emission_at(world: &World, index: usize) -> (found: Option<(EMWave, Position)>)
    ensures
        found is Some == emitter(world@, index as int),
        found matches Some(emission) ==> emission.0 == world@.waves[index as int] && emission.1
            == world@.positions[index as int],
{
    match (world.waves.get(index), world.positions.get(index)) {
        (Some(wave), Some(position)) => Some((*wave, *position)),
        _ => None,
    }
}

} // verus!
