use crate::data::Position;
use crate::ecs::entity::{occupant, EntityId};
use crate::ecs::systems::encounter::{
    arc_at, arctangent_at, emission_at, emitter, end_waves, endings, facing, lines_of, lit,
    pairs_of, survey, Encounter,
};
use crate::ecs::world::{Snapshot, World};
use crate::fixed::Fixed;
use crate::functions::calculate_range::{calculate_range, range_between};
use crate::functions::check_illumination::check_illumination;
use crate::functions::incident_angle::{bearing_of, incident_angle, Sightline};
use crate::functions::power_density::{density_at, power_density};
use vstd::prelude::*;

verus! {

/// A wave that an antenna has received.
#[derive(Clone, Copy, Debug, PartialEq, Eq, Structural)]
pub struct Detection {
    /// The entity whose antenna received the wave.
    pub receiver: EntityId,
    /// The entity that carried the wave.
    pub source: EntityId,
    /// Range from the origin of the wave to the antenna, in metres.
    pub range: Fixed,
    /// Angle under which the origin of the wave sees the antenna, in
    /// degrees.
    pub angle: Fixed,
    /// Power density of the wave at the antenna, in watts per square metre.
    pub power: Fixed,
}

/// Whether the entity in slot `index` listens: it has an antenna and a
/// position.
pub open spec fn listener(world: Snapshot, index: int) -> bool {
    world.antennas.dom().contains(index) && world.positions.dom().contains(index)
}

/// The pairs of one listener with the emitters in the slots under `upto`,
/// by rising slot of the emitter.
pub open spec fn column(world: Snapshot, to: int, upto: int) -> Seq<(int, int)>
    decreases upto,
{
    if upto <= 0 {
        Seq::empty()
    } else if emitter(world, upto - 1) {
        column(world, to, upto - 1).push((upto - 1, to))
    } else {
        column(world, to, upto - 1)
    }
}

/// The pairs of the listeners in the slots under `upto` with all emitters:
/// by rising slot of the listener, and for one listener by rising slot of
/// the emitter.
pub open spec fn hearings(world: Snapshot, upto: int) -> Seq<(int, int)>
    decreases upto,
{
    if upto <= 0 {
        Seq::empty()
    } else if listener(world, upto - 1) {
        hearings(world, upto - 1) + column(world, upto - 1, world.slots.len() as int)
    } else {
        hearings(world, upto - 1)
    }
}

/// What an antenna makes of the wave of a pair, which the emitter sees it
/// under the given arctangent.
pub open spec fn detection_of(world: Snapshot, pair: (int, int), arctangent: Fixed) -> Detection {
    let range = range_between(world.positions[pair.0], world.positions[pair.1]);
    Detection {
        receiver: occupant(world.slots, pair.1),
        source: occupant(world.slots, pair.0),
        range,
        angle: bearing_of(arctangent),
        power: density_at(world.waves[pair.0].power, range),
    }
}

/// Whether the antenna of a pair receives the wave of the pair: the wave
/// covers the antenna, and reaches it with a finite power density.
pub open spec fn heard(world: Snapshot, pair: (int, int), arctangent: Fixed) -> bool {
    lit(world, pair, arctangent) && detection_of(world, pair, arctangent).power.finite()
}

/// The detections of the first `upto` pairs, in the order of the pairs.
pub open spec fn detections(
    world: Snapshot,
    pairs: Seq<(int, int)>,
    arctangents: Seq<Fixed>,
    upto: int,
) -> Seq<Detection>
    decreases upto,
{
    if upto <= 0 {
        Seq::empty()
    } else {
        let before = detections(world, pairs, arctangents, upto - 1);
        let pair = pairs[upto - 1];
        let arctangent = arc_at(arctangents, upto - 1);
        if heard(world, pair, arctangent) {
            before.push(detection_of(world, pair, arctangent))
        } else {
            before
        }
    }
}

/// The world after the receiver stage: a command to destroy each wave
/// waits behind the commands that waited before, and nothing else has
/// changed.
pub open spec fn received(world: Snapshot) -> Snapshot {
    Snapshot { pending: world.pending + endings(world, world.slots.len() as int), ..world }
}

/// Every pair of a column is an emitter with the listener of the column.
pub proof fn lemma_column(world: Snapshot, to: int, upto: int)
    ensures
        forall|k: int|
            0 <= k < column(world, to, upto).len() ==> (#[trigger] column(world, to, upto)[k]).1
                == to && emitter(world, column(world, to, upto)[k].0),
    decreases upto,
{
    if upto > 0 {
        lemma_column(world, to, upto - 1);
        let shorter = column(world, to, upto - 1);
        assert forall|k: int| 0 <= k < column(world, to, upto).len() implies (#[trigger] column(
            world,
            to,
            upto,
        )[k]).1 == to && emitter(world, column(world, to, upto)[k].0) by {
            if k < shorter.len() {
                assert(column(world, to, upto)[k] == shorter[k]);
            }
        }
    }
}

/// Every hearing is an emitter with a listener.
pub proof fn lemma_hearings(world: Snapshot, upto: int)
    ensures
        forall|k: int|
            0 <= k < hearings(world, upto).len() ==> emitter(
                world,
                (#[trigger] hearings(world, upto)[k]).0,
            ) && listener(world, hearings(world, upto)[k].1),
    decreases upto,
{
    if upto > 0 {
        lemma_hearings(world, upto - 1);
        lemma_column(world, upto - 1, world.slots.len() as int);
        let shorter = hearings(world, upto - 1);
        let last = column(world, upto - 1, world.slots.len() as int);
        assert forall|k: int| 0 <= k < hearings(world, upto).len() implies emitter(
            world,
            (#[trigger] hearings(world, upto)[k]).0,
        ) && listener(world, hearings(world, upto)[k].1) by {
            if k < shorter.len() {
                assert(hearings(world, upto)[k] == shorter[k]);
            } else if listener(world, upto - 1) {
                assert(hearings(world, upto)[k] == last[k - shorter.len()]);
            }
        }
    }
}

/// The receiver stage: every antenna with a position listens for every
/// wave.
pub struct AntennaReceiverSystem;

impl AntennaReceiverSystem {
    /// The pairs that the stage visits, in its order: by rising slot of
    /// the listener, and for one listener by rising slot of the emitter.
    pub fn encounters(&self, world: &World) -> (found: Vec<Encounter>)
        ensures
            pairs_of(found@) == hearings(world@, world@.slots.len() as int),
            facing(world@, pairs_of(found@)),
    {
        let n: usize = world.capacity();
        let mut found: Vec<Encounter> = Vec::new();
        let mut i: usize = 0;
        assert(pairs_of(found@) =~= hearings(world@, 0));
        while i < n
            invariant
                n == world@.slots.len(),
                i <= n,
                pairs_of(found@) == hearings(world@, i as int),
            decreases n - i,
        {
            if world.antennas.contains(i) && world.positions.contains(i) {
                let ghost before: Seq<(int, int)> = pairs_of(found@);
                let mut j: usize = 0;
                assert(pairs_of(found@) =~= before + column(world@, i as int, 0));
                while j < n
                    invariant
                        n == world@.slots.len(),
                        i < n,
                        j <= n,
                        pairs_of(found@) == before + column(world@, i as int, j as int),
                    decreases n - j,
                {
                    let ghost sofar: Seq<(int, int)> = pairs_of(found@);
                    if world.waves.contains(j) && world.positions.contains(j) {
                        found.push(Encounter { emitter: j, receiver: i });
                        assert(pairs_of(found@) =~= sofar.push((j as int, i as int)));
                    }
                    assert(pairs_of(found@) =~= before + column(world@, i as int, j + 1));
                    j = j + 1;
                }
            }
            i = i + 1;
        }
        proof {
            lemma_hearings(world@, n as int);
        }
        found
    }

    /// The lines of sight that the stage needs the arctangents of, in the
    /// order in which [`AntennaReceiverSystem::run`] takes them.
    pub fn sightlines(&self, world: &World) -> (lines: Vec<Sightline>)
        ensures
            lines@ == lines_of(world@, hearings(world@, world@.slots.len() as int)),
    {
        let found: Vec<Encounter> = self.encounters(world);
        survey(world, &found)
    }

    /// Runs the stage and hands out the detections.  `arctangents` holds,
    /// for each line of [`AntennaReceiverSystem::sightlines`] in turn, the
    /// arctangent in degrees of `dy` over `dx`; a line without one is taken
    /// as not seen.  Every wave is asked to be destroyed, whether an
    /// antenna has received it or not.
    pub fn run(&mut self, world: &mut World, arctangents: &Vec<Fixed>) -> (seen: Vec<Detection>)
        requires
            old(world).wf(),
        ensures
            final(world).wf(),
            final(world)@ == received(old(world)@),
            seen@ == detections(
                old(world)@,
                hearings(old(world)@, old(world)@.slots.len() as int),
                arctangents@,
                hearings(old(world)@, old(world)@.slots.len() as int).len() as int,
            ),
    {
        let found: Vec<Encounter> = self.encounters(world);
        let ghost pairs: Seq<(int, int)> = pairs_of(found@);
        proof {
            lemma_hearings(world@, world@.slots.len() as int);
        }
        let mut seen: Vec<Detection> = Vec::new();
        let mut k: usize = 0;
        while k < found.len()
            invariant
                k <= found@.len(),
                pairs == pairs_of(found@),
                forall|m: int|
                    0 <= m < pairs.len() ==> emitter(world@, (#[trigger] pairs[m]).0) && listener(
                        world@,
                        pairs[m].1,
                    ),
                world.wf(),
                seen@ == detections(world@, pairs, arctangents@, k as int),
            decreases found@.len() - k,
        {
            let encounter: Encounter = found[k];
            let arctangent: Fixed = arctangent_at(arctangents, k);
            assert(emitter(world@, pairs[k as int].0));
            let emission = emission_at(world, encounter.emitter);
            let to: Option<Position> = match world.positions.get(encounter.receiver) {
                Some(position) => Some(*position),
                None => None,
            };
            let source: Option<EntityId> = world.entities.entity_at(encounter.emitter);
            let receiver: Option<EntityId> = world.entities.entity_at(encounter.receiver);
            match (emission, to, source, receiver) {
                (Some((wave, from)), Some(to), Some(source), Some(receiver)) => {
                    let angle: Fixed = incident_angle(arctangent);
                    if check_illumination(wave.azimuth_width, from.direction, angle) {
                        let range: Fixed = calculate_range(&from, &to);
                        let power: Fixed = power_density(wave.power, range);
                        if power.is_finite() {
                            seen.push(Detection { receiver, source, range, angle, power });
                        }
                    }
                },
                _ => {},
            }
            k = k + 1;
        }
        end_waves(world);
        seen
    }
}

} // verus!
