use crate::data::{EMWave, Illumination, Position};
use crate::ecs::systems::encounter::{
    arc_at, arctangent_at, emission_at, emitter, end_waves, endings, facing, lines_of, lit,
    pairs_of, survey, Encounter,
};
use crate::ecs::lifetime::lemma_endings_alike;
use crate::ecs::world::{lemma_consistent_alike, Snapshot, World};
use crate::fixed::Fixed;
use crate::functions::calculate_range::{calculate_range, range_between};
use crate::functions::check_illumination::check_illumination;
use crate::functions::incident_angle::{bearing_of, incident_angle, Sightline};
use crate::functions::power_density::{density_at, power_density};
use crate::functions::units::{FULL_TURN_RAW, HALF_TURN_RAW};
use vstd::prelude::*;

verus! {

/// Whether the entity in slot `index` is a target: it has a profile, a
/// position and a list of hits.
pub open spec fn target(world: Snapshot, index: int) -> bool {
    world.profiles.dom().contains(index) && world.positions.dom().contains(index)
        && world.illuminations.dom().contains(index)
}

/// The pairs of one emitter with the targets in the slots under `upto`, by
/// rising slot of the target.
pub open spec fn row(world: Snapshot, from: int, upto: int) -> Seq<(int, int)>
    decreases upto,
{
    if upto <= 0 {
        Seq::empty()
    } else if target(world, upto - 1) {
        row(world, from, upto - 1).push((from, upto - 1))
    } else {
        row(world, from, upto - 1)
    }
}

/// The pairs of the emitters in the slots under `upto` with all targets:
/// by rising slot of the emitter, and for one emitter by rising slot of the
/// target.
pub open spec fn crossings(world: Snapshot, upto: int) -> Seq<(int, int)>
    decreases upto,
{
    if upto <= 0 {
        Seq::empty()
    } else if emitter(world, upto - 1) {
        crossings(world, upto - 1) + row(world, upto - 1, world.slots.len() as int)
    } else {
        crossings(world, upto - 1)
    }
}

/// An angle seen from the other end of the line: half a turn further,
/// modulo a full turn.
pub open spec fn seen_back(angle: Fixed) -> Fixed {
    angle.spec_add(Fixed { raw: HALF_TURN_RAW }).spec_rem(Fixed { raw: FULL_TURN_RAW })
}

/// The hit that the wave of a pair leaves on the target of the pair, which
/// the emitter sees under the given arctangent: the power density of the
/// wave at the range of the target, the wavelength and frequency of the
/// wave, the angle of the emitter as the target sees it, and the average
/// reflectivity of the target until the cross-section stage resolves it.
pub open spec fn hit_of(world: Snapshot, pair: (int, int), arctangent: Fixed) -> Illumination {
    let wave = world.waves[pair.0];
    Illumination {
        power: density_at(
            wave.power,
            range_between(world.positions[pair.0], world.positions[pair.1]),
        ),
        lambda: wave.wavelength,
        frequency: wave.frequency,
        angle: seen_back(bearing_of(arctangent)),
        rcs: world.profiles[pair.1].avg_rcs,
    }
}

/// The lists of hits after the first `upto` pairs have met: in the order
/// of the pairs, each wave that covers its target adds a hit to the end of
/// the list of that target.
pub open spec fn strikes(
    world: Snapshot,
    pairs: Seq<(int, int)>,
    arctangents: Seq<Fixed>,
    upto: int,
) -> Map<int, Seq<Illumination>>
    decreases upto,
{
    if upto <= 0 {
        world.illuminations
    } else {
        let before = strikes(world, pairs, arctangents, upto - 1);
        let pair = pairs[upto - 1];
        let arctangent = arc_at(arctangents, upto - 1);
        if lit(world, pair, arctangent) {
            before.insert(pair.1, before[pair.1].push(hit_of(world, pair, arctangent)))
        } else {
            before
        }
    }
}

/// The world after the illumination stage, run with the arctangents of
/// the lines of sight: every wave has met every target, and a command to
/// destroy each wave waits behind the commands that waited before.
pub open spec fn illumined(world: Snapshot, arctangents: Seq<Fixed>) -> Snapshot {
    let pairs = crossings(world, world.slots.len() as int);
    Snapshot {
        illuminations: strikes(world, pairs, arctangents, pairs.len() as int),
        pending: world.pending + endings(world, world.slots.len() as int),
        ..world
    }
}

/// A finite angle seen from the other end of the line lies in `[0, 360)`.
pub proof fn lemma_seen_back(angle: Fixed)
    ensures
        seen_back(angle).finite() ==> 0 <= seen_back(angle).raw < FULL_TURN_RAW,
{
    match angle.spec_add(Fixed { raw: HALF_TURN_RAW })@ {
        Some(turned) => {
            assert(0 <= turned % (FULL_TURN_RAW as int) < FULL_TURN_RAW);
        },
        None => {},
    }
}

/// Every pair of a row is the emitter of the row with a target.
pub proof fn lemma_row(world: Snapshot, from: int, upto: int)
    ensures
        forall|k: int|
            0 <= k < row(world, from, upto).len() ==> (#[trigger] row(world, from, upto)[k]).0
                == from && target(world, row(world, from, upto)[k].1),
    decreases upto,
{
    if upto > 0 {
        lemma_row(world, from, upto - 1);
        let shorter = row(world, from, upto - 1);
        assert forall|k: int| 0 <= k < row(world, from, upto).len() implies (#[trigger] row(
            world,
            from,
            upto,
        )[k]).0 == from && target(world, row(world, from, upto)[k].1) by {
            if k < shorter.len() {
                assert(row(world, from, upto)[k] == shorter[k]);
            }
        }
    }
}

/// Every crossing is an emitter with a target.
pub proof fn lemma_crossings(world: Snapshot, upto: int)
    ensures
        forall|k: int|
            0 <= k < crossings(world, upto).len() ==> emitter(
                world,
                (#[trigger] crossings(world, upto)[k]).0,
            ) && target(world, crossings(world, upto)[k].1),
    decreases upto,
{
    if upto > 0 {
        lemma_crossings(world, upto - 1);
        lemma_row(world, upto - 1, world.slots.len() as int);
        let shorter = crossings(world, upto - 1);
        let last = row(world, upto - 1, world.slots.len() as int);
        assert forall|k: int| 0 <= k < crossings(world, upto).len() implies emitter(
            world,
            (#[trigger] crossings(world, upto)[k]).0,
        ) && target(world, crossings(world, upto)[k].1) by {
            if k < shorter.len() {
                assert(crossings(world, upto)[k] == shorter[k]);
            } else if emitter(world, upto - 1) {
                assert(crossings(world, upto)[k] == last[k - shorter.len()]);
            }
        }
    }
}

/// One hit.
fn strike(wave: &EMWave, from: &Position, to: &Position, angle: Fixed, rcs: Fixed) -> (hit:
    Illumination)
    ensures
        hit == (Illumination {
            power: density_at(wave.power, range_between(*from, *to)),
            lambda: wave.wavelength,
            frequency: wave.frequency,
            angle: seen_back(angle),
            rcs,
        }),
{
    let range: Fixed = calculate_range(from, to);
    Illumination {
        power: power_density(wave.power, range),
        lambda: wave.wavelength,
        frequency: wave.frequency,
        angle: angle.add(Fixed::from_raw(HALF_TURN_RAW)).rem(Fixed::from_raw(FULL_TURN_RAW)),
        rcs,
    }
}

/// The illumination stage: every wave meets every target, and leaves a hit
/// on each target that it covers.
pub struct InteractionDetection;

impl InteractionDetection {
    /// The pairs that the stage visits, in its order: by rising slot of
    /// the emitter, and for one emitter by rising slot of the target.
    pub fn encounters(&self, world: &World) -> (found: Vec<Encounter>)
        ensures
            pairs_of(found@) == crossings(world@, world@.slots.len() as int),
            facing(world@, pairs_of(found@)),
    {
        let n: usize = world.capacity();
        let mut found: Vec<Encounter> = Vec::new();
        let mut i: usize = 0;
        assert(pairs_of(found@) =~= crossings(world@, 0));
        while i < n
            invariant
                n == world@.slots.len(),
                i <= n,
                pairs_of(found@) == crossings(world@, i as int),
            decreases n - i,
        {
            if world.waves.contains(i) && world.positions.contains(i) {
                let ghost before: Seq<(int, int)> = pairs_of(found@);
                let mut j: usize = 0;
                assert(pairs_of(found@) =~= before + row(world@, i as int, 0));
                while j < n
                    invariant
                        n == world@.slots.len(),
                        i < n,
                        j <= n,
                        pairs_of(found@) == before + row(world@, i as int, j as int),
                    decreases n - j,
                {
                    let ghost sofar: Seq<(int, int)> = pairs_of(found@);
                    if world.profiles.contains(j) && world.positions.contains(j)
                        && world.illuminations.contains(j) {
                        found.push(Encounter { emitter: i, receiver: j });
                        assert(pairs_of(found@) =~= sofar.push((i as int, j as int)));
                    }
                    assert(pairs_of(found@) =~= before + row(world@, i as int, j + 1));
                    j = j + 1;
                }
            }
            i = i + 1;
        }
        proof {
            lemma_crossings(world@, n as int);
        }
        found
    }

    /// The lines of sight that the stage needs the arctangents of, in the
    /// order in which [`InteractionDetection::run`] takes them.
    pub fn sightlines(&self, world: &World) -> (lines: Vec<Sightline>)
        ensures
            lines@ == lines_of(world@, crossings(world@, world@.slots.len() as int)),
    {
        let found: Vec<Encounter> = self.encounters(world);
        survey(world, &found)
    }

    /// Runs the stage.  `arctangents` holds, for each line of
    /// [`InteractionDetection::sightlines`] in turn, the arctangent in
    /// degrees of `dy` over `dx`; a line without one is taken as not seen.
    /// Every wave is asked to be destroyed, whether it has hit or not.
    pub fn run(&mut self, world: &mut World, arctangents: &Vec<Fixed>)
        requires
            old(world).wf(),
        ensures
            final(world).wf(),
            final(world)@ == illumined(old(world)@, arctangents@),
    {
        let found: Vec<Encounter> = self.encounters(world);
        let ghost pairs: Seq<(int, int)> = pairs_of(found@);
        proof {
            lemma_crossings(world@, world@.slots.len() as int);
        }
        let mut k: usize = 0;
        assert(world@ =~= (Snapshot {
            illuminations: strikes(old(world)@, pairs, arctangents@, 0),
            ..old(world)@
        }));
        while k < found.len()
            invariant
                k <= found@.len(),
                pairs == pairs_of(found@),
                pairs == crossings(old(world)@, old(world)@.slots.len() as int),
                forall|m: int|
                    0 <= m < pairs.len() ==> emitter(old(world)@, (#[trigger] pairs[m]).0)
                        && target(old(world)@, pairs[m].1),
                world.wf(),
                world@ == (Snapshot {
                    illuminations: strikes(old(world)@, pairs, arctangents@, k as int),
                    ..old(world)@
                }),
                world@.illuminations.dom() == old(world)@.illuminations.dom(),
            decreases found@.len() - k,
        {
            let ghost start: Snapshot = world@;
            let encounter: Encounter = found[k];
            let arctangent: Fixed = arctangent_at(arctangents, k);
            assert(emitter(old(world)@, pairs[k as int].0));
            let emission = emission_at(world, encounter.emitter);
            let to: Option<Position> = match world.positions.get(encounter.receiver) {
                Some(position) => Some(*position),
                None => None,
            };
            let rcs: Option<Fixed> = match world.profiles.get(encounter.receiver) {
                Some(profile) => Some(profile.avg_rcs),
                None => None,
            };
            match (emission, to, rcs) {
                (Some((wave, from)), Some(to), Some(rcs)) => {
                    let angle: Fixed = incident_angle(arctangent);
                    if check_illumination(wave.azimuth_width, from.direction, angle) {
                        match world.illuminations.remove(encounter.receiver) {
                            Some(mut hits) => {
                                hits.illuminations.push(strike(&wave, &from, &to, angle, rcs));
                                world.illuminations.insert(encounter.receiver, hits);
                            },
                            None => {},
                        }
                    }
                },
                _ => {},
            }
            assert(world@.illuminations =~= strikes(old(world)@, pairs, arctangents@, k + 1));
            assert(world@ =~= (Snapshot {
                illuminations: strikes(old(world)@, pairs, arctangents@, k + 1),
                ..old(world)@
            }));
            proof {
                assert(world@.illuminations.dom() =~= start.illuminations.dom());
                lemma_consistent_alike(start, world@);
            }
            k = k + 1;
        }
        let ghost struck: Snapshot = world@;
        end_waves(world);
        assert(endings(struck, struck.slots.len() as int) == endings(
            old(world)@,
            old(world)@.slots.len() as int,
        )) by {
            lemma_endings_alike(old(world)@, struck, struck.slots.len() as int);
        }
        assert(world@ =~= illumined(old(world)@, arctangents@));
    }
}

} // verus!
