use crate::data::{EMWave, Illumination, Position};
use crate::ecs::world::{lemma_consistent_alike, Command, Snapshot, World};
use crate::fixed::Fixed;
use crate::functions::units::REFLECTED_WIDTH_RAW;
use vstd::prelude::*;

verus! {

/// The wave that a target sends back for a hit: the power density of the
/// hit times the reflectivity, the wavelength and frequency of the hit, and
/// a beam 20 degrees wide in azimuth and in elevation.
pub open spec fn echo_wave(hit: Illumination) -> EMWave {
    EMWave {
        power: hit.power.spec_mul(hit.rcs),
        wavelength: hit.lambda,
        frequency: hit.frequency,
        azimuth_width: Fixed { raw: REFLECTED_WIDTH_RAW },
        elevation_width: Fixed { raw: REFLECTED_WIDTH_RAW },
    }
}

/// The command for the echo of a hit on a target at `position`: the wave
/// starts at the target and points along the angle of the hit.
pub open spec fn echo(position: Position, hit: Illumination) -> Command {
    Command::Spawn {
        position: Position { direction: hit.angle, ..position },
        wave: echo_wave(hit),
    }
}

/// Whether the entity in slot `index` reflects: it takes hits and has a
/// position.
pub open spec fn reflector(world: Snapshot, index: int) -> bool {
    world.illuminations.dom().contains(index) && world.positions.dom().contains(index)
}

/// The echoes of one reflector, one for each hit, oldest hit first.
pub open spec fn echoes(world: Snapshot, index: int) -> Seq<Command> {
    Seq::new(
        world.illuminations[index].len(),
        |k: int| echo(world.positions[index], world.illuminations[index][k]),
    )
}

/// The echoes of the reflectors in the slots under `upto`, by rising slot.
pub open spec fn reflections(world: Snapshot, upto: int) -> Seq<Command>
    decreases upto,
{
    if upto <= 0 {
        Seq::empty()
    } else if reflector(world, upto - 1) {
        reflections(world, upto - 1) + echoes(world, upto - 1)
    } else {
        reflections(world, upto - 1)
    }
}

/// The lists of hits once the reflectors in the slots under `upto` have
/// answered theirs: those lists are empty, the others as they were.
pub open spec fn drained(world: Snapshot, upto: int) -> Map<int, Seq<Illumination>> {
    Map::new(
        |i: int| world.illuminations.dom().contains(i),
        |i: int|
            if i < upto && reflector(world, i) {
                Seq::empty()
            } else {
                world.illuminations[i]
            },
    )
}

/// The world after the reflection stage: the echoes wait behind the
/// commands that waited before, and the reflectors hold no hit any more.
pub open spec fn reflected(world: Snapshot) -> Snapshot {
    Snapshot {
        pending: world.pending + reflections(world, world.slots.len() as int),
        illuminations: drained(world, world.slots.len() as int),
        ..world
    }
}

/// The echo of one hit.
pub fn reflect(hit: &Illumination) -> (wave: EMWave)
    ensures
        wave == echo_wave(*hit),
{
    EMWave {
        power: hit.power.mul(hit.rcs),
        wavelength: hit.lambda,
        frequency: hit.frequency,
        azimuth_width: Fixed::from_raw(REFLECTED_WIDTH_RAW),
        elevation_width: Fixed::from_raw(REFLECTED_WIDTH_RAW),
    }
}

/// The reflection stage: every hit on a target with a position becomes a
/// wave that leaves the target.
pub struct ReflectionSystem;

impl ReflectionSystem {
    /// Runs the stage.  The waves appear with the next commit.
    pub fn run(&mut self, world: &mut World)
        requires
            old(world).wf(),
        ensures
            final(world).wf(),
            final(world)@ == reflected(old(world)@),
    {
        let n: usize = world.capacity();
        let mut i: usize = 0;
        assert(world@ =~= (Snapshot {
            pending: old(world)@.pending + reflections(old(world)@, 0),
            illuminations: drained(old(world)@, 0),
            ..old(world)@
        }));
        while i < n
            invariant
                n == old(world)@.slots.len(),
                i <= n,
                world.wf(),
                world@ == (Snapshot {
                    pending: old(world)@.pending + reflections(old(world)@, i as int),
                    illuminations: drained(old(world)@, i as int),
                    ..old(world)@
                }),
            decreases n - i,
        {
            let ghost start: Snapshot = world@;
            let position: Option<Position> = match world.positions.get(i) {
                Some(position) => Some(*position),
                None => None,
            };
            match position {
                Some(position) => {
                    match world.illuminations.remove(i) {
                        Some(mut target) => {
                            proof {
                                lemma_consistent_alike(start, world@);
                            }
                            let ghost before: Seq<Command> = world@.pending;
                            let hits: usize = target.illuminations.len();
                            let mut k: usize = 0;
                            while k < hits
                                invariant
                                    k <= hits,
                                    hits == target.illuminations@.len(),
                                    target.illuminations@ == old(world)@.illuminations[i as int],
                                    position == old(world)@.positions[i as int],
                                    world.wf(),
                                    world@ == (Snapshot {
                                        pending: before + echoes(old(world)@, i as int).subrange(
                                            0,
                                            k as int,
                                        ),
                                        illuminations: drained(old(world)@, i as int).remove(
                                            i as int,
                                        ),
                                        ..old(world)@
                                    }),
                                decreases hits - k,
                            {
                                let hit: Illumination = target.illuminations[k];
                                world.defer_spawn(
                                    Position {
                                        x: position.x,
                                        y: position.y,
                                        z: position.z,
                                        direction: hit.angle,
                                    },
                                    reflect(&hit),
                                );
                                assert(world@ =~= (Snapshot {
                                    pending: before + echoes(old(world)@, i as int).subrange(
                                        0,
                                        k + 1,
                                    ),
                                    illuminations: drained(old(world)@, i as int).remove(i as int),
                                    ..old(world)@
                                }));
                                k = k + 1;
                            }
                            assert(echoes(old(world)@, i as int).subrange(0, hits as int) =~= echoes(
                                old(world)@,
                                i as int,
                            ));
                            target.illuminations.clear();
                            world.illuminations.insert(i, target);
                        },
                        None => {},
                    }
                },
                None => {},
            }
            assert(world@ =~= (Snapshot {
                pending: old(world)@.pending + reflections(old(world)@, i + 1),
                illuminations: drained(old(world)@, i + 1),
                ..old(world)@
            }));
            proof {
                lemma_consistent_alike(start, world@);
            }
            i = i + 1;
        }
    }
}

} // verus!
