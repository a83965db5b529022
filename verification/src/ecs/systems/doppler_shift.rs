use crate::data::{Illumination, Velocity};
use crate::ecs::world::{lemma_consistent_alike, Snapshot, World};
use crate::functions::doppler_shift::{doppler_shift, shifted_frequency};
use vstd::prelude::*;

verus! {

/// A hit as a target moving at `velocity` returns it: its frequency
/// shifted, the rest as it was.
pub open spec fn shifted(velocity: Velocity, hit: Illumination) -> Illumination {
    Illumination { frequency: shifted_frequency(velocity, hit.frequency), ..hit }
}

/// The hits of a moving target, the first `upto` of them shifted.
pub open spec fn shifted_hits(velocity: Velocity, hits: Seq<Illumination>, upto: int) -> Seq<
    Illumination,
> {
    Seq::new(
        hits.len(),
        |k: int|
            if k < upto {
                shifted(velocity, hits[k])
            } else {
                hits[k]
            },
    )
}

/// The lists of hits once the moving targets in the slots under `upto`
/// have shifted theirs.
pub open spec fn shifts(world: Snapshot, upto: int) -> Map<int, Seq<Illumination>> {
    Map::new(
        |i: int| world.illuminations.dom().contains(i),
        |i: int|
            if i < upto && world.velocities.dom().contains(i) {
                shifted_hits(
                    world.velocities[i],
                    world.illuminations[i],
                    world.illuminations[i].len() as int,
                )
            } else {
                world.illuminations[i]
            },
    )
}

/// The world after the Doppler stage: every hit on an entity with a
/// velocity has its frequency shifted, and nothing else has changed.
pub open spec fn doppler_shifted(world: Snapshot) -> Snapshot {
    Snapshot { illuminations: shifts(world, world.slots.len() as int), ..world }
}

/// The Doppler stage: the hits on a moving target take the frequency at
/// which the target returns them.
pub struct DopplerShiftSystem;

impl DopplerShiftSystem {
    /// Runs the stage.
    pub fn run(&mut self, world: &mut World)
        requires
            old(world).wf(),
        ensures
            final(world).wf(),
            final(world)@ == doppler_shifted(old(world)@),
    {
        let n: usize = world.capacity();
        let mut i: usize = 0;
        assert(world@ =~= (Snapshot { illuminations: shifts(old(world)@, 0), ..old(world)@ }));
        while i < n
            invariant
                n == old(world)@.slots.len(),
                i <= n,
                world.wf(),
                world@ == (Snapshot {
                    illuminations: shifts(old(world)@, i as int),
                    ..old(world)@
                }),
            decreases n - i,
        {
            let ghost start: Snapshot = world@;
            let velocity: Option<Velocity> = match world.velocities.get(i) {
                Some(velocity) => Some(*velocity),
                None => None,
            };
            match velocity {
                Some(velocity) => {
                    match world.illuminations.remove(i) {
                        Some(mut target) => {
                            let ghost hits: Seq<Illumination> = target.illuminations@;
                            let count: usize = target.illuminations.len();
                            let mut k: usize = 0;
                            assert(target.illuminations@ =~= shifted_hits(velocity, hits, 0));
                            while k < count
                                invariant
                                    k <= count,
                                    count == hits.len(),
                                    target.illuminations@ == shifted_hits(velocity, hits, k as int),
                                decreases count - k,
                            {
                                let hit: Illumination = target.illuminations[k];
                                let frequency = doppler_shift(&velocity, &hit);
                                target.illuminations[k] = Illumination {
                                    power: hit.power,
                                    lambda: hit.lambda,
                                    frequency,
                                    angle: hit.angle,
                                    rcs: hit.rcs,
                                };
                                assert(target.illuminations@ =~= shifted_hits(
                                    velocity,
                                    hits,
                                    k + 1,
                                ));
                                k = k + 1;
                            }
                            world.illuminations.insert(i, target);
                        },
                        None => {},
                    }
                },
                None => {},
            }
            assert(world@ =~= (Snapshot {
                illuminations: shifts(old(world)@, i + 1),
                ..old(world)@
            }));
            proof {
                lemma_consistent_alike(start, world@);
            }
            i = i + 1;
        }
    }
}

} // verus!
