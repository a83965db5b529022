use crate::data::{Illumination, RcsModel};
use crate::ecs::world::{lemma_consistent_alike, Snapshot, World};
use crate::functions::calculate_rcs::{calculate_rcs, reflectivity};
use vstd::prelude::*;

verus! {

/// A hit with its reflectivity resolved against a profile: what the lists
/// give at the angle of the hit, or the average of the profile where the
/// lists cannot be looked up.
pub open spec fn resolved(profile: RcsModel, hit: Illumination) -> Illumination {
    Illumination {
        rcs: if profile.tabulated() {
            reflectivity(hit.angle, profile.angles, profile.values)
        } else {
            profile.avg_rcs
        },
        ..hit
    }
}

/// The hits of a target, the first `upto` of them resolved.
pub open spec fn resolved_hits(profile: RcsModel, hits: Seq<Illumination>, upto: int) -> Seq<
    Illumination,
> {
    Seq::new(
        hits.len(),
        |k: int|
            if k < upto {
                resolved(profile, hits[k])
            } else {
                hits[k]
            },
    )
}

/// The lists of hits once the targets with a profile in the slots under
/// `upto` have resolved theirs.
pub open spec fn resolutions(world: Snapshot, upto: int) -> Map<int, Seq<Illumination>> {
    Map::new(
        |i: int| world.illuminations.dom().contains(i),
        |i: int|
            if i < upto && world.profiles.dom().contains(i) {
                resolved_hits(
                    world.profiles[i],
                    world.illuminations[i],
                    world.illuminations[i].len() as int,
                )
            } else {
                world.illuminations[i]
            },
    )
}

/// The world after the cross-section stage: every hit on an entity with a
/// profile has its reflectivity resolved, and nothing else has changed.
pub open spec fn rcs_resolved(world: Snapshot) -> Snapshot {
    Snapshot { illuminations: resolutions(world, world.slots.len() as int), ..world }
}

/// The cross-section stage: the hits on a target take the reflectivity of
/// the target at their angle.
pub struct RCSSystem;

impl RCSSystem {
    /// Runs the stage.
    pub fn run(&mut self, world: &mut World)
        requires
            old(world).wf(),
        ensures
            final(world).wf(),
            final(world)@ == rcs_resolved(old(world)@),
    {
        let n: usize = world.capacity();
        let mut i: usize = 0;
        assert(world@ =~= (Snapshot { illuminations: resolutions(old(world)@, 0), ..old(world)@ }));
        while i < n
            invariant
                n == old(world)@.slots.len(),
                i <= n,
                world.wf(),
                world@ == (Snapshot {
                    illuminations: resolutions(old(world)@, i as int),
                    ..old(world)@
                }),
            decreases n - i,
        {
            let ghost start: Snapshot = world@;
            if world.profiles.contains(i) {
                match world.illuminations.remove(i) {
                    Some(mut target) => {
                        match world.profiles.get(i) {
                            Some(profile) => {
                                let ghost hits: Seq<Illumination> = target.illuminations@;
                                let tabulated: bool = profile.is_tabulated();
                                let count: usize = target.illuminations.len();
                                let mut k: usize = 0;
                                assert(target.illuminations@ =~= resolved_hits(profile@, hits, 0));
                                while k < count
                                    invariant
                                        k <= count,
                                        count == hits.len(),
                                        tabulated == profile@.tabulated(),
                                        target.illuminations@ == resolved_hits(
                                            profile@,
                                            hits,
                                            k as int,
                                        ),
                                    decreases count - k,
                                {
                                    let hit: Illumination = target.illuminations[k];
                                    let rcs = if tabulated {
                                        calculate_rcs(hit.angle, &profile.angles, &profile.values)
                                    } else {
                                        profile.avg_rcs
                                    };
                                    target.illuminations[k] = Illumination {
                                        power: hit.power,
                                        lambda: hit.lambda,
                                        frequency: hit.frequency,
                                        angle: hit.angle,
                                        rcs,
                                    };
                                    assert(target.illuminations@ =~= resolved_hits(
                                        profile@,
                                        hits,
                                        k + 1,
                                    ));
                                    k = k + 1;
                                }
                            },
                            None => {},
                        }
                        world.illuminations.insert(i, target);
                    },
                    None => {},
                }
            }
            assert(world@ =~= (Snapshot {
                illuminations: resolutions(old(world)@, i + 1),
                ..old(world)@
            }));
            proof {
                lemma_consistent_alike(start, world@);
            }
            i = i + 1;
        }
    }
}

} // verus!
