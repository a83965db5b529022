use crate::data::{Antenna, Position};
use crate::ecs::systems::transmit_signal::{emit, emitted};
use crate::ecs::world::{Command, Snapshot, World};
use vstd::prelude::*;

verus! {

/// Whether the entity in slot `index` jams: it takes hits, and has a
/// position and an antenna.
pub open spec fn jammer(world: Snapshot, index: int) -> bool {
    world.illuminations.dom().contains(index) && world.positions.dom().contains(index)
        && world.antennas.dom().contains(index)
}

/// The answer of a jammer to the hits it has taken: for each hit, a
/// command for the wave of its own antenna at its own position.
pub open spec fn answers(world: Snapshot, index: int) -> Seq<Command> {
    Seq::new(
        world.illuminations[index].len(),
        |k: int|
            Command::Spawn {
                position: world.positions[index],
                wave: emitted(world.antennas[index]),
            },
    )
}

/// The commands of the jammers in the slots under `upto`, by rising slot.
pub open spec fn jamming(world: Snapshot, upto: int) -> Seq<Command>
    decreases upto,
{
    if upto <= 0 {
        Seq::empty()
    } else if jammer(world, upto - 1) {
        jamming(world, upto - 1) + answers(world, upto - 1)
    } else {
        jamming(world, upto - 1)
    }
}

/// The world after the jamming stage: the commands of the jammers wait
/// behind those that waited before, and nothing else has changed.
pub open spec fn jammed(world: Snapshot) -> Snapshot {
    Snapshot { pending: world.pending + jamming(world, world.slots.len() as int), ..world }
}

/// The jamming stage: a target with an antenna answers every hit with a
/// wave of its own.
pub struct JammingSystem;

impl JammingSystem {
    /// Runs the stage.  The hits stay in place for the reflection stage,
    /// which runs after this one and clears them.
    pub fn run(&mut self, world: &mut World)
        requires
            old(world).wf(),
        ensures
            final(world).wf(),
            final(world)@ == jammed(old(world)@),
    {
        let n: usize = world.capacity();
        let mut i: usize = 0;
        assert(world@ =~= (Snapshot {
            pending: old(world)@.pending + jamming(old(world)@, 0),
            ..old(world)@
        }));
        while i < n
            invariant
                n == old(world)@.slots.len(),
                i <= n,
                world.wf(),
                world@ == (Snapshot {
                    pending: old(world)@.pending + jamming(old(world)@, i as int),
                    ..old(world)@
                }),
            decreases n - i,
        {
            let hits: Option<usize> = match world.illuminations.get(i) {
                Some(target) => Some(target.illuminations.len()),
                None => None,
            };
            let position: Option<Position> = match world.positions.get(i) {
                Some(position) => Some(*position),
                None => None,
            };
            let antenna: Option<Antenna> = match world.antennas.get(i) {
                Some(antenna) => Some(*antenna),
                None => None,
            };
            match (hits, position, antenna) {
                (Some(hits), Some(position), Some(antenna)) => {
                    let ghost before: Seq<Command> = world@.pending;
                    let mut k: usize = 0;
                    while k < hits
                        invariant
                            k <= hits,
                            hits == old(world)@.illuminations[i as int].len(),
                            position == old(world)@.positions[i as int],
                            antenna == old(world)@.antennas[i as int],
                            world.wf(),
                            world@ == (Snapshot {
                                pending: before + answers(old(world)@, i as int).subrange(
                                    0,
                                    k as int,
                                ),
                                ..old(world)@
                            }),
                        decreases hits - k,
                    {
                        world.defer_spawn(position, emit(&antenna));
                        assert(world@ =~= (Snapshot {
                            pending: before + answers(old(world)@, i as int).subrange(0, k + 1),
                            ..old(world)@
                        }));
                        k = k + 1;
                    }
                    assert(answers(old(world)@, i as int).subrange(0, hits as int) =~= answers(
                        old(world)@,
                        i as int,
                    ));
                },
                _ => {},
            }
            assert(world@ =~= (Snapshot {
                pending: old(world)@.pending + jamming(old(world)@, i + 1),
                ..old(world)@
            }));
            i = i + 1;
        }
    }
}

} // verus!
