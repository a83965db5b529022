use crate::data::{Antenna, Position, Velocity};
use crate::ecs::world::{lemma_consistent_alike, Snapshot, World};
use crate::functions::move_entity::{move_entity, moved};
use crate::functions::rotate_entity::{rotate_entity, rotated};
use vstd::prelude::*;

verus! {

/// The positions once the antennas in the slots under `upto` have turned.
pub open spec fn turns(world: Snapshot, upto: int) -> Map<int, Position> {
    Map::new(
        |i: int| world.positions.dom().contains(i),
        |i: int|
            if i < upto && world.antennas.dom().contains(i) {
                rotated(world.positions[i], world.antennas[i])
            } else {
                world.positions[i]
            },
    )
}

/// The positions once the entities with a velocity in the slots under
/// `upto` have moved.
pub open spec fn moves(world: Snapshot, upto: int) -> Map<int, Position> {
    Map::new(
        |i: int| world.positions.dom().contains(i),
        |i: int|
            if i < upto && world.velocities.dom().contains(i) {
                moved(world.positions[i], world.velocities[i])
            } else {
                world.positions[i]
            },
    )
}

/// The world after every antenna has turned.
pub open spec fn turned(world: Snapshot) -> Snapshot {
    Snapshot { positions: turns(world, world.slots.len() as int), ..world }
}

/// The world after every entity with a velocity has moved.
pub open spec fn shifted_along(world: Snapshot) -> Snapshot {
    Snapshot { positions: moves(world, world.slots.len() as int), ..world }
}

/// The world after the motion stage: first every antenna turns by half its
/// azimuth beam width, then every entity with a velocity moves by it.
pub open spec fn advanced(world: Snapshot) -> Snapshot {
    shifted_along(turned(world))
}

/// The motion stage.
pub struct Movement;

impl Movement {
    /// Runs the stage.
    pub fn run(&mut self, world: &mut World)
        requires
            old(world).wf(),
        ensures
            final(world).wf(),
            final(world)@ == advanced(old(world)@),
    {
        let n: usize = world.capacity();
        let mut i: usize = 0;
        assert(world@ =~= (Snapshot { positions: turns(old(world)@, 0), ..old(world)@ }));
        while i < n
            invariant
                n == old(world)@.slots.len(),
                i <= n,
                world.wf(),
                world@ == (Snapshot { positions: turns(old(world)@, i as int), ..old(world)@ }),
            decreases n - i,
        {
            let ghost start: Snapshot = world@;
            let antenna: Option<Antenna> = match world.antennas.get(i) {
                Some(antenna) => Some(*antenna),
                None => None,
            };
            let position: Option<Position> = match world.positions.get(i) {
                Some(position) => Some(*position),
                None => None,
            };
            match (antenna, position) {
                (Some(antenna), Some(position)) => {
                    let mut position: Position = position;
                    rotate_entity(&mut position, &antenna);
                    world.positions.insert(i, position);
                },
                _ => {},
            }
            assert(world@ =~= (Snapshot { positions: turns(old(world)@, i + 1), ..old(world)@ }));
            proof {
                lemma_consistent_alike(start, world@);
            }
            i = i + 1;
        }
        let ghost midway: Snapshot = world@;
        let mut j: usize = 0;
        assert(world@ =~= (Snapshot { positions: moves(midway, 0), ..midway }));
        while j < n
            invariant
                n == midway.slots.len(),
                j <= n,
                world.wf(),
                world@ == (Snapshot { positions: moves(midway, j as int), ..midway }),
            decreases n - j,
        {
            let ghost start: Snapshot = world@;
            let velocity: Option<Velocity> = match world.velocities.get(j) {
                Some(velocity) => Some(*velocity),
                None => None,
            };
            let position: Option<Position> = match world.positions.get(j) {
                Some(position) => Some(*position),
                None => None,
            };
            match (velocity, position) {
                (Some(velocity), Some(position)) => {
                    let mut position: Position = position;
                    move_entity(&mut position, &velocity);
                    world.positions.insert(j, position);
                },
                _ => {},
            }
            assert(world@ =~= (Snapshot { positions: moves(midway, j + 1), ..midway }));
            proof {
                lemma_consistent_alike(start, world@);
            }
            j = j + 1;
        }
    }
}

} // verus!
