use crate::data::{Antenna, EMWave, Position};
use crate::ecs::world::{Command, Snapshot, World};
use vstd::prelude::*;

verus! {

/// The wave that an antenna sends out: its power times its gain, and its
/// wavelength, frequency and beam widths as they are.
pub open spec fn emitted(antenna: Antenna) -> EMWave {
    EMWave {
        power: antenna.power.spec_mul(antenna.gain),
        wavelength: antenna.wavelength,
        frequency: antenna.frequency,
        azimuth_width: antenna.azimuth_beam_width,
        elevation_width: antenna.elevation_beam_width,
    }
}

/// The wave that an antenna sends out.
pub fn emit(antenna: &Antenna) -> (wave: EMWave)
    ensures
        wave == emitted(*antenna),
{
    EMWave {
        power: antenna.power.mul(antenna.gain),
        wavelength: antenna.wavelength,
        frequency: antenna.frequency,
        azimuth_width: antenna.azimuth_beam_width,
        elevation_width: antenna.elevation_beam_width,
    }
}

/// Whether the entity in slot `index` transmits: it has an antenna and a
/// position.
pub open spec fn transmitter(world: Snapshot, index: int) -> bool {
    world.antennas.dom().contains(index) && world.positions.dom().contains(index)
}

/// The commands of a transmission for the slots under `upto`: by rising
/// slot, each transmitter asks for its wave at its own position.
pub open spec fn transmissions(world: Snapshot, upto: int) -> Seq<Command>
    decreases upto,
{
    if upto <= 0 {
        Seq::empty()
    } else if transmitter(world, upto - 1) {
        transmissions(world, upto - 1).push(
            Command::Spawn {
                position: world.positions[upto - 1],
                wave: emitted(world.antennas[upto - 1]),
            },
        )
    } else {
        transmissions(world, upto - 1)
    }
}

/// The world after the transmit stage: the commands of the transmission
/// wait behind those that waited before, and nothing else has changed.
pub open spec fn transmitted(world: Snapshot) -> Snapshot {
    Snapshot {
        pending: world.pending + transmissions(world, world.slots.len() as int),
        ..world
    }
}

/// The transmit stage: every antenna with a position sends out a wave.
pub struct TransmitSignal;

impl TransmitSignal {
    /// Runs the stage.  The waves appear with the next commit, so that the
    /// stage does not meet the waves that it has just asked for.
    pub fn run(&mut self, world: &mut World)
        requires
            old(world).wf(),
        ensures
            final(world).wf(),
            final(world)@ == transmitted(old(world)@),
    {
        let n: usize = world.capacity();
        let mut i: usize = 0;
        assert(world@ =~= (Snapshot {
            pending: old(world)@.pending + transmissions(old(world)@, 0),
            ..old(world)@
        }));
        while i < n
            invariant
                n == old(world)@.slots.len(),
                i <= n,
                world.wf(),
                world@ == (Snapshot {
                    pending: old(world)@.pending + transmissions(old(world)@, i as int),
                    ..old(world)@
                }),
            decreases n - i,
        {
            let antenna: Option<Antenna> = match world.antennas.get(i) {
                Some(antenna) => Some(*antenna),
                None => None,
            };
            let position: Option<Position> = match world.positions.get(i) {
                Some(position) => Some(*position),
                None => None,
            };
            match (antenna, position) {
                (Some(antenna), Some(position)) => {
                    world.defer_spawn(position, emit(&antenna));
                },
                _ => {},
            }
            assert(world@ =~= (Snapshot {
                pending: old(world)@.pending + transmissions(old(world)@, i + 1),
                ..old(world)@
            }));
            i = i + 1;
        }
    }
}

} // verus!
