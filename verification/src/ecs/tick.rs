//! The tick: the stages in their order, with a commit wherever a later
//! stage has to see what an earlier one has asked for.

use crate::data::Illumination;
use crate::ecs::census::{lemma_population_alike, lemma_population_none, wave_count};
use crate::ecs::entity::{occupant, EntityId};
use crate::ecs::lifetime::{lemma_endings, lemma_endings_alike, lemma_purged};
use crate::ecs::systems::antenna_receiver::{
    detections, hearings, received, AntennaReceiverSystem, Detection,
};
use crate::ecs::systems::doppler_shift::{doppler_shifted, DopplerShiftSystem};
use crate::ecs::systems::encounter::{endings, lines_of};
use crate::ecs::systems::interaction_detection::{crossings, illumined, InteractionDetection};
use crate::ecs::systems::jamming::{jammed, JammingSystem};
use crate::ecs::systems::movement::{advanced, Movement};
use crate::ecs::systems::rcs::{rcs_resolved, RCSSystem};
use crate::ecs::systems::reflection::{reflected, ReflectionSystem};
use crate::ecs::systems::transmit_signal::{transmitted, TransmitSignal};
use crate::ecs::world::{lemma_consistent_alike, Command, Commit, Snapshot, World};
use crate::fixed::Fixed;
use crate::functions::incident_angle::Sightline;
use vstd::prelude::*;

verus! {

/// A hit that waits on a target for the reflection stage, with its
/// frequency shifted and its reflectivity resolved.  The reflection stage
/// answers it with one wave where the target has a position, and the
/// jamming stage with one more where the target has an antenna too.
#[derive(Clone, Copy, Debug, PartialEq, Eq, Structural)]
pub struct Strike {
    /// The entity that took the hit.
    pub target: EntityId,
    /// The hit.
    pub hit: Illumination,
}

/// What the second part of a tick did.
#[derive(Debug)]
pub struct Illuminated {
    /// The hits that the jamming and reflection stages found, by rising
    /// slot of the target, and for one target oldest first.
    pub hits: Vec<Strike>,
    /// What the commit after the illumination stage did.
    pub struck: Commit,
    /// What the commit after the reflection stage did.
    pub echoed: Commit,
}

/// What a tick did.
#[derive(Debug)]
pub struct TickReport {
    /// Waves created by the commits of the tick.
    pub waves_created: u128,
    /// Waves destroyed by the commits of the tick.
    pub waves_destroyed: u128,
    /// The hits that the targets took and answered, in the order of
    /// [`Illuminated::hits`].
    pub illuminations: Vec<Strike>,
    /// What the antennas received, in the order of the receiver stage.
    pub detections: Vec<Detection>,
}

/// The hits that wait on the entity in slot `index`, oldest first.
pub open spec fn strikes_on(world: Snapshot, index: int) -> Seq<Strike> {
    Seq::new(
        world.illuminations[index].len(),
        |k: int| Strike { target: occupant(world.slots, index), hit: world.illuminations[index][k] },
    )
}

/// The hits that wait on the entities in the slots under `upto`, by rising
/// slot.
pub open spec fn waiting_hits(world: Snapshot, upto: int) -> Seq<Strike>
    decreases upto,
{
    if upto <= 0 {
        Seq::empty()
    } else if world.illuminations.dom().contains(upto - 1) {
        waiting_hits(world, upto - 1) + strikes_on(world, upto - 1)
    } else {
        waiting_hits(world, upto - 1)
    }
}

/// The world after the first part of a tick: the transmit stage, and a
/// commit.
pub open spec fn after_transmission(world: Snapshot) -> Snapshot {
    transmitted(world).maintained()
}

/// The world on its way through the second part of a tick, before the
/// jamming stage: after the illumination stage run with the given
/// arctangents, a commit, and the Doppler and cross-section stages.
pub open spec fn before_reflection(world: Snapshot, arctangents: Seq<Fixed>) -> Snapshot {
    rcs_resolved(doppler_shifted(illumined(world, arctangents).maintained()))
}

/// The world after the second part of a tick: on from
/// [`before_reflection`], the jamming and reflection stages, and a commit.
pub open spec fn after_reflection(world: Snapshot, arctangents: Seq<Fixed>) -> Snapshot {
    reflected(jammed(before_reflection(world, arctangents))).maintained()
}

/// The world after the last part of a tick: the receiver stage, the motion
/// stage, and a commit.
pub open spec fn after_reception(world: Snapshot) -> Snapshot {
    advanced(received(world)).maintained()
}

/// The world after a tick in which the illumination stage ran with the
/// arctangents `first`.  What the receiver stage is handed decides what
/// the antennas receive, and nothing in the world.
pub open spec fn ticked(world: Snapshot, first: Seq<Fixed>) -> Snapshot {
    after_reception(after_reflection(after_transmission(world), first))
}

/// The lines of sight of the illumination stage of a tick.
pub open spec fn first_lines(world: Snapshot) -> Seq<Sightline> {
    let met = after_transmission(world);
    lines_of(met, crossings(met, met.slots.len() as int))
}

/// The lines of sight of the receiver stage of a tick.
pub open spec fn second_lines(world: Snapshot, first: Seq<Fixed>) -> Seq<Sightline> {
    let met = after_reflection(after_transmission(world), first);
    lines_of(met, hearings(met, met.slots.len() as int))
}

/// The hits that the targets take and answer in a tick in which the
/// illumination stage ran with the arctangents `first`.
pub open spec fn tick_hits(world: Snapshot, first: Seq<Fixed>) -> Seq<Strike> {
    let met = before_reflection(after_transmission(world), first);
    waiting_hits(met, met.slots.len() as int)
}

/// What the antennas receive in a tick in which the illumination stage
/// ran with the arctangents `first` and the receiver stage with `second`.
pub open spec fn tick_detections(world: Snapshot, first: Seq<Fixed>, second: Seq<Fixed>) -> Seq<
    Detection,
> {
    let met = after_reflection(after_transmission(world), first);
    let pairs = hearings(met, met.slots.len() as int);
    detections(met, pairs, second, pairs.len() as int)
}

/// Whether `arctangents` holds, for each line in turn, an answer of
/// `arctangent` to its `dy` and `dx`.
pub open spec fn answered<F: Fn(Fixed, Fixed) -> Fixed>(
    arctangent: &F,
    lines: Seq<Sightline>,
    arctangents: Seq<Fixed>,
) -> bool {
    arctangents.len() == lines.len() && forall|k: int|
        0 <= k < lines.len() ==> call_ensures(
            *arctangent,
            (lines[k].dy, lines[k].dx),
            #[trigger] arctangents[k],
        )
}

/// Asks `arctangent` for the arctangent of each line of sight.
pub fn resolve<F: Fn(Fixed, Fixed) -> Fixed>(lines: &Vec<Sightline>, arctangent: &F) -> (found: Vec<
    Fixed,
>)
    requires
        forall|dy: Fixed, dx: Fixed| call_requires(*arctangent, (dy, dx)),
    ensures
        answered(arctangent, lines@, found@),
{
    let mut found: Vec<Fixed> = Vec::new();
    let mut k: usize = 0;
    while k < lines.len()
        invariant
            k <= lines@.len(),
            found@.len() == k,
            forall|dy: Fixed, dx: Fixed| call_requires(*arctangent, (dy, dx)),
            forall|m: int|
                0 <= m < k ==> call_ensures(
                    *arctangent,
                    (lines@[m].dy, lines@[m].dx),
                    #[trigger] found@[m],
                ),
        decreases lines@.len() - k,
    {
        let line: Sightline = lines[k];
        let answer: Fixed = arctangent(line.dy, line.dx);
        found.push(answer);
        k = k + 1;
    }
    found
}

/// The hits that wait on the targets of a world, by rising slot of the
/// target, and for one target oldest first.
pub fn gather_hits(world: &World) -> (hits: Vec<Strike>)
    requires
        world.wf(),
    ensures
        hits@ == waiting_hits(world@, world@.slots.len() as int),
{
    let n: usize = world.capacity();
    let mut hits: Vec<Strike> = Vec::new();
    let mut i: usize = 0;
    while i < n
        invariant
            n == world@.slots.len(),
            i <= n,
            world.wf(),
            hits@ == waiting_hits(world@, i as int),
        decreases n - i,
    {
        match (world.entities.entity_at(i), world.illuminations.get(i)) {
            (Some(target), Some(taken)) => {
                let ghost before: Seq<Strike> = hits@;
                let count: usize = taken.illuminations.len();
                let mut k: usize = 0;
                assert(hits@ =~= before + strikes_on(world@, i as int).subrange(0, 0));
                while k < count
                    invariant
                        k <= count,
                        count == taken.illuminations@.len(),
                        taken.illuminations@ == world@.illuminations[i as int],
                        target == occupant(world@.slots, i as int),
                        hits@ == before + strikes_on(world@, i as int).subrange(0, k as int),
                    decreases count - k,
                {
                    hits.push(Strike { target, hit: taken.illuminations[k] });
                    assert(hits@ =~= before + strikes_on(world@, i as int).subrange(0, k + 1));
                    k = k + 1;
                }
                assert(strikes_on(world@, i as int).subrange(0, count as int) =~= strikes_on(
                    world@,
                    i as int,
                ));
            },
            _ => {
                assert(!world@.illuminations.dom().contains(i as int));
            },
        }
        i = i + 1;
    }
    hits
}

/// The first part of a tick: the transmit stage, and a commit.  The waves
/// after it are the waves before it, plus those that the commit has
/// created, less those that it has destroyed.
pub fn begin_tick(world: &mut World) -> (commit: Commit)
    requires
        old(world).wf(),
    ensures
        final(world).wf(),
        final(world)@ == after_transmission(old(world)@),
        final(world)@.pending == Seq::<Command>::empty(),
        wave_count(final(world)@) == wave_count(old(world)@) + commit.waves_created
            - commit.waves_destroyed,
{
    let mut stage = TransmitSignal;
    stage.run(world);
    proof {
        lemma_population_alike(old(world)@, world@, world@.slots.len() as int);
    }
    world.maintain()
}

/// The second part of a tick: the illumination stage, a commit, the
/// Doppler, cross-section, jamming and reflection stages, and a second
/// commit.  `arctangents` is what [`InteractionDetection::run`] takes.
/// It hands out the hits that the jamming and reflection stages found.
/// The waves after it are the waves before it, plus those that the two
/// commits have created, less those that they have destroyed.
pub fn illuminate(world: &mut World, arctangents: &Vec<Fixed>) -> (done: Illuminated)
    requires
        old(world).wf(),
    ensures
        final(world).wf(),
        final(world)@ == after_reflection(old(world)@, arctangents@),
        final(world)@.pending == Seq::<Command>::empty(),
        done.hits@ == waiting_hits(
            before_reflection(old(world)@, arctangents@),
            before_reflection(old(world)@, arctangents@).slots.len() as int,
        ),
        wave_count(final(world)@) == wave_count(old(world)@) + done.struck.waves_created
            - done.struck.waves_destroyed + done.echoed.waves_created
            - done.echoed.waves_destroyed,
{
    let mut detection = InteractionDetection;
    detection.run(world, arctangents);
    proof {
        lemma_population_alike(old(world)@, world@, world@.slots.len() as int);
    }
    let struck: Commit = world.maintain();
    let ghost cleared: Snapshot = world@;
    let mut doppler = DopplerShiftSystem;
    doppler.run(world);
    let mut cross_section = RCSSystem;
    cross_section.run(world);
    let hits: Vec<Strike> = gather_hits(world);
    let mut jammers = JammingSystem;
    jammers.run(world);
    let mut reflection = ReflectionSystem;
    reflection.run(world);
    proof {
        lemma_population_alike(cleared, world@, world@.slots.len() as int);
    }
    let echoed: Commit = world.maintain();
    Illuminated { hits, struck, echoed }
}

/// The last part of a tick: the receiver stage, the motion stage, and a
/// commit.  `arctangents` is what [`AntennaReceiverSystem::run`] takes.
/// The waves after it are the waves before it, plus those that the commit
/// has created, less those that it has destroyed; where no command waited,
/// no wave is left.
pub fn conclude_tick(world: &mut World, arctangents: &Vec<Fixed>) -> (outcome: (
    Vec<Detection>,
    Commit,
))
    requires
        old(world).wf(),
    ensures
        final(world).wf(),
        final(world)@ == after_reception(old(world)@),
        final(world)@.pending == Seq::<Command>::empty(),
        outcome.0@ == detections(
            old(world)@,
            hearings(old(world)@, old(world)@.slots.len() as int),
            arctangents@,
            hearings(old(world)@, old(world)@.slots.len() as int).len() as int,
        ),
        wave_count(final(world)@) == wave_count(old(world)@) + outcome.1.waves_created
            - outcome.1.waves_destroyed,
        old(world)@.pending.len() == 0 ==> final(world)@.waves.dom() == Set::<int>::empty(),
{
    let mut receiver = AntennaReceiverSystem;
    let seen: Vec<Detection> = receiver.run(world, arctangents);
    let mut motion = Movement;
    motion.run(world);
    let ghost moved: Snapshot = world@;
    let slots: usize = world.capacity();
    proof {
        lemma_population_alike(old(world)@, moved, slots as int);
    }
    let commit: Commit = world.maintain();
    proof {
        if old(world)@.pending.len() == 0 {
            let base = moved.settled();
            let n = slots as int;
            lemma_consistent_alike(moved, base);
            assert(base.positions.dom() =~= old(world)@.positions.dom());
            lemma_endings_alike(old(world)@, base, n);
            assert(moved.pending =~= endings(base, n));
            lemma_endings(base, n);
            lemma_purged(base);
        }
    }
    (seen, commit)
}

/// Advances the world by one tick.  `arctangent` gives the arctangent in
/// degrees of a `dy` over a `dx`, for each line of sight that the
/// illumination and the receiver stage ask about.
///
/// After the tick no wave is left, whatever `arctangent` answers: the tick
/// has destroyed the waves that it has created and those that the world
/// held before.  In a world that held no wave, it has destroyed as many
/// waves as it has created.
pub fn advance_tick<F: Fn(Fixed, Fixed) -> Fixed>(world: &mut World, arctangent: F) -> (report:
    TickReport)
    requires
        old(world).wf(),
        forall|dy: Fixed, dx: Fixed| call_requires(arctangent, (dy, dx)),
    ensures
        final(world).wf(),
        final(world)@.waves.dom() == Set::<int>::empty(),
        final(world)@.pending == Seq::<Command>::empty(),
        report.waves_destroyed == report.waves_created + wave_count(old(world)@),
        old(world)@.waves.dom() == Set::<int>::empty() ==> report.waves_created
            == report.waves_destroyed,
        exists|first: Seq<Fixed>, second: Seq<Fixed>|
            answered(&arctangent, first_lines(old(world)@), first) && answered(
                &arctangent,
                second_lines(old(world)@, first),
                second,
            ) && final(world)@ == ticked(old(world)@, first) && report.illuminations@
                == tick_hits(old(world)@, first) && report.detections@
                == #[trigger] tick_detections(old(world)@, first, second),
{
    let sent: Commit = begin_tick(world);
    let detection = InteractionDetection;
    let first_lines: Vec<Sightline> = detection.sightlines(world);
    let first: Vec<Fixed> = resolve(&first_lines, &arctangent);
    let Illuminated { hits, struck, echoed } = illuminate(world, &first);
    let receiver = AntennaReceiverSystem;
    let second_lines: Vec<Sightline> = receiver.sightlines(world);
    let second: Vec<Fixed> = resolve(&second_lines, &arctangent);
    let (detections, heard) = conclude_tick(world, &second);
    proof {
        if old(world)@.waves.dom() == Set::<int>::empty() {
            lemma_population_none(old(world)@, old(world)@.slots.len() as int);
        }
        lemma_population_none(world@, world@.slots.len() as int);
        assert(world@ == ticked(old(world)@, first@));
        assert(hits@ == tick_hits(old(world)@, first@));
        assert(detections@ == tick_detections(old(world)@, first@, second@));
    }
    let waves_created: u128 = sent.waves_created as u128 + struck.waves_created as u128
        + echoed.waves_created as u128 + heard.waves_created as u128;
    let waves_destroyed: u128 = sent.waves_destroyed as u128 + struck.waves_destroyed as u128
        + echoed.waves_destroyed as u128 + heard.waves_destroyed as u128;
    TickReport { waves_created, waves_destroyed, illuminations: hits, detections }
}

} // verus!
