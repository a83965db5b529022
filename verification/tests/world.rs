use radar_sim::data::{
    Antenna, EMWave, Illumination, Position, TargetIllumination, Velocity, RCS,
};
use radar_sim::ecs::{Command, EntityId, EntityStore, Table, World};
use radar_sim::fixed::Fixed;

fn fx(x: f64) -> Fixed {
    Fixed::from_raw((x * 1e12).round() as i128)
}

fn at(x: f64, y: f64, z: f64, direction: f64) -> Position {
    Position { x: fx(x), y: fx(y), z: fx(z), direction: fx(direction) }
}

fn beam(power: f64) -> EMWave {
    EMWave {
        power: fx(power),
        wavelength: fx(1.0),
        frequency: fx(1.0),
        azimuth_width: fx(20.0),
        elevation_width: fx(20.0),
    }
}

fn dish() -> Antenna {
    Antenna {
        frequency: fx(100.0),
        gain: fx(10.0),
        power: fx(1000.0),
        wavelength: fx(1000.0),
        elevation_beam_width: fx(20.0),
        azimuth_beam_width: fx(10.0),
    }
}

#[test]
fn store_hands_out_slots_in_order() {
    let mut store = EntityStore::new();
    assert_eq!(store.capacity(), 0);
    let a = store.create();
    let b = store.create();
    assert_eq!(a, EntityId { index: 0, generation: 0 });
    assert_eq!(b, EntityId { index: 1, generation: 0 });
    assert_eq!(store.capacity(), 2);
    assert!(store.is_alive(a));
    assert!(store.is_alive(b));
    assert_eq!(store.entity_at(0), Some(a));
    assert_eq!(store.entity_at(1), Some(b));
    assert_eq!(store.entity_at(2), None);
}

#[test]
fn store_reuses_the_first_vacant_slot_at_the_next_generation() {
    let mut store = EntityStore::new();
    let a = store.create();
    let b = store.create();
    let c = store.create();
    assert!(store.destroy(b));
    assert!(store.destroy(a));
    assert!(!store.is_alive(a));
    assert_eq!(store.entity_at(0), None);
    let d = store.create();
    assert_eq!(d, EntityId { index: 0, generation: 1 });
    let e = store.create();
    assert_eq!(e, EntityId { index: 1, generation: 1 });
    let f = store.create();
    assert_eq!(f, EntityId { index: 3, generation: 0 });
    assert!(store.is_alive(c));
    assert_eq!(store.capacity(), 4);
}

#[test]
fn store_ignores_a_stale_handle() {
    let mut store = EntityStore::new();
    let a = store.create();
    assert!(store.destroy(a));
    assert!(!store.destroy(a));
    let again = store.create();
    assert_eq!(again.index, a.index);
    assert!(!store.is_alive(a));
    assert!(!store.destroy(a));
    assert!(store.is_alive(again));
    assert!(!store.destroy(EntityId { index: 7, generation: 0 }));
    assert!(!store.is_alive(EntityId { index: 0, generation: 5 }));
}

#[test]
fn table_holds_one_value_for_a_cell() {
    let mut table: Table<Position> = Table::new();
    assert_eq!(table.capacity(), 0);
    assert!(!table.contains(0));
    assert!(table.get(0).is_none());
    assert!(table.remove(0).is_none());
    table.grow();
    table.grow();
    table.grow();
    assert_eq!(table.capacity(), 3);
    table.insert(2, at(1.0, 2.0, 3.0, 4.0));
    table.insert(0, at(5.0, 6.0, 7.0, 8.0));
    assert!(table.contains(0));
    assert!(!table.contains(1));
    assert!(table.contains(2));
    assert!(!table.contains(3));
    assert_eq!(table.get(2), Some(&at(1.0, 2.0, 3.0, 4.0)));
    assert_eq!(table.occupied(), vec![0, 2]);
    table.insert(2, at(9.0, 9.0, 9.0, 9.0));
    assert_eq!(table.get(2), Some(&at(9.0, 9.0, 9.0, 9.0)));
    assert_eq!(table.remove(0), Some(at(5.0, 6.0, 7.0, 8.0)));
    assert_eq!(table.remove(0), None);
    assert_eq!(table.occupied(), vec![2]);
    assert_eq!(table.capacity(), 3);
}

#[test]
fn world_starts_empty() {
    let world = World::new();
    assert_eq!(world.capacity(), 0);
    assert!(world.pending.is_empty());
    assert!(world.wave_entities().is_empty());
    assert!(!world.is_alive(EntityId { index: 0, generation: 0 }));
}

#[test]
fn world_gives_live_entities_their_data() {
    let mut world = World::new();
    let id = world.create();
    assert!(world.is_alive(id));
    assert_eq!(world.position(id), None);
    assert!(world.insert_position(id, at(1.0, 2.0, 3.0, 4.0)));
    assert!(world.insert_velocity(id, Velocity { x: fx(1.0), y: fx(0.0), z: fx(-1.0) }));
    assert!(world.insert_antenna(id, dish()));
    assert!(world.insert_profile(id, RCS::uniform(fx(2.0))));
    assert!(world.insert_illuminations(id, TargetIllumination::new()));
    assert_eq!(world.position(id), Some(at(1.0, 2.0, 3.0, 4.0)));
    assert_eq!(world.velocity(id), Some(Velocity { x: fx(1.0), y: fx(0.0), z: fx(-1.0) }));
    assert_eq!(world.antenna(id), Some(dish()));
    assert_eq!(world.illuminations_of(id), Some(Vec::<Illumination>::new()));
    assert_eq!(world.wave(id), None);
    assert!(world.insert_position(id, at(0.0, 0.0, 0.0, 0.0)));
    assert_eq!(world.position(id), Some(at(0.0, 0.0, 0.0, 0.0)));
}

#[test]
fn world_gives_a_wave_to_an_entity_with_a_position_only() {
    let mut world = World::new();
    let id = world.create();
    assert!(!world.insert_wave(id, beam(1.0)));
    assert_eq!(world.wave(id), None);
    assert!(world.insert_position(id, at(0.0, 0.0, 0.0, 0.0)));
    assert!(world.insert_wave(id, beam(1.0)));
    assert_eq!(world.wave(id), Some(beam(1.0)));
    assert_eq!(world.wave_entities(), vec![id]);
}

#[test]
fn world_ignores_a_stale_handle() {
    let mut world = World::new();
    let id = world.create();
    assert!(world.insert_position(id, at(1.0, 1.0, 1.0, 1.0)));
    assert!(world.destroy(id));
    assert!(!world.destroy(id));
    assert!(!world.is_alive(id));
    assert!(!world.insert_position(id, at(2.0, 2.0, 2.0, 2.0)));
    assert!(!world.insert_velocity(id, Velocity { x: fx(1.0), y: fx(1.0), z: fx(1.0) }));
    assert!(!world.insert_antenna(id, dish()));
    assert!(!world.insert_wave(id, beam(1.0)));
    assert!(!world.insert_profile(id, RCS::uniform(fx(1.0))));
    assert!(!world.insert_illuminations(id, TargetIllumination::new()));
    assert_eq!(world.position(id), None);
    let next = world.create();
    assert_eq!(next, EntityId { index: id.index, generation: id.generation + 1 });
    assert_eq!(world.position(next), None);
    assert_eq!(world.position(id), None);
    assert!(world.positions.occupied().is_empty());
}

#[test]
fn world_destroys_an_entity_with_all_it_carries() {
    let mut world = World::new();
    let keep = world.create();
    assert!(world.insert_position(keep, at(1.0, 1.0, 1.0, 1.0)));
    let id = world.spawn(at(3.0, 3.0, 3.0, 3.0), beam(5.0));
    assert!(world.insert_velocity(id, Velocity { x: fx(1.0), y: fx(1.0), z: fx(1.0) }));
    assert!(world.insert_antenna(id, dish()));
    assert!(world.insert_profile(id, RCS::uniform(fx(1.0))));
    assert!(world.insert_illuminations(id, TargetIllumination::new()));
    assert!(world.destroy(id));
    assert!(world.wave_entities().is_empty());
    assert_eq!(world.positions.occupied(), vec![keep.index]);
    assert!(world.velocities.occupied().is_empty());
    assert!(world.antennas.occupied().is_empty());
    assert!(world.waves.occupied().is_empty());
    assert!(world.profiles.occupied().is_empty());
    assert!(world.illuminations.occupied().is_empty());
    assert_eq!(world.position(keep), Some(at(1.0, 1.0, 1.0, 1.0)));
}

#[test]
fn deferred_commands_wait_for_the_commit() {
    let mut world = World::new();
    let old = world.spawn(at(0.0, 0.0, 0.0, 0.0), beam(1.0));
    world.defer_spawn(at(1.0, 2.0, 3.0, 4.0), beam(7.0));
    world.defer_destroy(old);
    assert_eq!(
        world.pending,
        vec![
            Command::Spawn { position: at(1.0, 2.0, 3.0, 4.0), wave: beam(7.0) },
            Command::Destroy { id: old }
        ]
    );
    assert!(world.is_alive(old));
    assert_eq!(world.wave_entities(), vec![old]);

    let commit = world.maintain();
    assert_eq!(commit.waves_created, 1);
    assert_eq!(commit.waves_destroyed, 1);
    assert!(world.pending.is_empty());
    assert!(!world.is_alive(old));
    let waves = world.wave_entities();
    assert_eq!(waves, vec![EntityId { index: 1, generation: 0 }]);
    assert_eq!(world.wave(waves[0]), Some(beam(7.0)));
    assert_eq!(world.position(waves[0]), Some(at(1.0, 2.0, 3.0, 4.0)));
}

#[test]
fn commit_carries_commands_out_in_their_order() {
    let mut world = World::new();
    let old = world.spawn(at(0.0, 0.0, 0.0, 0.0), beam(1.0));
    world.defer_destroy(old);
    world.defer_spawn(at(1.0, 2.0, 3.0, 4.0), beam(7.0));
    world.defer_destroy(old);
    let commit = world.maintain();
    assert_eq!(commit.waves_created, 1);
    assert_eq!(commit.waves_destroyed, 1);
    let waves = world.wave_entities();
    assert_eq!(waves, vec![EntityId { index: 0, generation: 1 }]);
    assert_eq!(world.wave(waves[0]), Some(beam(7.0)));
}

#[test]
fn commit_counts_waves_only_among_the_destroyed() {
    let mut world = World::new();
    let plain = world.create();
    assert!(world.insert_position(plain, at(0.0, 0.0, 0.0, 0.0)));
    world.defer_destroy(plain);
    world.defer_destroy(EntityId { index: 9, generation: 0 });
    let commit = world.maintain();
    assert_eq!(commit.waves_created, 0);
    assert_eq!(commit.waves_destroyed, 0);
    assert!(!world.is_alive(plain));
}

#[test]
fn commit_of_nothing_changes_nothing() {
    let mut world = World::new();
    let id = world.spawn(at(0.0, 0.0, 0.0, 0.0), beam(1.0));
    let commit = world.maintain();
    assert_eq!(commit.waves_created, 0);
    assert_eq!(commit.waves_destroyed, 0);
    assert_eq!(world.wave_entities(), vec![id]);
}

#[test]
fn a_world_changed_through_its_functions_is_well_formed() {
    let mut world = World::new();
    assert!(world.is_well_formed());
    let id = world.spawn(at(0.0, 0.0, 0.0, 0.0), beam(1.0));
    let other = world.create();
    assert!(world.insert_antenna(other, dish()));
    assert!(world.is_well_formed());
    world.defer_destroy(id);
    world.defer_spawn(at(1.0, 1.0, 1.0, 1.0), beam(2.0));
    assert!(world.is_well_formed());
    world.maintain();
    assert!(world.is_well_formed());
    assert!(world.destroy(other));
    assert!(world.is_well_formed());
}

#[test]
fn a_world_with_a_table_of_another_length_is_not_well_formed() {
    let mut world = World::new();
    world.create();
    world.waves.grow();
    assert!(!world.is_well_formed());
}

#[test]
fn a_world_in_which_a_dead_slot_carries_something_is_not_well_formed() {
    let mut world = World::new();
    let id = world.create();
    assert!(world.destroy(id));
    world.velocities.insert(id.index, Velocity { x: fx(1.0), y: fx(1.0), z: fx(1.0) });
    assert!(!world.is_well_formed());
}

#[test]
fn a_world_with_a_wave_without_a_position_is_not_well_formed() {
    let mut world = World::new();
    let id = world.create();
    world.waves.insert(id.index, beam(1.0));
    assert!(!world.is_well_formed());
    assert!(world.insert_position(id, at(0.0, 0.0, 0.0, 0.0)));
    assert!(world.is_well_formed());
}

#[test]
fn a_new_store_is_sound() {
    let mut store = EntityStore::new();
    assert!(store.is_sound());
    let id = store.create();
    assert!(store.destroy(id));
    assert!(store.is_sound());
}
