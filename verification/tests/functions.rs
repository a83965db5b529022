use radar_sim::data::{Antenna, Illumination, Position, ProfileError, Velocity, RCS};
use radar_sim::fixed::Fixed;
use radar_sim::functions::{
    calculate_range, calculate_rcs, check_illumination, doppler_shift, incident_angle,
    move_entity, power_density, rotate_entity, sightline,
};

fn fx(x: f64) -> Fixed {
    Fixed::from_raw((x * 1e12).round() as i128)
}

fn val(q: Fixed) -> f64 {
    q.raw as f64 / 1e12
}

fn arctangent(dy: Fixed, dx: Fixed) -> Fixed {
    fx(val(dy).atan2(val(dx)).to_degrees())
}

fn at(x: f64, y: f64, z: f64, direction: f64) -> Position {
    Position { x: fx(x), y: fx(y), z: fx(z), direction: fx(direction) }
}

fn list(values: &[f64]) -> Vec<Fixed> {
    values.iter().map(|v| fx(*v)).collect()
}

#[test]
fn test_range() {
    let radar = at(0.0, 0.0, 0.0, 0.0);
    let target = at(100.0, 100.0, 0.0, 0.0);
    let range = calculate_range(&radar, &target);
    assert_eq!(range, Fixed::from_raw(141_421_356_237_309));
    assert!((val(range) - 141.42135623731).abs() < 1e-9);
    assert_eq!(val(range) as f32, 141.42135623731_f32);
}

#[test]
fn calculate_rcs_test_rcs() {
    let angle = [0.0, 10.0, 100.0, 355.0];
    let angles = list(&[0.0, 10.0, 200.0]);
    let values = list(&[10.0, 50.0, 100.0]);
    let truth = [10.0, 50.0, 100.0, 100.0];
    for n in 0..angle.len() {
        assert_eq!(calculate_rcs(fx(angle[n]), &angles, &values), fx(truth[n]));
    }
}

#[test]
fn test_illumination() {
    let width = fx(10.0);
    let direction = [45.0, 270.0, 180.0, 180.0, 3.0];
    let angle = [45.0, 270.0, 10.0, 185.0, 359.9];
    let truth_values = [true, true, false, true, true];
    for n in 0..direction.len() {
        assert_eq!(check_illumination(width, fx(direction[n]), fx(angle[n])), truth_values[n]);
    }
}

#[test]
fn test_doppler_shift() {
    let vel = Velocity { x: fx(100.0), y: fx(100.0), z: fx(0.0) };
    let illum = Illumination {
        angle: fx(100.0),
        frequency: fx(10.0),
        lambda: fx(100.0),
        power: fx(50.0),
        rcs: fx(1.0),
    };
    let shifted = doppler_shift(&vel, &illum);
    assert_eq!(shifted, Fixed::from_raw(10_000_009_434_600));
    assert!((val(shifted) - 10.000009428090416).abs() < 1e-6);
    assert_eq!(val(shifted) as f32, 10.000009428090416_f32);
}

#[test]
fn test_angle() {
    let emitter = at(0.0, 0.0, 0.0, 0.0);
    let target = at(-50.0, -100.0, 0.0, 180.0);
    let line = sightline(&emitter, &target);
    assert_eq!(line.dy, fx(-100.0));
    assert_eq!(line.dx, fx(-50.0));
    let angle = incident_angle(arctangent(line.dy, line.dx));
    assert_eq!(angle, Fixed::from_raw(243_434_948_822_922));
    assert!((val(angle) - 243.43497).abs() < 1e-4);
}

#[test]
fn incident_angle_keeps_what_is_not_negative() {
    assert_eq!(incident_angle(fx(0.0)), fx(0.0));
    assert_eq!(incident_angle(fx(45.0)), fx(45.0));
    assert_eq!(incident_angle(fx(180.0)), fx(180.0));
}

#[test]
fn incident_angle_moves_negative_up_by_a_turn() {
    assert_eq!(incident_angle(fx(-90.0)), fx(270.0));
    assert_eq!(incident_angle(fx(-180.0)), fx(180.0));
    assert_eq!(incident_angle(Fixed::from_raw(-1)), Fixed::from_raw(359_999_999_999_999));
}

#[test]
fn incident_angle_of_nothing_is_not_finite() {
    assert!(!incident_angle(Fixed::non_finite()).is_finite());
}

#[test]
fn illumination_counts_the_edges_of_the_beam() {
    let width = fx(10.0);
    assert!(check_illumination(width, fx(45.0), fx(50.0)));
    assert!(check_illumination(width, fx(45.0), fx(40.0)));
    assert!(!check_illumination(width, fx(45.0), Fixed::from_raw(50_000_000_000_001)));
    assert!(!check_illumination(width, fx(45.0), Fixed::from_raw(39_999_999_999_999)));
}

#[test]
fn illumination_wraps_at_the_seam() {
    let width = fx(10.0);
    assert!(check_illumination(width, fx(358.0), fx(1.0)));
    assert!(check_illumination(width, fx(358.0), fx(3.0)));
    assert!(!check_illumination(width, fx(358.0), fx(4.0)));
    assert!(check_illumination(width, fx(2.0), fx(357.0)));
    assert!(!check_illumination(width, fx(2.0), fx(356.0)));
    assert!(check_illumination(width, fx(0.0), fx(355.0)));
    assert!(check_illumination(width, fx(5.0), fx(0.0)));
}

#[test]
fn illumination_needs_finite_angles() {
    let width = fx(10.0);
    assert!(!check_illumination(width, fx(45.0), Fixed::non_finite()));
    assert!(!check_illumination(width, Fixed::non_finite(), fx(45.0)));
    assert!(!check_illumination(Fixed::non_finite(), fx(45.0), fx(45.0)));
}

#[test]
fn a_full_turn_keeps_the_verdict_near_the_seam() {
    let width = fx(10.0);
    let turn = fx(360.0);
    for angle in [0.0, 1.0, 5.0] {
        assert!(check_illumination(width, fx(3.0), fx(angle)));
        assert!(check_illumination(width, fx(3.0), fx(angle).add(turn)));
    }
    for angle in [20.0, 100.0, 200.0, 350.0] {
        assert!(!check_illumination(width, fx(45.0), fx(angle)));
        assert!(!check_illumination(width, fx(45.0), fx(angle).add(turn)));
    }
}

#[test]
fn a_full_turn_changes_the_verdict_inside_a_beam_away_from_the_seam() {
    let width = fx(10.0);
    assert!(check_illumination(width, fx(45.0), fx(45.0)));
    assert!(!check_illumination(width, fx(45.0), fx(405.0)));
    assert!(check_illumination(width, fx(3.0), fx(359.9)));
    assert!(!check_illumination(width, fx(3.0), fx(719.9)));
}

#[test]
fn rcs_lookup_steps_through_the_table() {
    let angles = list(&[0.0, 10.0, 200.0]);
    let values = list(&[10.0, 50.0, 100.0]);
    assert_eq!(calculate_rcs(fx(5.0), &angles, &values), fx(10.0));
    assert_eq!(calculate_rcs(fx(9.999), &angles, &values), fx(10.0));
    assert_eq!(calculate_rcs(fx(200.0), &angles, &values), fx(100.0));
    assert_eq!(calculate_rcs(fx(150.0), &angles, &values), fx(100.0));
    assert_eq!(calculate_rcs(fx(10.5), &angles, &values), fx(100.0));
}

#[test]
fn rcs_lookup_gives_the_entry_of_the_nearest_angle_below() {
    let angles = list(&[0.0, 90.0, 180.0, 270.0]);
    let values = list(&[1.0, 2.0, 3.0, 4.0]);
    assert_eq!(calculate_rcs(fx(45.0), &angles, &values), fx(1.0));
    assert_eq!(calculate_rcs(fx(135.0), &angles, &values), fx(2.0));
    assert_eq!(calculate_rcs(fx(179.0), &angles, &values), fx(2.0));
    assert_eq!(calculate_rcs(fx(180.0), &angles, &values), fx(3.0));
    assert_eq!(calculate_rcs(fx(225.0), &angles, &values), fx(4.0));
    assert_eq!(calculate_rcs(fx(300.0), &angles, &values), fx(4.0));
}

#[test]
fn rcs_lookup_below_the_first_angle_gives_the_last_value() {
    let angles = list(&[10.0, 20.0, 200.0]);
    let values = list(&[1.0, 2.0, 3.0]);
    assert_eq!(calculate_rcs(fx(5.0), &angles, &values), fx(3.0));
    assert_eq!(calculate_rcs(fx(-5.0), &angles, &values), fx(3.0));
    assert_eq!(calculate_rcs(fx(15.0), &angles, &values), fx(1.0));
}

#[test]
fn rcs_lookup_in_a_table_of_one_entry() {
    let angles = list(&[90.0]);
    let values = list(&[7.0]);
    assert_eq!(calculate_rcs(fx(90.0), &angles, &values), fx(7.0));
    assert_eq!(calculate_rcs(fx(10.0), &angles, &values), fx(7.0));
    assert_eq!(calculate_rcs(fx(300.0), &angles, &values), fx(7.0));
}

#[test]
fn rcs_lookup_takes_the_first_of_equal_angles() {
    let angles = list(&[10.0, 10.0, 20.0]);
    let values = list(&[1.0, 2.0, 3.0]);
    assert_eq!(calculate_rcs(fx(10.0), &angles, &values), fx(1.0));
}

#[test]
fn rcs_lookup_gives_any_value_of_the_table_as_it_is() {
    let angles = list(&[0.0, 50.0, 100.0]);
    let values = list(&[-1.0, 5.0, 9.0]);
    assert_eq!(calculate_rcs(fx(20.0), &angles, &values), fx(-1.0));
    assert_eq!(calculate_rcs(fx(0.0), &angles, &values), fx(-1.0));
    assert_eq!(calculate_rcs(fx(70.0), &angles, &values), fx(9.0));
}

#[test]
fn rcs_lookup_of_an_angle_that_is_not_finite() {
    let angles = list(&[0.0, 50.0, 100.0]);
    let values = list(&[4.0, 5.0, 9.0]);
    assert_eq!(calculate_rcs(Fixed::non_finite(), &angles, &values), fx(9.0));
}

#[test]
fn profile_new_accepts_matching_lists() {
    let profile = RCS::new(list(&[0.0, 90.0]), list(&[1.0, 2.0]), fx(1.5)).unwrap();
    assert_eq!(profile.angles, list(&[0.0, 90.0]));
    assert_eq!(profile.values, list(&[1.0, 2.0]));
    assert_eq!(profile.avg_rcs, fx(1.5));
    assert!(profile.is_tabulated());
}

#[test]
fn profile_new_refuses_empty_lists() {
    assert_eq!(RCS::new(Vec::new(), Vec::new(), fx(1.0)).err(), Some(ProfileError::Empty));
    assert_eq!(RCS::new(Vec::new(), list(&[1.0]), fx(1.0)).err(), Some(ProfileError::Empty));
}

#[test]
fn profile_new_refuses_lists_of_different_length() {
    assert_eq!(
        RCS::new(list(&[0.0, 90.0]), list(&[1.0]), fx(1.0)).err(),
        Some(ProfileError::LengthMismatch)
    );
    assert_eq!(
        RCS::new(list(&[0.0]), Vec::new(), fx(1.0)).err(),
        Some(ProfileError::LengthMismatch)
    );
}

#[test]
fn profile_uniform_has_no_list() {
    let profile = RCS::uniform(fx(3.0));
    assert!(!profile.is_tabulated());
    assert_eq!(profile.avg_rcs, fx(3.0));
    assert!(profile.angles.is_empty());
    assert!(profile.values.is_empty());
}

#[test]
fn power_density_spreads_over_a_sphere() {
    let density = power_density(fx(100.0), Fixed::from_raw(141_421_356_237_309));
    assert_eq!(density, Fixed::from_raw(397_887_357));
    assert!((val(density) - 0.00039788734).abs() < 1e-10);
    let near = power_density(fx(10000.0), fx(100.0));
    assert_eq!(near, Fixed::from_raw(79_577_471_545));
    assert!((val(near) - 10000.0 / (4.0 * std::f64::consts::PI * 10000.0)).abs() < 1e-10);
}

#[test]
fn power_density_at_no_range_is_not_finite() {
    assert!(!power_density(fx(100.0), fx(0.0)).is_finite());
    assert!(!power_density(Fixed::non_finite(), fx(10.0)).is_finite());
    assert!(!power_density(fx(100.0), Fixed::non_finite()).is_finite());
}

#[test]
fn range_ignores_height() {
    let low = at(3.0, 4.0, 0.0, 0.0);
    let high = at(0.0, 0.0, 500.0, 90.0);
    assert_eq!(calculate_range(&low, &high), fx(5.0));
    assert_eq!(calculate_range(&high, &low), fx(5.0));
    assert_eq!(calculate_range(&low, &low), fx(0.0));
}

#[test]
fn doppler_of_a_target_at_rest_keeps_the_frequency() {
    let vel = Velocity { x: fx(0.0), y: fx(0.0), z: fx(0.0) };
    let illum = Illumination {
        angle: fx(0.0),
        frequency: fx(9.4e9),
        lambda: fx(0.03),
        power: fx(1.0),
        rcs: fx(1.0),
    };
    assert_eq!(doppler_shift(&vel, &illum), fx(9.4e9));
}

#[test]
fn doppler_counts_all_three_axes() {
    let illum = Illumination {
        angle: fx(0.0),
        frequency: fx(10.0),
        lambda: fx(1.0),
        power: fx(1.0),
        rcs: fx(1.0),
    };
    let up = Velocity { x: fx(0.0), y: fx(0.0), z: fx(299_792.458) };
    assert_eq!(doppler_shift(&up, &illum), fx(10.02));
    let away = Velocity { x: fx(-299_792.458), y: fx(0.0), z: fx(0.0) };
    assert_eq!(doppler_shift(&away, &illum), fx(10.02));
    let fast = Velocity { x: fx(0.0), y: fx(0.0), z: fx(299_792_458.0) };
    assert!(!doppler_shift(&fast, &illum).is_finite());
}

#[test]
fn move_entity_adds_the_velocity() {
    let mut pos = at(10.0, 0.0, 1.0, 0.0);
    let vel = Velocity { x: fx(100.0), y: fx(100.0), z: fx(0.0) };
    move_entity(&mut pos, &vel);
    assert_eq!(pos, at(110.0, 100.0, 1.0, 0.0));
    let back = Velocity { x: fx(-110.5), y: fx(0.25), z: fx(-2.0) };
    move_entity(&mut pos, &back);
    assert_eq!(pos, at(-0.5, 100.25, -1.0, 0.0));
}

#[test]
fn move_entity_past_the_range_is_not_finite() {
    let mut pos = at(9.0e13, 0.0, 0.0, 0.0);
    let vel = Velocity { x: fx(2.0e13), y: fx(0.0), z: fx(0.0) };
    move_entity(&mut pos, &vel);
    assert!(!pos.x.is_finite());
    assert_eq!(pos.y, fx(0.0));
}

fn scanner(width: f64) -> Antenna {
    Antenna {
        frequency: fx(100.0),
        gain: fx(10.0),
        power: fx(10.0),
        wavelength: fx(1.0),
        elevation_beam_width: fx(20.0),
        azimuth_beam_width: fx(width),
    }
}

#[test]
fn rotate_entity_advances_by_half_the_width() {
    let mut pos = at(1.0, 2.0, 3.0, 0.0);
    rotate_entity(&mut pos, &scanner(10.0));
    assert_eq!(pos, at(1.0, 2.0, 3.0, 5.0));
    rotate_entity(&mut pos, &scanner(10.0));
    assert_eq!(pos, at(1.0, 2.0, 3.0, 10.0));
}

#[test]
fn rotate_entity_wraps_at_a_full_turn() {
    let mut pos = at(0.0, 0.0, 0.0, 358.0);
    rotate_entity(&mut pos, &scanner(10.0));
    assert_eq!(pos.direction, fx(3.0));
    let mut edge = at(0.0, 0.0, 0.0, 355.0);
    rotate_entity(&mut edge, &scanner(10.0));
    assert_eq!(edge.direction, fx(0.0));
    let mut back = at(0.0, 0.0, 0.0, 2.0);
    rotate_entity(&mut back, &scanner(-10.0));
    assert_eq!(back.direction, fx(357.0));
}
