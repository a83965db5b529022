use crate::fixed::Fixed;
use crate::functions::units::FULL_TURN_RAW;
use vstd::prelude::*;

verus! {

/// Distance between two angles on the number line.
pub open spec fn gap(x: int, y: int) -> int {
    if x >= y {
        x - y
    } else {
        y - x
    }
}

/// Whether the arc around `direction` reaches the seam between 360 and 0
/// degrees.
pub open spec fn wraps(reach: int, direction: int) -> bool {
    direction + reach >= FULL_TURN_RAW || direction - reach <= 0
}

/// Whether a beam of the given width around `direction` covers `angle`, all
/// three in raw units of degrees.
///
/// The angle is covered when it lies within half the width of the
/// direction.  Where the arc reaches the seam, an angle of at most half the
/// width is first moved up by a full turn, and is then also covered when it
/// lies within half the width of the direction a full turn further on,
/// provided the direction is not negative.
pub open spec fn illuminated(width: int, direction: int, angle: int) -> bool {
    let reach = width / 2;
    let seam = wraps(reach, direction);
    let seen = if seam && angle <= reach {
        angle + FULL_TURN_RAW
    } else {
        angle
    };
    (seam && direction >= 0 && gap(seen, direction + FULL_TURN_RAW) <= reach) || gap(
        seen,
        direction,
    ) <= reach
}

/// Whether moving `angle` up by a full turn leaves the verdict of
/// [`illuminated`] as it is, for a direction and an angle in `[0, 360)`.
///
/// It does when the half width is negative, so that nothing is covered.
/// For an arc away from the seam it does when the angle is not covered.  For
/// an arc that reaches the seam it does when the angle is at most the half
/// width, when it lies within the half width of the direction, or when it
/// does not lie within the half width of the direction a full turn on.
pub open spec fn turn_keeps_verdict(width: int, direction: int, angle: int) -> bool {
    let reach = width / 2;
    reach < 0 || if wraps(reach, direction) {
        angle <= reach || gap(angle, direction) <= reach || gap(angle, direction + FULL_TURN_RAW)
            > reach
    } else {
        gap(angle, direction) > reach
    }
}

/// What [`check_illumination`] answers: the three quantities are finite and
/// the beam covers the angle.
pub open spec fn beam_covers(em_width: Fixed, em_dir: Fixed, input_angle: Fixed) -> bool {
    em_width.finite() && em_dir.finite() && input_angle.finite() && illuminated(
        em_width.raw as int,
        em_dir.raw as int,
        input_angle.raw as int,
    )
}

/// A full turn, as a quantity.
pub open spec fn full_turn() -> Fixed {
    Fixed { raw: FULL_TURN_RAW }
}

/// Whether an angle lies in `[0, 360)` degrees.
pub open spec fn normalized(angle: Fixed) -> bool {
    0 <= angle.raw < FULL_TURN_RAW
}

/// Whether a beam of width `em_width` pointing in direction `em_dir` covers
/// the angle `input_angle`, all in degrees.  An angle exactly half the width
/// away from the direction is covered.  Nothing is covered where one of the
/// three is not finite.
pub fn check_illumination(em_width: Fixed, em_dir: Fixed, input_angle: Fixed) -> (hit: bool)
    ensures
        hit == beam_covers(em_width, em_dir, input_angle),
{
    if !(em_width.is_finite() && em_dir.is_finite() && input_angle.is_finite()) {
        return false;
    }
    let reach: i128 = em_width.halve().raw;
    let direction: i128 = em_dir.raw;
    let mut angle: i128 = input_angle.raw;
    if direction + reach >= FULL_TURN_RAW || direction - reach <= 0 {
        if angle <= reach {
            angle = angle + FULL_TURN_RAW;
        }
        if direction >= 0 && distance(angle, direction + FULL_TURN_RAW) <= reach {
            return true;
        }
    }
    distance(angle, direction) <= reach
}

/// Distance between two angles, each of a magnitude that leaves room for it.
fn distance(x: i128, y: i128) -> (d: i128)
    requires
        -4 * crate::fixed::LIMIT <= x <= 4 * crate::fixed::LIMIT,
        -4 * crate::fixed::LIMIT <= y <= 4 * crate::fixed::LIMIT,
    ensures
        d == gap(x as int, y as int),
{
    if x >= y {
        x - y
    } else {
        y - x
    }
}

/// Moving a normalized angle up by a full turn leaves the answer of
/// [`check_illumination`] as it is, for a normalized direction and any beam
/// width, wherever [`turn_keeps_verdict`] holds.
pub proof fn lemma_full_turn_keeps_verdict(em_width: Fixed, em_dir: Fixed, input_angle: Fixed)
    requires
        normalized(em_dir),
        normalized(input_angle),
        em_width.finite() ==> turn_keeps_verdict(
            em_width.raw as int,
            em_dir.raw as int,
            input_angle.raw as int,
        ),
    ensures
        beam_covers(em_width, em_dir, input_angle) == beam_covers(
            em_width,
            em_dir,
            input_angle.spec_add(full_turn()),
        ),
{
}

/// Wherever [`turn_keeps_verdict`] does not hold of a finite width, moving
/// the angle up by a full turn changes the answer of [`check_illumination`].
pub proof fn lemma_full_turn_changes_verdict(em_width: Fixed, em_dir: Fixed, input_angle: Fixed)
    requires
        normalized(em_dir),
        normalized(input_angle),
        em_width.finite(),
        !turn_keeps_verdict(em_width.raw as int, em_dir.raw as int, input_angle.raw as int),
    ensures
        beam_covers(em_width, em_dir, input_angle) != beam_covers(
            em_width,
            em_dir,
            input_angle.spec_add(full_turn()),
        ),
{
}

} // verus!
