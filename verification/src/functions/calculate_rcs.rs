use crate::fixed::Fixed;
use vstd::prelude::*;

verus! {

/// The first index from `from` on at which the list holds `angle`, or the
/// length of the list where it holds it nowhere.
pub open spec fn first_entry(angle: Fixed, angles: Seq<Fixed>, from: int) -> int
    decreases angles.len() - from,
{
    if from < 0 || from >= angles.len() {
        angles.len() as int
    } else if angles[from].spec_same(angle) {
        from
    } else {
        first_entry(angle, angles, from + 1)
    }
}

/// The first index from `from` on and under `upto` whose angle lies above
/// `angle`, or `upto` where none does.
pub open spec fn first_above(angle: Fixed, angles: Seq<Fixed>, from: int, upto: int) -> int
    decreases upto - from,
{
    if from < 0 || from >= upto || upto > angles.len() {
        upto
    } else if angle.spec_lt(angles[from]) {
        from
    } else {
        first_above(angle, angles, from + 1, upto)
    }
}

/// The reflectivity that a table gives at an angle: a step function of
/// the angle.
///
/// Where the table holds the angle, it is the value at its first entry.
/// Otherwise the entries but the last are searched for the first angle
/// above `angle`, and the value of the entry before it is the answer: in
/// a table of rising angles, the entry of the nearest angle below.  Where
/// no angle lies above, or the very first does, the answer is the last
/// value of the table.
pub open spec fn reflectivity(angle: Fixed, angles: Seq<Fixed>, values: Seq<Fixed>) -> Fixed {
    let exact = first_entry(angle, angles, 0);
    if exact < angles.len() {
        values[exact]
    } else {
        let above = first_above(angle, angles, 0, angles.len() - 1);
        if 1 <= above < angles.len() - 1 {
            values[above - 1]
        } else {
            values[values.len() - 1]
        }
    }
}

/// Looks an angle up in a table of reflectivity by angle.  The table has an
/// entry at least, and a value for each angle.
pub fn calculate_rcs(angle: Fixed, rcs_angles: &Vec<Fixed>, rcs_values: &Vec<Fixed>) -> (refl_pwr:
    Fixed)
    requires
        rcs_angles@.len() > 0,
        rcs_angles@.len() == rcs_values@.len(),
    ensures
        refl_pwr == reflectivity(angle, rcs_angles@, rcs_values@),
{
    let n: usize = rcs_angles.len();
    let mut i: usize = 0;
    while i < n
        invariant
            n == rcs_angles@.len(),
            n == rcs_values@.len(),
            i <= n,
            first_entry(angle, rcs_angles@, 0) == first_entry(angle, rcs_angles@, i as int),
        decreases n - i,
    {
        if rcs_angles[i].same(angle) {
            return rcs_values[i];
        }
        i = i + 1;
    }
    let mut j: usize = 0;
    while j < n - 1
        invariant
            n == rcs_angles@.len(),
            n == rcs_values@.len(),
            n > 0,
            j <= n - 1,
            first_entry(angle, rcs_angles@, 0) == n,
            first_above(angle, rcs_angles@, 0, n - 1) == first_above(
                angle,
                rcs_angles@,
                j as int,
                n - 1,
            ),
        decreases n - 1 - j,
    {
        if angle.lt(rcs_angles[j]) {
            if j >= 1 {
                return rcs_values[j - 1];
            } else {
                return rcs_values[n - 1];
            }
        }
        j = j + 1;
    }
    rcs_values[n - 1]
}

} // verus!
