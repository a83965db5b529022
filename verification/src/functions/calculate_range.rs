use crate::data::Position;
use crate::fixed::Fixed;
use vstd::prelude::*;

verus! {

/// Distance between two positions in the horizontal plane:
/// `sqrt((x1 - x2)² + (y1 - y2)²)`.  Height plays no part.
pub open spec fn range_between(pos1: Position, pos2: Position) -> Fixed {
    let across = pos1.x.spec_sub(pos2.x);
    let along = pos1.y.spec_sub(pos2.y);
    across.spec_mul(across).spec_add(along.spec_mul(along)).spec_sqrt()
}

/// The range between two positions, in metres.
pub fn calculate_range(pos1: &Position, pos2: &Position) -> (range: Fixed)
    ensures
        range == range_between(*pos1, *pos2),
{
    let across: Fixed = pos1.x.sub(pos2.x);
    let along: Fixed = pos1.y.sub(pos2.y);
    across.mul(across).add(along.mul(along)).sqrt()
}

} // verus!
