use crate::fixed::Fixed;
use vstd::prelude::*;

verus! {

/// A radar cross-section profile: reflectivity by angle, as two lists of
/// equal length with the angles ascending, and the average reflectivity
/// that stands in where the lists give nothing.
#[derive(Clone, Debug)]
pub struct RCS {
    /// Angles, in degrees, ascending.
    pub angles: Vec<Fixed>,
    /// Reflectivity at each angle, in square metres.
    pub values: Vec<Fixed>,
    /// Average reflectivity, in square metres.
    pub avg_rcs: Fixed,
}

/// What a profile holds.
#[verifier::ext_equal]
pub struct RcsModel {
    pub angles: Seq<Fixed>,
    pub values: Seq<Fixed>,
    pub avg_rcs: Fixed,
}

/// Why two lists are refused as a profile.
#[derive(Clone, Copy, Debug, PartialEq, Eq, Structural)]
pub enum ProfileError {
    /// There is no angle at all.
    Empty,
    /// The lists of angles and of values differ in length.
    LengthMismatch,
}

impl View for RCS {
    type V = RcsModel;

    open spec fn view(&self) -> RcsModel {
        RcsModel { angles: self.angles@, values: self.values@, avg_rcs: self.avg_rcs }
    }
}

impl RcsModel {
    /// Whether the lists can be looked up: one value for each angle, and
    /// an angle at least.
    pub open spec fn tabulated(self) -> bool {
        self.angles.len() > 0 && self.angles.len() == self.values.len()
    }
}

impl RCS {
    /// A profile from its lists.  The lists are refused when there is no
    /// angle, and otherwise when they differ in length.
    pub fn new(angles: Vec<Fixed>, values: Vec<Fixed>, avg_rcs: Fixed) -> (r: Result<
        RCS,
        ProfileError,
    >)
        ensures
            angles@.len() == 0 ==> r == Err::<RCS, ProfileError>(ProfileError::Empty),
            angles@.len() > 0 && angles@.len() != values@.len() ==> r == Err::<RCS, ProfileError>(
                ProfileError::LengthMismatch,
            ),
            angles@.len() > 0 && angles@.len() == values@.len() ==> r is Ok && r->Ok_0@
                == (RcsModel { angles: angles@, values: values@, avg_rcs }),
    {
        if angles.len() == 0 {
            Err(ProfileError::Empty)
        } else if angles.len() != values.len() {
            Err(ProfileError::LengthMismatch)
        } else {
            Ok(RCS { angles, values, avg_rcs })
        }
    }

    /// A profile with no list: the same reflectivity at every angle.
    pub fn uniform(avg_rcs: Fixed) -> (r: RCS)
        ensures
            r@ == (RcsModel {
                angles: Seq::<Fixed>::empty(),
                values: Seq::<Fixed>::empty(),
                avg_rcs,
            }),
    {
        RCS { angles: Vec::new(), values: Vec::new(), avg_rcs }
    }

    /// Whether the lists can be looked up.
    pub fn is_tabulated(&self) -> (r: bool)
        ensures
            r == self@.tabulated(),
    {
        self.angles.len() > 0 && self.angles.len() == self.values.len()
    }
}

} // verus!
