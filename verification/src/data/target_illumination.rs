use crate::data::illumination::Illumination;
use vstd::prelude::*;

verus! {

/// The hits that a target has taken and not yet reflected, oldest first.
#[derive(Clone, Debug)]
pub struct TargetIllumination {
    pub illuminations: Vec<Illumination>,
}

impl View for TargetIllumination {
    type V = Seq<Illumination>;

    open spec fn view(&self) -> Seq<Illumination> {
        self.illuminations@
    }
}

impl TargetIllumination {
    /// A target that has taken no hit.
    pub fn new() -> (r: TargetIllumination)
        ensures
            r@ == Seq::<Illumination>::empty(),
    {
        TargetIllumination { illuminations: Vec::new() }
    }
}

} // verus!
