use vstd::prelude::*;

verus! {

/// The fixed set of kernel footprints a sheet can be cut into.
#[derive(Clone, Copy, Debug, PartialEq, Eq, Structural)]
pub enum KernelShape {
    ThreeBySix,
    SixByThree,
}

impl KernelShape {
    /// Kernel width in pixels.
    pub open spec fn spec_width(self) -> nat {
        match self {
            KernelShape::ThreeBySix => 3,
            KernelShape::SixByThree => 6,
        }
    }

    /// Kernel height in pixels.
    pub open spec fn spec_height(self) -> nat {
        match self {
            KernelShape::ThreeBySix => 6,
            KernelShape::SixByThree => 3,
        }
    }

    pub fn width(self) -> (r: usize)
        ensures
            r == self.spec_width(),
    {
        match self {
            KernelShape::ThreeBySix => 3,
            KernelShape::SixByThree => 6,
        }
    }

    pub fn height(self) -> (r: usize)
        ensures
            r == self.spec_height(),
    {
        match self {
            KernelShape::ThreeBySix => 6,
            KernelShape::SixByThree => 3,
        }
    }

    /// Human-readable name of the shape, as "width x height".
    pub fn label(self) -> (r: &'static str)
        ensures
            self is ThreeBySix ==> r@ == "3 x 6"@,
            self is SixByThree ==> r@ == "6 x 3"@,
    {
        match self {
            KernelShape::ThreeBySix => "3 x 6",
            KernelShape::SixByThree => "6 x 3",
        }
    }
}

} // verus!
