//! Axial coordinates on a pointy-topped hexagonal grid.

use std::ops::{Add, Sub};
use vstd::math::{abs, max3};
use vstd::prelude::*;
use vstd::std_specs::ops::{AddSpecImpl, SubSpecImpl};

verus! {

/// An axial coordinate pair `(q, r)`.
///
/// The cube form of the same point is `x = q`, `z = r`, `y = -q - r`.
#[derive(Copy, Clone, PartialEq, Eq, Hash, Debug, Structural)]
pub struct PointAxial(pub isize, pub isize);

impl View for PointAxial {
    type V = (int, int);

    open spec fn view(&self) -> (int, int) {
        (self.0 as int, self.1 as int)
    }
}

/// The largest magnitude among the three cube components `x = q`,
/// `y = -q - r` and `z = r` of the axial point `p`.
pub open spec fn cube_radius(p: (int, int)) -> int {
    max3(abs(p.0) as int, abs(-p.0 - p.1) as int, abs(p.1) as int)
}

/// Whether `v` can be stored in an `isize`.
pub open spec fn fits_isize(v: int) -> bool {
    isize::MIN <= v <= isize::MAX
}

impl PointAxial {
    /// Adds `rhs` to this point in place.
    pub fn add_assign(&mut self, rhs: PointAxial)
        requires
            fits_isize(old(self).0 + rhs.0),
            fits_isize(old(self).1 + rhs.1),
        ensures
            final(self)@ == (old(self)@.0 + rhs@.0, old(self)@.1 + rhs@.1),
    {
        self.0 = self.0 + rhs.0;
        self.1 = self.1 + rhs.1;
    }

    /// Subtracts `rhs` from this point in place.
    pub fn sub_assign(&mut self, rhs: PointAxial)
        requires
            fits_isize(old(self).0 - rhs.0),
            fits_isize(old(self).1 - rhs.1),
        ensures
            final(self)@ == (old(self)@.0 - rhs@.0, old(self)@.1 - rhs@.1),
    {
        self.0 = self.0 - rhs.0;
        self.1 = self.1 - rhs.1;
    }
}

impl AddSpecImpl for PointAxial {
    open spec fn obeys_add_spec() -> bool {
        true
    }

    open spec fn add_req(self, rhs: PointAxial) -> bool {
        fits_isize(self.0 + rhs.0) && fits_isize(self.1 + rhs.1)
    }

    open spec fn add_spec(self, rhs: PointAxial) -> PointAxial {
        PointAxial((self.0 + rhs.0) as isize, (self.1 + rhs.1) as isize)
    }
}

impl Add for PointAxial {
    type Output = PointAxial;

    fn add(self, rhs: PointAxial) -> PointAxial {
        PointAxial(self.0 + rhs.0, self.1 + rhs.1)
    }
}

impl SubSpecImpl for PointAxial {
    open spec fn obeys_sub_spec() -> bool {
        true
    }

    open spec fn sub_req(self, rhs: PointAxial) -> bool {
        fits_isize(self.0 - rhs.0) && fits_isize(self.1 - rhs.1)
    }

    open spec fn sub_spec(self, rhs: PointAxial) -> PointAxial {
        PointAxial((self.0 - rhs.0) as isize, (self.1 - rhs.1) as isize)
    }
}

impl Sub for PointAxial {
    type Output = PointAxial;

    fn sub(self, rhs: PointAxial) -> PointAxial {
        PointAxial(self.0 - rhs.0, self.1 - rhs.1)
    }
}

} // verus!
