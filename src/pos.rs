use vstd::prelude::*;

verus! {

/// A point of the voxel grid, one unit per grid step.
#[derive(Clone, Copy, Debug, Default, PartialEq, Eq, Structural, Hash, PartialOrd, Ord)]
pub struct Pos {
    pub x: i8,
    pub y: i8,
    pub z: i8,
}

impl Pos {
    /// The point moved by the given steps along each axis, as mathematical integers cast back
    /// to the coordinate type.
    pub open spec fn shifted(self, dx: int, dy: int, dz: int) -> Pos {
        Pos { x: (self.x + dx) as i8, y: (self.y + dy) as i8, z: (self.z + dz) as i8 }
    }

    /// Every coordinate can take one more step in the positive direction, so the far corner
    /// of the cell spanned from this point is representable.
    pub open spec fn spans_cell(self) -> bool {
        self.x < i8::MAX && self.y < i8::MAX && self.z < i8::MAX
    }

    pub fn new(x: i8, y: i8, z: i8) -> (r: Self)
        ensures
            r == (Pos { x, y, z }),
    {
        Pos { x, y, z }
    }

    pub fn plus_x(&self) -> (r: Self)
        requires
            self.x < i8::MAX,
        ensures
            r == self.shifted(1, 0, 0),
    {
        Pos { x: self.x + 1, y: self.y, z: self.z }
    }

    pub fn plus_y(&self) -> (r: Self)
        requires
            self.y < i8::MAX,
        ensures
            r == self.shifted(0, 1, 0),
    {
        Pos { x: self.x, y: self.y + 1, z: self.z }
    }

    pub fn plus_z(&self) -> (r: Self)
        requires
            self.z < i8::MAX,
        ensures
            r == self.shifted(0, 0, 1),
    {
        Pos { x: self.x, y: self.y, z: self.z + 1 }
    }

    pub fn plus_xy(&self) -> (r: Self)
        requires
            self.x < i8::MAX,
            self.y < i8::MAX,
        ensures
            r == self.shifted(1, 1, 0),
    {
        Pos { x: self.x + 1, y: self.y + 1, z: self.z }
    }

    pub fn plus_xz(&self) -> (r: Self)
        requires
            self.x < i8::MAX,
            self.z < i8::MAX,
        ensures
            r == self.shifted(1, 0, 1),
    {
        Pos { x: self.x + 1, y: self.y, z: self.z + 1 }
    }

    pub fn plus_yz(&self) -> (r: Self)
        requires
            self.y < i8::MAX,
            self.z < i8::MAX,
        ensures
            r == self.shifted(0, 1, 1),
    {
        Pos { x: self.x, y: self.y + 1, z: self.z + 1 }
    }

    pub fn plus_xyz(&self) -> (r: Self)
        requires
            self.spans_cell(),
        ensures
            r == self.shifted(1, 1, 1),
    {
        Pos { x: self.x + 1, y: self.y + 1, z: self.z + 1 }
    }
}

/// The component-wise sum stays within the coordinate range.
pub open spec fn sum_in_range(a: Pos, b: Pos) -> bool {
    i8::MIN <= a.x + b.x <= i8::MAX && i8::MIN <= a.y + b.y <= i8::MAX && i8::MIN <= a.z + b.z
        <= i8::MAX
}

/// The component-wise difference stays within the coordinate range.
pub open spec fn difference_in_range(a: Pos, b: Pos) -> bool {
    i8::MIN <= a.x - b.x <= i8::MAX && i8::MIN <= a.y - b.y <= i8::MAX && i8::MIN <= a.z - b.z
        <= i8::MAX
}

/// The component-wise sum, where it is in range.
pub open spec fn sum(a: Pos, b: Pos) -> Pos {
    Pos { x: (a.x + b.x) as i8, y: (a.y + b.y) as i8, z: (a.z + b.z) as i8 }
}

/// The component-wise difference, where it is in range.
pub open spec fn difference(a: Pos, b: Pos) -> Pos {
    Pos { x: (a.x - b.x) as i8, y: (a.y - b.y) as i8, z: (a.z - b.z) as i8 }
}

impl vstd::std_specs::ops::AddSpecImpl for Pos {
    open spec fn obeys_add_spec() -> bool {
        true
    }

    open spec fn add_req(self, rhs: Pos) -> bool {
        sum_in_range(self, rhs)
    }

    open spec fn add_spec(self, rhs: Pos) -> Pos {
        sum(self, rhs)
    }
}

/// Component-wise sum; a coordinate outside the range of `i8` is not representable, so the
/// sum must stay in range.
impl std::ops::Add for Pos {
    type Output = Self;

    fn add(self, rhs: Self) -> (r: Self) {
        Pos { x: self.x + rhs.x, y: self.y + rhs.y, z: self.z + rhs.z }
    }
}

impl vstd::std_specs::ops::SubSpecImpl for Pos {
    open spec fn obeys_sub_spec() -> bool {
        true
    }

    open spec fn sub_req(self, rhs: Pos) -> bool {
        difference_in_range(self, rhs)
    }

    open spec fn sub_spec(self, rhs: Pos) -> Pos {
        difference(self, rhs)
    }
}

/// Component-wise difference, which must stay in the coordinate range.
impl std::ops::Sub for Pos {
    type Output = Self;

    fn sub(self, rhs: Self) -> (r: Self) {
        Pos { x: self.x - rhs.x, y: self.y - rhs.y, z: self.z - rhs.z }
    }
}

/// Component-wise in-place sum, which must stay in the coordinate range.
impl std::ops::AddAssign for Pos {
    fn add_assign(&mut self, rhs: Self)
        requires
            sum_in_range(*old(self), rhs),
        ensures
            *final(self) == sum(*old(self), rhs),
    {
        self.x = self.x + rhs.x;
        self.y = self.y + rhs.y;
        self.z = self.z + rhs.z;
    }
}

/// Component-wise in-place difference, which must stay in the coordinate range.
impl std::ops::SubAssign for Pos {
    fn sub_assign(&mut self, rhs: Self)
        requires
            difference_in_range(*old(self), rhs),
        ensures
            *final(self) == difference(*old(self), rhs),
    {
        self.x = self.x - rhs.x;
        self.y = self.y - rhs.y;
        self.z = self.z - rhs.z;
    }
}

} // verus!
