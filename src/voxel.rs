use vstd::prelude::*;

verus! {

/// The material a face is made of.
#[derive(Clone, Copy, Debug, PartialEq, Eq, Structural)]
pub enum Matter {
    Dirt,
    Wood,
}

/// How solid a grid point is.
#[derive(Clone, Copy, Debug, Default, PartialEq, Eq, Structural)]
pub enum Corner {
    /// No geometry; any face that depends on this point is suppressed.
    #[default]
    Air,
    /// A chamfered point: a face with exactly one weak corner becomes a triangle.
    Weak,
    /// A solid point.
    Strong,
}

impl Corner {
    #[inline]
    pub fn strong(&self) -> (r: bool)
        ensures
            r == (*self == Corner::Strong),
    {
        matches!(self, Corner::Strong)
    }

    #[inline]
    pub fn weak(&self) -> (r: bool)
        ensures
            r == (*self == Corner::Weak),
    {
        matches!(self, Corner::Weak)
    }

    #[inline]
    pub fn air(&self) -> (r: bool)
        ensures
            r == (*self == Corner::Air),
    {
        matches!(self, Corner::Air)
    }
}

/// One cell of the grid, anchored at its lowest corner.
#[derive(Clone, Copy, Debug, PartialEq, Eq, Structural)]
pub struct Voxel {
    /// Some if the face facing the x direction is filled
    pub x_side: Option<Matter>,
    /// Some if the face facing the y direction is filled
    pub y_side: Option<Matter>,
    /// Some if the face facing the z direction is filled
    pub z_side: Option<Matter>,
    /// Some if faces inside the voxel (diagonal faces, cut-off triangles) should be filled
    pub inner: Option<Matter>,
    /// The strength of the cell's own grid point
    pub corner: Corner,
}

impl Voxel {
    pub fn new(
        x_side: Option<Matter>,
        y_side: Option<Matter>,
        z_side: Option<Matter>,
        corner: Corner,
    ) -> (r: Self)
        ensures
            r == (Voxel { x_side, y_side, z_side, inner: None, corner }),
    {
        Self { x_side, y_side, z_side, inner: None, corner }
    }
}

/// Metadata of an edge between grid points.
#[derive(Clone, Copy, Debug)]
pub struct Edge {
    matter: Option<Matter>,
    kind: EdgeKind,
}

/// The direction of an edge, as a step vector from its start point.
#[derive(Clone, Copy, Debug, PartialEq, Eq, Structural)]
pub enum EdgeKind {
    /// 1,0,0
    X,
    /// 0,1,0
    Y,
    /// 0,0,1
    Z,
    /// 1,1,0
    XY,
    /// 1,-1,0
    XYm,
    /// 1,0,1
    XZ,
    /// 1,0,-1
    XZm,
    /// 0,1,1
    YZ,
    /// 0,1,-1
    YZm,
    /// 2,1,0
    XextY,
    /// 1,2,0
    XYext,
    /// 2,-1,0
    XextYm,
    /// 1,-2,0
    XYmext,
    /// 2,0,1
    XextZ,
    /// 1,0,2
    XZext,
    /// 2,0,-1
    XextZm,
    /// 1,0,-2
    XZmext,
    /// 0,2,1
    YextZ,
    /// 0,1,2
    YZext,
    /// 0,2,-1
    YextZm,
    /// 0,1,-2
    YZmext,
    /// 1,1,1
    XYZ,
    /// 1,1,-1
    XYZm,
    /// 1,-1,1
    XYmZ,
    /// 1,-1,-1
    XYmZm,
    /// 2,1,1
    XextYZ,
    /// 1,2,1
    XYextZ,
    /// 1,1,2
    XYZext,
    /// 2,1,-1
    XextYZm,
    /// 1,2,-1
    XYextZm,
    /// 1,1,-2
    XYZmext,
    /// 2,-1,1
    XextYmZ,
    /// 1,-2,1
    XYmextZ,
    /// 1,-1,2
    XYmZext,
    /// 2,-1,-1
    XextYmZm,
    /// 1,-2,-1
    XYmextZm,
    /// 1,-1,-2
    XYmZmext,
}

} // verus!
