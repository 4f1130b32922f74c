use vstd::prelude::*;

use bevy::utils::HashMap;

use crate::pos::Pos;
use crate::voxel::{Corner, Edge, Voxel};

verus! {

/// The voxel cells of a chunk, keyed by grid position; held in bevy's `HashMap` (hashbrown
/// with a fixed aHash hasher) under the coordinates as a tuple.
#[verifier::external_body]
pub struct VoxelMap {
    inner: HashMap<(i8, i8, i8), Voxel>,
}

/// The cells that a voxel map holds.
pub uninterp spec fn voxel_map_contents(m: VoxelMap) -> Map<Pos, Voxel>;

/// The map of a chunk without cells.
pub open spec fn no_cells() -> Map<Pos, Voxel> {
    Map::empty()
}

/// `s` lists every cell of `m` exactly once, in some order.
pub open spec fn is_listing(s: Seq<(Pos, Voxel)>, m: Map<Pos, Voxel>) -> bool {
    &&& forall|i: int, j: int| 0 <= i < j < s.len() ==> #[trigger] s[i].0 != #[trigger] s[j].0
    &&& forall|i: int|
        0 <= i < s.len() ==> m.contains_key(#[trigger] s[i].0) && m[s[i].0] == s[i].1
    &&& forall|p: Pos| #[trigger]
        m.contains_key(p) ==> exists|i: int| 0 <= i < s.len() && #[trigger] s[i].0 == p
}

impl VoxelMap {
    /// Relies on `HashMap::default` (hashbrown, through bevy's alias): a new map is empty.
    #[verifier::external_body]
    pub(crate) fn new() -> (r: Self)
        ensures
            voxel_map_contents(r) == no_cells(),
    {
        VoxelMap { inner: HashMap::default() }
    }

    /// Relies on `HashMap::insert`: the key maps to the new value, every other key is kept.
    #[verifier::external_body]
    pub(crate) fn insert(&mut self, pos: Pos, voxel: Voxel)
        ensures
            voxel_map_contents(*final(self)) == voxel_map_contents(*old(self)).insert(pos, voxel),
    {
        self.inner.insert((pos.x, pos.y, pos.z), voxel);
    }

    /// Relies on `HashMap::get`: the value stored under the key, if any.
    #[verifier::external_body]
    pub(crate) fn get(&self, pos: &Pos) -> (r: Option<Voxel>)
        ensures
            voxel_map_contents(*self).contains_key(*pos) ==> r == Some(
                voxel_map_contents(*self)[*pos],
            ),
            !voxel_map_contents(*self).contains_key(*pos) ==> r.is_none(),
    {
        self.inner.get(&(pos.x, pos.y, pos.z)).copied()
    }

    /// Relies on `HashMap::iter`: each entry once, in an order that the map chooses.
    #[verifier::external_body]
    pub(crate) fn entries(&self) -> (r: Vec<(Pos, Voxel)>)
        ensures
            is_listing(r@, voxel_map_contents(*self)),
    {
        self.inner.iter().map(|(k, v)| (Pos::new(k.0, k.1, k.2), *v)).collect()
    }
}

/// A position whose cell cannot be spanned within the coordinate range.
#[derive(Clone, Copy, Debug, PartialEq, Eq, Structural)]
pub enum ChunkError {
    CoordinateOutOfRange,
}

/// A sparse region of the voxel grid: the input of surface extraction.
pub struct Chunk {
    voxels: VoxelMap,
    /// Edge metadata per position, each position at most once; reserved, nothing fills it
    /// yet.
    edges: Vec<(Pos, Vec<Edge>)>,
}

/// The map that `cells` describes, a later cell replacing an earlier one at the same position.
pub open spec fn cells_map(cells: Seq<(Pos, Voxel)>) -> Map<Pos, Voxel>
    decreases cells.len(),
{
    if cells.len() == 0 {
        Map::empty()
    } else {
        cells_map(cells.drop_last()).insert(cells.last().0, cells.last().1)
    }
}

/// The strength of the grid point `p`: a position without a stored cell is air.
pub open spec fn corner_at(m: Map<Pos, Voxel>, p: Pos) -> Corner {
    if m.contains_key(p) {
        m[p].corner
    } else {
        Corner::Air
    }
}

impl Chunk {
    /// The cells of the chunk, by position.
    pub closed spec fn voxel_map(&self) -> Map<Pos, Voxel> {
        voxel_map_contents(self.voxels)
    }

    /// No position has two entries of edge metadata.
    pub closed spec fn edge_positions_unique(&self) -> bool {
        forall|i: int, j: int|
            0 <= i < j < self.edges@.len() ==> #[trigger] self.edges@[i].0 != #[trigger] self.edges@[j].0
    }

    /// Every stored cell spans a cube whose corners are representable, and edge metadata is
    /// keyed by position.
    pub open spec fn wf(&self) -> bool {
        &&& forall|p: Pos| #[trigger] self.voxel_map().contains_key(p) ==> p.spans_cell()
        &&& self.edge_positions_unique()
    }

    /// An empty chunk: every position is air.
    pub fn new() -> (r: Self)
        ensures
            r.wf(),
            r.voxel_map() == no_cells(),
    {
        Chunk { voxels: VoxelMap::new(), edges: Vec::new() }
    }

    /// Stores `voxel` at `pos`, replacing what was there; refuses a position at the top of the
    /// coordinate range and then leaves the chunk unchanged.
    pub fn insert(&mut self, pos: Pos, voxel: Voxel) -> (r: Result<(), ChunkError>)
        requires
            old(self).wf(),
        ensures
            final(self).wf(),
            r.is_ok() <==> pos.spans_cell(),
            r.is_ok() ==> final(self).voxel_map() == old(self).voxel_map().insert(pos, voxel),
            r.is_err() ==> final(self).voxel_map() == old(self).voxel_map(),
    {
        if pos.x < i8::MAX && pos.y < i8::MAX && pos.z < i8::MAX {
            self.voxels.insert(pos, voxel);
            assert forall|p: Pos| #[trigger] self.voxel_map().contains_key(p) implies p.spans_cell() by {
                if p != pos {
                    assert(old(self).voxel_map().contains_key(p));
                }
            }
            Ok(())
        } else {
            Err(ChunkError::CoordinateOutOfRange)
        }
    }

    /// Builds a chunk from a list of cells; a later cell at the same position wins. Fails when
    /// any position lies at the top of the coordinate range.
    pub fn from_cells(cells: Vec<(Pos, Voxel)>) -> (r: Result<Chunk, ChunkError>)
        ensures
            r.is_ok() <==> forall|i: int| 0 <= i < cells@.len() ==> (#[trigger] cells@[i]).0.spans_cell(),
            r matches Ok(c) ==> c.wf() && c.voxel_map() == cells_map(cells@),
    {
        let mut chunk = Chunk::new();
        let mut i: usize = 0;
        while i < cells.len()
            invariant
                i <= cells@.len(),
                chunk.wf(),
                chunk.voxel_map() == cells_map(cells@.take(i as int)),
                forall|j: int| 0 <= j < i ==> (#[trigger] cells@[j]).0.spans_cell(),
            decreases cells@.len() - i,
        {
            let (pos, voxel) = cells[i];
            let res = chunk.insert(pos, voxel);
            if res.is_err() {
                return Err(ChunkError::CoordinateOutOfRange);
            }
            assert(cells@.take(i + 1).drop_last() =~= cells@.take(i as int));
            i = i + 1;
        }
        assert(cells@.take(cells@.len() as int) =~= cells@);
        Ok(chunk)
    }

    /// The cell stored at `pos`, if any.
    pub fn get_voxel(&self, pos: &Pos) -> (r: Option<Voxel>)
        ensures
            self.voxel_map().contains_key(*pos) ==> r == Some(self.voxel_map()[*pos]),
            !self.voxel_map().contains_key(*pos) ==> r.is_none(),
    {
        self.voxels.get(pos)
    }

    /// Every stored cell once, in an unspecified order.
    pub fn cells(&self) -> (r: Vec<(Pos, Voxel)>)
        ensures
            is_listing(r@, self.voxel_map()),
    {
        self.voxels.entries()
    }

    /// The strength of the grid point `pos`; air where no cell is stored.
    pub fn get_voxel_corner(&self, pos: &Pos) -> (r: Corner)
        ensures
            r == corner_at(self.voxel_map(), *pos),
    {
        match self.voxels.get(pos) {
            Some(v) => v.corner,
            None => Corner::Air,
        }
    }

    /// The strengths and positions of the eight corners of the cell at `o`, whose own
    /// strength is `o_corner`.
    pub fn get_voxel_corner_info(&self, o: Pos, o_corner: Corner) -> (r: VoxelCornerInfo)
        requires
            o.spans_cell(),
        ensures
            r == corner_info_of(self.voxel_map(), o, o_corner),
    {
        let x = o.plus_x();
        let y = o.plus_y();
        let z = o.plus_z();
        let xy = o.plus_xy();
        let xz = o.plus_xz();
        let yz = o.plus_yz();
        let xyz = o.plus_xyz();

        let cor = Corners {
            o: o_corner,
            x: self.get_voxel_corner(&x),
            y: self.get_voxel_corner(&y),
            z: self.get_voxel_corner(&z),
            xy: self.get_voxel_corner(&xy),
            xz: self.get_voxel_corner(&xz),
            yz: self.get_voxel_corner(&yz),
            xyz: self.get_voxel_corner(&xyz),
        };
        let pos = Corners { o, x, y, z, xy, xz, yz, xyz };
        VoxelCornerInfo { cor, pos }
    }
}

/// One value per corner of the cube spanned by a cell: its own point `o` and the points one
/// step along each combination of axes.
#[derive(Clone, Copy, Debug)]
pub struct Corners<T> {
    pub o: T,
    pub x: T,
    pub y: T,
    pub z: T,
    pub xy: T,
    pub xz: T,
    pub yz: T,
    pub xyz: T,
}

/// The corners of the cube spanned by a cell: their strengths and their positions.
#[derive(Clone, Copy, Debug)]
pub struct VoxelCornerInfo {
    pub cor: Corners<Corner>,
    pub pos: Corners<Pos>,
}

/// The positions of the cube spanned from `o`.
pub open spec fn cube_of(o: Pos) -> Corners<Pos> {
    Corners {
        o,
        x: o.shifted(1, 0, 0),
        y: o.shifted(0, 1, 0),
        z: o.shifted(0, 0, 1),
        xy: o.shifted(1, 1, 0),
        xz: o.shifted(1, 0, 1),
        yz: o.shifted(0, 1, 1),
        xyz: o.shifted(1, 1, 1),
    }
}

/// What the resolver reports for the cell at `o` with strength `o_corner` in the map `m`.
pub open spec fn corner_info_of(m: Map<Pos, Voxel>, o: Pos, o_corner: Corner) -> VoxelCornerInfo {
    let pos = cube_of(o);
    VoxelCornerInfo {
        cor: Corners {
            o: o_corner,
            x: corner_at(m, pos.x),
            y: corner_at(m, pos.y),
            z: corner_at(m, pos.z),
            xy: corner_at(m, pos.xy),
            xz: corner_at(m, pos.xz),
            yz: corner_at(m, pos.yz),
            xyz: corner_at(m, pos.xyz),
        },
        pos,
    }
}

/// The geometry of one face of a cell.
#[derive(Clone, Copy, Debug, PartialEq, Eq, Structural)]
pub enum Side {
    /// No geometry.
    Empty,
    Triag(Pos, Pos, Pos),
    Quad(Pos, Pos, Pos, Pos),
}

/// The geometry inside a cell, cutting across it.
#[derive(Clone, Copy, Debug)]
pub enum InnerSide {
    /// No geometry.
    Empty,
    Triag(Pos, Pos, Pos),
    DoubleTriag { p1: Pos, crease: (Pos, Pos), p2: Pos },
}

/// The face bounded by the corners `o`, `first`, `diag`, `second` (in winding order), with
/// their strengths: a quad when all four are strong, the triangle of the other three when
/// exactly one is weak and the rest strong, and nothing otherwise.
pub open spec fn face(
    o: Corner,
    first: Corner,
    diag: Corner,
    second: Corner,
    po: Pos,
    pf: Pos,
    pd: Pos,
    ps: Pos,
) -> Side {
    let s = Corner::Strong;
    let w = Corner::Weak;
    if o == s && first == s && diag == s && second == s {
        Side::Quad(po, pf, pd, ps)
    } else if o == w && first == s && diag == s && second == s {
        Side::Triag(pf, pd, ps)
    } else if o == s && first == w && diag == s && second == s {
        Side::Triag(po, pd, ps)
    } else if o == s && first == s && diag == w && second == s {
        Side::Triag(po, pf, ps)
    } else if o == s && first == s && diag == s && second == w {
        Side::Triag(po, pf, pd)
    } else {
        Side::Empty
    }
}

fn classify_face(
    o: Corner,
    first: Corner,
    diag: Corner,
    second: Corner,
    po: Pos,
    pf: Pos,
    pd: Pos,
    ps: Pos,
) -> (r: Side)
    ensures
        r == face(o, first, diag, second, po, pf, pd, ps),
{
    match (o, first, diag, second) {
        (Corner::Strong, Corner::Strong, Corner::Strong, Corner::Strong) => Side::Quad(
            po,
            pf,
            pd,
            ps,
        ),
        (Corner::Weak, Corner::Strong, Corner::Strong, Corner::Strong) => Side::Triag(pf, pd, ps),
        (Corner::Strong, Corner::Weak, Corner::Strong, Corner::Strong) => Side::Triag(po, pd, ps),
        (Corner::Strong, Corner::Strong, Corner::Weak, Corner::Strong) => Side::Triag(po, pf, ps),
        (Corner::Strong, Corner::Strong, Corner::Strong, Corner::Weak) => Side::Triag(po, pf, pd),
        _ => Side::Empty,
    }
}

/// Strong everywhere but at the corners marked `true`, which are weak.
pub open spec fn weak_exactly_at(
    c: Corners<Corner>,
    o: bool,
    x: bool,
    y: bool,
    z: bool,
    xy: bool,
    xz: bool,
    yz: bool,
    xyz: bool,
) -> bool {
    let k = |weak: bool|
        if weak {
            Corner::Weak
        } else {
            Corner::Strong
        };
    c == (Corners {
        o: k(o),
        x: k(x),
        y: k(y),
        z: k(z),
        xy: k(xy),
        xz: k(xz),
        yz: k(yz),
        xyz: k(xyz),
    })
}

impl VoxelCornerInfo {
    /// The face of the cell that faces the x direction: corners o, y, yz, z.
    pub open spec fn x_face(&self) -> Side {
        face(
            self.cor.o,
            self.cor.y,
            self.cor.yz,
            self.cor.z,
            self.pos.o,
            self.pos.y,
            self.pos.yz,
            self.pos.z,
        )
    }

    /// The face of the cell that faces the y direction: corners o, x, xz, z.
    pub open spec fn y_face(&self) -> Side {
        face(
            self.cor.o,
            self.cor.x,
            self.cor.xz,
            self.cor.z,
            self.pos.o,
            self.pos.x,
            self.pos.xz,
            self.pos.z,
        )
    }

    /// The face of the cell that faces the z direction: corners o, x, xy, y.
    pub open spec fn z_face(&self) -> Side {
        face(
            self.cor.o,
            self.cor.x,
            self.cor.xy,
            self.cor.y,
            self.pos.o,
            self.pos.x,
            self.pos.xy,
            self.pos.y,
        )
    }

    /// The diagonal face inside the cell: the triangle through the three corners next to the
    /// single weak corner, cutting that corner off. Only some of the cubes with a single weak
    /// corner have one so far: weak at o, z, xz or x; every other pattern has none.
    pub open spec fn inner_face(&self) -> InnerSide {
        let c = self.cor;
        let p = self.pos;
        if weak_exactly_at(c, true, false, false, false, false, false, false, false) {
            InnerSide::Triag(p.x, p.y, p.z)
        } else if weak_exactly_at(c, false, false, false, true, false, false, false, false) {
            InnerSide::Triag(p.o, p.xz, p.yz)
        } else if weak_exactly_at(c, false, false, false, false, false, true, false, false) {
            InnerSide::Triag(p.x, p.xyz, p.z)
        } else if weak_exactly_at(c, false, true, false, false, false, false, false, false) {
            InnerSide::Triag(p.o, p.xy, p.xz)
        } else {
            InnerSide::Empty
        }
    }

    pub fn x_side(&self) -> (r: Side)
        ensures
            r == self.x_face(),
    {
        let VoxelCornerInfo { pos, cor } = self;
        classify_face(cor.o, cor.y, cor.yz, cor.z, pos.o, pos.y, pos.yz, pos.z)
    }

    pub fn y_side(&self) -> (r: Side)
        ensures
            r == self.y_face(),
    {
        let VoxelCornerInfo { pos, cor } = self;
        classify_face(cor.o, cor.x, cor.xz, cor.z, pos.o, pos.x, pos.xz, pos.z)
    }

    pub fn z_side(&self) -> (r: Side)
        ensures
            r == self.z_face(),
    {
        let VoxelCornerInfo { pos, cor } = self;
        classify_face(cor.o, cor.x, cor.xy, cor.y, pos.o, pos.x, pos.xy, pos.y)
    }

    pub fn inner_side(&self) -> (r: InnerSide)
        ensures
            r == self.inner_face(),
    {
        let VoxelCornerInfo { pos, cor } = self;
        match (cor.o, cor.x, cor.y, cor.z, cor.xy, cor.xz, cor.yz, cor.xyz) {
            (
                Corner::Weak,
                Corner::Strong,
                Corner::Strong,
                Corner::Strong,
                Corner::Strong,
                Corner::Strong,
                Corner::Strong,
                Corner::Strong,
            ) => InnerSide::Triag(pos.x, pos.y, pos.z),
            (
                Corner::Strong,
                Corner::Strong,
                Corner::Strong,
                Corner::Weak,
                Corner::Strong,
                Corner::Strong,
                Corner::Strong,
                Corner::Strong,
            ) => InnerSide::Triag(pos.o, pos.xz, pos.yz),
            (
                Corner::Strong,
                Corner::Strong,
                Corner::Strong,
                Corner::Strong,
                Corner::Strong,
                Corner::Weak,
                Corner::Strong,
                Corner::Strong,
            ) => InnerSide::Triag(pos.x, pos.xyz, pos.z),
            (
                Corner::Strong,
                Corner::Weak,
                Corner::Strong,
                Corner::Strong,
                Corner::Strong,
                Corner::Strong,
                Corner::Strong,
                Corner::Strong,
            ) => InnerSide::Triag(pos.o, pos.xy, pos.xz),
            _ => InnerSide::Empty,
        }
    }
}

/// How many of the four strengths are `c`.
pub open spec fn count_of(c: Corner, a: Corner, b: Corner, d: Corner, e: Corner) -> int {
    (if a == c { 1int } else { 0int }) + (if b == c { 1int } else { 0int }) + (if d == c {
        1int
    } else {
        0int
    }) + (if e == c { 1int } else { 0int })
}

/// The face classifier is total over the four strengths: a quad exactly when all four are
/// strong, a triangle exactly when one is weak and three are strong, and no geometry for every
/// other pattern, in particular for any pattern with an air corner or with two or more weak
/// corners.
pub proof fn lemma_face_classification(
    o: Corner,
    first: Corner,
    diag: Corner,
    second: Corner,
    po: Pos,
    pf: Pos,
    pd: Pos,
    ps: Pos,
)
    ensures
        (face(o, first, diag, second, po, pf, pd, ps) is Quad) <==> count_of(
            Corner::Strong,
            o,
            first,
            diag,
            second,
        ) == 4,
        (face(o, first, diag, second, po, pf, pd, ps) is Triag) <==> (count_of(
            Corner::Weak,
            o,
            first,
            diag,
            second,
        ) == 1 && count_of(Corner::Strong, o, first, diag, second) == 3),
        (face(o, first, diag, second, po, pf, pd, ps) is Empty) <==> !(count_of(
            Corner::Strong,
            o,
            first,
            diag,
            second,
        ) == 4 || (count_of(Corner::Weak, o, first, diag, second) == 1 && count_of(
            Corner::Strong,
            o,
            first,
            diag,
            second,
        ) == 3)),
        count_of(Corner::Air, o, first, diag, second) > 0 ==> face(
            o,
            first,
            diag,
            second,
            po,
            pf,
            pd,
            ps,
        ) == Side::Empty,
        count_of(Corner::Weak, o, first, diag, second) >= 2 ==> face(
            o,
            first,
            diag,
            second,
            po,
            pf,
            pd,
            ps,
        ) == Side::Empty,
{
}

/// A position without a stored cell is reported as air, and a face that needs such a corner
/// besides the cell's own has no geometry.
pub proof fn lemma_absent_corner_is_air(m: Map<Pos, Voxel>, o: Pos, o_corner: Corner, p: Pos)
    ensures
        !m.contains_key(p) ==> corner_at(m, p) == Corner::Air,
        !m.contains_key(cube_of(o).y) || !m.contains_key(cube_of(o).yz) || !m.contains_key(
            cube_of(o).z,
        ) ==> corner_info_of(m, o, o_corner).x_face() == Side::Empty,
        !m.contains_key(cube_of(o).x) || !m.contains_key(cube_of(o).xz) || !m.contains_key(
            cube_of(o).z,
        ) ==> corner_info_of(m, o, o_corner).y_face() == Side::Empty,
        !m.contains_key(cube_of(o).x) || !m.contains_key(cube_of(o).xy) || !m.contains_key(
            cube_of(o).y,
        ) ==> corner_info_of(m, o, o_corner).z_face() == Side::Empty,
{
}

/// `p` and `q` differ in exactly two coordinates: they are opposite corners of a face of a
/// cube, not joined by an edge of it.
pub open spec fn face_diagonal(p: Pos, q: Pos) -> bool {
    (if p.x != q.x { 1int } else { 0int }) + (if p.y != q.y { 1int } else { 0int }) + (if p.z
        != q.z {
        1int
    } else {
        0int
    }) == 2
}

/// An inner face cuts a single corner off the cube: its three corners are pairwise
/// non-adjacent corners of the cube, all next to the weak corner.
pub proof fn lemma_inner_face_cuts_a_corner(m: Map<Pos, Voxel>, o: Pos, o_corner: Corner)
    requires
        o.spans_cell(),
    ensures
        corner_info_of(m, o, o_corner).inner_face() matches InnerSide::Triag(a, b, c) ==> {
            &&& face_diagonal(a, b)
            &&& face_diagonal(b, c)
            &&& face_diagonal(a, c)
        },
{
}

} // verus!
