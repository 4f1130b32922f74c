use vstd::prelude::*;

use crate::chunk::is_listing;
use crate::ir::{
    cell_quads, cell_triags, concat_map, ir_of_cells, ir_of_map, lemma_concat_map_to_multiset,
    lemma_listings_to_multiset, ChunkIR, QuadIR, TriagIR,
};
use crate::voxel::Voxel;
use crate::pos::Pos;

verus! {

/// A face normal on the grid: the cross product of two edge vectors of a face, not scaled to
/// unit length.
#[derive(Clone, Copy, Debug, PartialEq, Eq, Structural)]
pub struct Normal {
    pub x: i32,
    pub y: i32,
    pub z: i32,
}

/// A texture coordinate on the corners of the unit square.
#[derive(Clone, Copy, Debug, PartialEq, Eq, Structural)]
pub struct Uv {
    pub u: u8,
    pub v: u8,
}

/// One emitted triangle: its corners in winding order, their texture coordinates and the
/// normal shared by the three vertices.
#[derive(Clone, Copy, Debug, PartialEq, Eq, Structural)]
pub struct MeshTriangle {
    pub a: Pos,
    pub b: Pos,
    pub c: Pos,
    pub uv_a: Uv,
    pub uv_b: Uv,
    pub uv_c: Uv,
    pub normal: Normal,
}

/// A triangle list: parallel vertex positions, normals and texture coordinates, and indices in
/// groups of three. Every triangle owns its three vertices.
#[derive(Clone, Debug)]
pub struct MeshBuffer {
    pub positions: Vec<Pos>,
    pub normals: Vec<Normal>,
    pub uvs: Vec<Uv>,
    pub indices: Vec<u32>,
}

/// The largest absolute value of a component of a normal between grid points.
pub const NORMAL_BOUND: i32 = 130050;

pub open spec fn in_bound(n: Normal) -> bool {
    -NORMAL_BOUND <= n.x <= NORMAL_BOUND && -NORMAL_BOUND <= n.y <= NORMAL_BOUND && -NORMAL_BOUND
        <= n.z <= NORMAL_BOUND
}

/// (b - a) × (c - a).
pub open spec fn cross_normal(a: Pos, b: Pos, c: Pos) -> Normal {
    let ux = b.x - a.x;
    let uy = b.y - a.y;
    let uz = b.z - a.z;
    let vx = c.x - a.x;
    let vy = c.y - a.y;
    let vz = c.z - a.z;
    Normal {
        x: (uy * vz - uz * vy) as i32,
        y: (uz * vx - ux * vz) as i32,
        z: (ux * vy - uy * vx) as i32,
    }
}

pub open spec fn is_zero(n: Normal) -> bool {
    n.x == 0 && n.y == 0 && n.z == 0
}

pub open spec fn negated(n: Normal) -> Normal {
    Normal { x: -n.x as i32, y: -n.y as i32, z: -n.z as i32 }
}

pub open spec fn uv(u: u8, v: u8) -> Uv {
    Uv { u, v }
}

pub open spec fn tri(a: Pos, b: Pos, c: Pos, uv_a: Uv, uv_b: Uv, uv_c: Uv, normal: Normal) -> MeshTriangle {
    MeshTriangle { a, b, c, uv_a, uv_b, uv_c, normal }
}

/// The same triangle seen from the other side: b and c swapped, the normal negated.
pub open spec fn mirrored(t: MeshTriangle) -> MeshTriangle {
    MeshTriangle {
        a: t.a,
        b: t.c,
        c: t.b,
        uv_a: t.uv_a,
        uv_b: t.uv_c,
        uv_c: t.uv_b,
        normal: negated(t.normal),
    }
}

/// The triangles of a quad: the halves a-b-c and a-c-d, each followed by its mirror, the
/// texture square laid on a, b, c, d; none when a, b, c span no area.
pub open spec fn quad_triangles(q: QuadIR) -> Seq<MeshTriangle> {
    let n = cross_normal(q.a, q.b, q.c);
    let m = negated(n);
    if is_zero(n) {
        Seq::empty()
    } else {
        seq![
            tri(q.a, q.b, q.c, uv(0, 0), uv(0, 1), uv(1, 1), n),
            tri(q.a, q.c, q.b, uv(0, 0), uv(1, 1), uv(0, 1), m),
            tri(q.a, q.c, q.d, uv(0, 0), uv(1, 1), uv(1, 0), n),
            tri(q.a, q.d, q.c, uv(0, 0), uv(1, 0), uv(1, 1), m),
        ]
    }
}

/// The triangles of a triangle: itself and its mirror; none when it spans no area.
pub open spec fn triag_triangles(t: TriagIR) -> Seq<MeshTriangle> {
    let n = cross_normal(t.a, t.b, t.c);
    let m = negated(n);
    if is_zero(n) {
        Seq::empty()
    } else {
        seq![
            tri(t.a, t.b, t.c, uv(0, 0), uv(0, 1), uv(1, 1), n),
            tri(t.a, t.c, t.b, uv(0, 0), uv(1, 1), uv(0, 1), m),
        ]
    }
}

/// The triangles of a list of quads, quad by quad.
pub open spec fn quads_triangles(quads: Seq<QuadIR>) -> Seq<MeshTriangle> {
    concat_map(quads, |q: QuadIR| quad_triangles(q))
}

/// The triangles of a list of triangles, one after the other.
pub open spec fn triags_triangles(triags: Seq<TriagIR>) -> Seq<MeshTriangle> {
    concat_map(triags, |t: TriagIR| triag_triangles(t))
}

/// The triangles of a Chunk-IR: those of every quad, then those of every triangle.
pub open spec fn mesh_triangles(ir: ChunkIR) -> Seq<MeshTriangle> {
    quads_triangles(ir.quads@) + triags_triangles(ir.triags@)
}

/// `buf` holds exactly the triangles `tris`, in order, each with vertices of its own.
pub open spec fn holds_triangles(buf: MeshBuffer, tris: Seq<MeshTriangle>) -> bool {
    &&& buf.positions@ == concat_map(tris, |t: MeshTriangle| seq![t.a, t.b, t.c])
    &&& buf.normals@ == concat_map(tris, |t: MeshTriangle| seq![t.normal, t.normal, t.normal])
    &&& buf.uvs@ == concat_map(tris, |t: MeshTriangle| seq![t.uv_a, t.uv_b, t.uv_c])
    &&& buf.indices@ == Seq::new(3 * tris.len(), |i: int| i as u32)
}

/// The number of vertices that the mesh of `ir` needs at most.
pub open spec fn vertex_budget(ir: ChunkIR) -> nat {
    12 * ir.quads@.len() + 6 * ir.triags@.len()
}

/// Joining images of equal length `k` gives `k` elements per element.
pub proof fn lemma_concat_map_len<A, B>(s: Seq<A>, f: spec_fn(A) -> Seq<B>, k: nat)
    requires
        forall|x: A| (#[trigger] f(x)).len() == k,
    ensures
        concat_map(s, f).len() == k * s.len(),
    decreases s.len(),
{
    if s.len() > 0 {
        lemma_concat_map_len(s.drop_last(), f, k);
        assert(k * s.len() == k * (s.len() - 1) + k) by (nonlinear_arith);
    }
}

fn mul_small(a: i32, b: i32) -> (r: i32)
    requires
        -255 <= a <= 255,
        -255 <= b <= 255,
    ensures
        r == a * b,
        -65025 <= r <= 65025,
{
    assert(-65025 <= a * b <= 65025) by (nonlinear_arith)
        requires
            -255 <= a <= 255,
            -255 <= b <= 255,
    ;
    a * b
}

/// The normal of the triangle a, b, c: (b - a) × (c - a), zero exactly when the three points
/// lie on one line.
pub fn calculate_triag_normal(a: Pos, b: Pos, c: Pos) -> (r: Normal)
    ensures
        r == cross_normal(a, b, c),
        in_bound(r),
{
    let ux = b.x as i32 - a.x as i32;
    let uy = b.y as i32 - a.y as i32;
    let uz = b.z as i32 - a.z as i32;
    let vx = c.x as i32 - a.x as i32;
    let vy = c.y as i32 - a.y as i32;
    let vz = c.z as i32 - a.z as i32;
    Normal {
        x: mul_small(uy, vz) - mul_small(uz, vy),
        y: mul_small(uz, vx) - mul_small(ux, vz),
        z: mul_small(ux, vy) - mul_small(uy, vx),
    }
}

fn negate(n: Normal) -> (r: Normal)
    requires
        in_bound(n),
    ensures
        r == negated(n),
{
    Normal { x: -n.x, y: -n.y, z: -n.z }
}

fn add_triangle(buf: &mut MeshBuffer, t: MeshTriangle, Ghost(tris): Ghost<Seq<MeshTriangle>>)
    requires
        holds_triangles(*old(buf), tris),
        3 * tris.len() + 3 <= u32::MAX + 1,
    ensures
        holds_triangles(*final(buf), tris.push(t)),
{
    proof {
        lemma_concat_map_len(tris, |t: MeshTriangle| seq![t.a, t.b, t.c], 3);
    }
    let i = buf.positions.len() as u32;
    buf.positions.push(t.a);
    buf.positions.push(t.b);
    buf.positions.push(t.c);
    buf.normals.push(t.normal);
    buf.normals.push(t.normal);
    buf.normals.push(t.normal);
    buf.uvs.push(t.uv_a);
    buf.uvs.push(t.uv_b);
    buf.uvs.push(t.uv_c);
    buf.indices.push(i);
    buf.indices.push(i + 1);
    buf.indices.push(i + 2);
    assert(tris.push(t).drop_last() =~= tris);
    assert(buf.positions@ =~= concat_map(tris.push(t), |t: MeshTriangle| seq![t.a, t.b, t.c]));
    assert(buf.normals@ =~= concat_map(
        tris.push(t),
        |t: MeshTriangle| seq![t.normal, t.normal, t.normal],
    ));
    assert(buf.uvs@ =~= concat_map(tris.push(t), |t: MeshTriangle| seq![t.uv_a, t.uv_b, t.uv_c]));
    assert(buf.indices@ =~= Seq::new(3 * tris.push(t).len(), |i: int| i as u32));
}

impl ChunkIR {
    /// The double-sided triangle mesh of this geometry.
    pub fn construct_mesh(&self) -> (r: MeshBuffer)
        requires
            vertex_budget(*self) <= u32::MAX,
        ensures
            holds_triangles(r, mesh_triangles(*self)),
    {
        let mut buf = MeshBuffer {
            positions: Vec::new(),
            normals: Vec::new(),
            uvs: Vec::new(),
            indices: Vec::new(),
        };
        assert(buf.indices@ =~= Seq::new(0, |i: int| i as u32));
        let mut i: usize = 0;
        while i < self.quads.len()
            invariant
                i <= self.quads@.len(),
                vertex_budget(*self) <= u32::MAX,
                holds_triangles(buf, quads_triangles(self.quads@.take(i as int))),
                quads_triangles(self.quads@.take(i as int)).len() <= 4 * i,
            decreases self.quads@.len() - i,
        {
            let q = self.quads[i];
            let ghost done = quads_triangles(self.quads@.take(i as int));
            assert(self.quads@.take(i + 1).drop_last() =~= self.quads@.take(i as int));
            let n = calculate_triag_normal(q.a, q.b, q.c);
            if !(n.x == 0 && n.y == 0 && n.z == 0) {
                let m = negate(n);
                let a_uv = Uv { u: 0, v: 0 };
                let b_uv = Uv { u: 0, v: 1 };
                let c_uv = Uv { u: 1, v: 1 };
                let d_uv = Uv { u: 1, v: 0 };
                let t0 = MeshTriangle { a: q.a, b: q.b, c: q.c, uv_a: a_uv, uv_b: b_uv, uv_c: c_uv, normal: n };
                let t1 = MeshTriangle { a: q.a, b: q.c, c: q.b, uv_a: a_uv, uv_b: c_uv, uv_c: b_uv, normal: m };
                let t2 = MeshTriangle { a: q.a, b: q.c, c: q.d, uv_a: a_uv, uv_b: c_uv, uv_c: d_uv, normal: n };
                let t3 = MeshTriangle { a: q.a, b: q.d, c: q.c, uv_a: a_uv, uv_b: d_uv, uv_c: c_uv, normal: m };
                add_triangle(&mut buf, t0, Ghost(done));
                add_triangle(&mut buf, t1, Ghost(done.push(t0)));
                add_triangle(&mut buf, t2, Ghost(done.push(t0).push(t1)));
                add_triangle(&mut buf, t3, Ghost(done.push(t0).push(t1).push(t2)));
                assert(done.push(t0).push(t1).push(t2).push(t3) =~= done + quad_triangles(q));
            } else {
                assert(done =~= done + quad_triangles(q));
            }
            assert(self.quads@.take(i + 1).last() == q);
            assert(quads_triangles(self.quads@.take(i + 1)) == done + quad_triangles(q));
            i = i + 1;
        }
        assert(self.quads@.take(self.quads@.len() as int) =~= self.quads@);
        let ghost quad_part = quads_triangles(self.quads@);
        let mut j: usize = 0;
        while j < self.triags.len()
            invariant
                j <= self.triags@.len(),
                vertex_budget(*self) <= u32::MAX,
                quad_part.len() <= 4 * self.quads@.len(),
                holds_triangles(buf, quad_part + triags_triangles(self.triags@.take(j as int))),
                triags_triangles(self.triags@.take(j as int)).len() <= 2 * j,
            decreases self.triags@.len() - j,
        {
            let t = self.triags[j];
            let ghost done = quad_part + triags_triangles(self.triags@.take(j as int));
            assert(self.triags@.take(j + 1).drop_last() =~= self.triags@.take(j as int));
            assert(self.triags@.take(j + 1).last() == t);
            assert(triags_triangles(self.triags@.take(j + 1)) == triags_triangles(self.triags@.take(j as int)) + triag_triangles(t));
            let n = calculate_triag_normal(t.a, t.b, t.c);
            if !(n.x == 0 && n.y == 0 && n.z == 0) {
                let m = negate(n);
                let a_uv = Uv { u: 0, v: 0 };
                let b_uv = Uv { u: 0, v: 1 };
                let c_uv = Uv { u: 1, v: 1 };
                let t0 = MeshTriangle { a: t.a, b: t.b, c: t.c, uv_a: a_uv, uv_b: b_uv, uv_c: c_uv, normal: n };
                let t1 = MeshTriangle { a: t.a, b: t.c, c: t.b, uv_a: a_uv, uv_b: c_uv, uv_c: b_uv, normal: m };
                add_triangle(&mut buf, t0, Ghost(done));
                add_triangle(&mut buf, t1, Ghost(done.push(t0)));
                assert(done.push(t0).push(t1) =~= done + triag_triangles(t));
            } else {
                assert(done =~= done + triag_triangles(t));
            }
            assert(done + triag_triangles(t) =~= quad_part + triags_triangles(
                self.triags@.take(j + 1),
            ));
            j = j + 1;
        }
        assert(self.triags@.take(self.triags@.len() as int) =~= self.triags@);
        buf
    }
}

/// The triangles come in pairs, the second of each pair the mirror of the first.
pub open spec fn in_mirrored_pairs(t: Seq<MeshTriangle>) -> bool {
    &&& t.len() % 2 == 0
    &&& forall|i: int| 0 <= i < t.len() && i % 2 == 0 ==> t[i + 1] == mirrored(#[trigger] t[i])
}

proof fn lemma_mirrored_pairs_append(a: Seq<MeshTriangle>, b: Seq<MeshTriangle>)
    requires
        in_mirrored_pairs(a),
        in_mirrored_pairs(b),
    ensures
        in_mirrored_pairs(a + b),
{
    let ab = a + b;
    assert forall|i: int| 0 <= i < ab.len() && i % 2 == 0 implies ab[i + 1] == mirrored(
        #[trigger] ab[i],
    ) by {
        if i < a.len() {
            assert(ab[i] == a[i]);
            assert(ab[i + 1] == a[i + 1]);
        } else {
            let k = i - a.len();
            assert(ab[i] == b[k]);
            assert(ab[i + 1] == b[k + 1]);
        }
    }
}

proof fn lemma_concat_map_mirrored_pairs<A>(s: Seq<A>, f: spec_fn(A) -> Seq<MeshTriangle>)
    requires
        forall|x: A| in_mirrored_pairs(#[trigger] f(x)),
    ensures
        in_mirrored_pairs(concat_map(s, f)),
    decreases s.len(),
{
    if s.len() > 0 {
        lemma_concat_map_mirrored_pairs(s.drop_last(), f);
        lemma_mirrored_pairs_append(concat_map(s.drop_last(), f), f(s.last()));
    }
}

/// Every face of the mesh is drawn from both sides: its triangles come in pairs whose second
/// member has the same corners in reversed winding and the exactly negated normal.
pub proof fn lemma_mesh_double_sided(ir: ChunkIR)
    ensures
        in_mirrored_pairs(mesh_triangles(ir)),
{
    assert forall|q: QuadIR| in_mirrored_pairs(#[trigger] quad_triangles(q)) by {
        let t = quad_triangles(q);
        if t.len() > 0 {
            assert(t[1] == mirrored(t[0]));
            assert(t[3] == mirrored(t[2]));
        }
    }
    assert forall|t: TriagIR| in_mirrored_pairs(#[trigger] triag_triangles(t)) by {
        let s = triag_triangles(t);
        if s.len() > 0 {
            assert(s[1] == mirrored(s[0]));
        }
    }
    lemma_concat_map_mirrored_pairs(ir.quads@, |q: QuadIR| quad_triangles(q));
    lemma_concat_map_mirrored_pairs(ir.triags@, |t: TriagIR| triag_triangles(t));
    lemma_mirrored_pairs_append(quads_triangles(ir.quads@), triags_triangles(ir.triags@));
}

/// The mesh of a chunk's geometry does not depend on the order in which the chunk's map yields
/// its cells: any two geometries built from the same cells give the same triangles, each as
/// many times.
pub proof fn lemma_mesh_independent_of_cell_order(m: Map<Pos, Voxel>, ir1: ChunkIR, ir2: ChunkIR)
    requires
        ir_of_map(ir1, m),
        ir_of_map(ir2, m),
    ensures
        mesh_triangles(ir1).to_multiset() == mesh_triangles(ir2).to_multiset(),
{
    broadcast use vstd::seq_lib::lemma_multiset_commutative;

    let c1 = choose|c: Seq<(Pos, Voxel)>| is_listing(c, m) && ir_of_cells(ir1, m, c);
    let c2 = choose|c: Seq<(Pos, Voxel)>| is_listing(c, m) && ir_of_cells(ir2, m, c);
    lemma_listings_to_multiset(c1, c2, m);
    lemma_concat_map_to_multiset(c1, c2, |cell: (Pos, Voxel)| cell_quads(m, cell));
    lemma_concat_map_to_multiset(c1, c2, |cell: (Pos, Voxel)| cell_triags(m, cell));
    lemma_concat_map_to_multiset(ir1.quads@, ir2.quads@, |q: QuadIR| quad_triangles(q));
    lemma_concat_map_to_multiset(ir1.triags@, ir2.triags@, |t: TriagIR| triag_triangles(t));
}

proof fn lemma_concat_map_index3<A, B>(s: Seq<A>, f: spec_fn(A) -> Seq<B>, t: int, j: int)
    requires
        forall|x: A| (#[trigger] f(x)).len() == 3,
        0 <= t < s.len(),
        0 <= j < 3,
    ensures
        concat_map(s, f).len() == 3 * s.len(),
        concat_map(s, f)[3 * t + j] == f(s[t])[j],
    decreases s.len(),
{
    lemma_concat_map_len(s, f, 3);
    lemma_concat_map_len(s.drop_last(), f, 3);
    if t < s.len() - 1 {
        lemma_concat_map_index3(s.drop_last(), f, t, j);
        assert(s.drop_last()[t] == s[t]);
    }
}

/// The `t`-th triangle of `tris` is stored at vertices 3t, 3t + 1 and 3t + 2 of `buf`.
proof fn lemma_buffer_triangle(buf: MeshBuffer, tris: Seq<MeshTriangle>, t: int)
    requires
        holds_triangles(buf, tris),
        0 <= t < tris.len(),
    ensures
        buf.positions@.len() == 3 * tris.len(),
        buf.normals@.len() == 3 * tris.len(),
        buf.uvs@.len() == 3 * tris.len(),
        buf.positions@[3 * t] == tris[t].a,
        buf.positions@[3 * t + 1] == tris[t].b,
        buf.positions@[3 * t + 2] == tris[t].c,
        buf.normals@[3 * t] == tris[t].normal,
        buf.normals@[3 * t + 1] == tris[t].normal,
        buf.normals@[3 * t + 2] == tris[t].normal,
        buf.uvs@[3 * t] == tris[t].uv_a,
        buf.uvs@[3 * t + 1] == tris[t].uv_b,
        buf.uvs@[3 * t + 2] == tris[t].uv_c,
{
    let fp = |t: MeshTriangle| seq![t.a, t.b, t.c];
    let fnm = |t: MeshTriangle| seq![t.normal, t.normal, t.normal];
    let fu = |t: MeshTriangle| seq![t.uv_a, t.uv_b, t.uv_c];
    lemma_concat_map_index3(tris, fp, t, 0);
    lemma_concat_map_index3(tris, fp, t, 1);
    lemma_concat_map_index3(tris, fp, t, 2);
    lemma_concat_map_index3(tris, fnm, t, 0);
    lemma_concat_map_index3(tris, fnm, t, 1);
    lemma_concat_map_index3(tris, fnm, t, 2);
    lemma_concat_map_index3(tris, fu, t, 0);
    lemma_concat_map_index3(tris, fu, t, 1);
    lemma_concat_map_index3(tris, fu, t, 2);
}

/// The six vertices from 6j on are one triangle and the same triangle seen from the other
/// side: corners 2 and 3 swapped with their texture coordinates, and every normal negated.
pub open spec fn buffer_pair_mirrored(buf: MeshBuffer, j: int) -> bool {
    let v = buf.positions@;
    let n = buf.normals@;
    let u = buf.uvs@;
    let b = 6 * j;
    &&& v[b + 3] == v[b] && v[b + 4] == v[b + 2] && v[b + 5] == v[b + 1]
    &&& u[b + 3] == u[b] && u[b + 4] == u[b + 2] && u[b + 5] == u[b + 1]
    &&& n[b] == n[b + 1] && n[b + 1] == n[b + 2]
    &&& n[b + 3] == negated(n[b]) && n[b + 4] == negated(n[b + 1]) && n[b + 5] == negated(n[b + 2])
}

/// The mesh buffer of a Chunk-IR draws every face from both sides: its vertices come in groups
/// of six, a triangle and its mirror with exactly negated normals.
pub proof fn lemma_buffer_double_sided(ir: ChunkIR, buf: MeshBuffer)
    requires
        holds_triangles(buf, mesh_triangles(ir)),
    ensures
        buf.positions@.len() % 6 == 0,
        forall|j: int| 0 <= j < buf.positions@.len() / 6 ==> #[trigger] buffer_pair_mirrored(buf, j),
{
    let tris = mesh_triangles(ir);
    lemma_mesh_double_sided(ir);
    lemma_concat_map_len(tris, |t: MeshTriangle| seq![t.a, t.b, t.c], 3);
    assert forall|j: int| 0 <= j < buf.positions@.len() / 6 implies #[trigger] buffer_pair_mirrored(
        buf,
        j,
    ) by {
        let t = 2 * j;
        assert(t + 1 < tris.len());
        lemma_buffer_triangle(buf, tris, t);
        lemma_buffer_triangle(buf, tris, t + 1);
        assert(tris[t + 1] == mirrored(tris[t]));
        assert(3 * (t + 1) == 6 * j + 3);
    }
}

/// The triangles that a buffer stores, as corner positions and normal.
pub open spec fn buffer_triangles(buf: MeshBuffer) -> Seq<(Pos, Pos, Pos, Normal)> {
    Seq::new(
        buf.positions@.len() / 3,
        |i: int|
            (buf.positions@[3 * i], buf.positions@[3 * i + 1], buf.positions@[3 * i + 2], buf.normals@[3
                * i]),
    )
}

pub open spec fn triangle_key(t: MeshTriangle) -> (Pos, Pos, Pos, Normal) {
    (t.a, t.b, t.c, t.normal)
}

proof fn lemma_concat_map_singletons<A, B>(s: Seq<A>, f: spec_fn(A) -> B)
    ensures
        concat_map(s, |x: A| seq![f(x)]) == s.map_values(f),
    decreases s.len(),
{
    if s.len() > 0 {
        lemma_concat_map_singletons(s.drop_last(), f);
        assert(s.drop_last().map_values(f).push(f(s.last())) =~= s.map_values(f));
        assert(s.drop_last().map_values(f) + seq![f(s.last())] =~= s.map_values(f));
    } else {
        assert(s.map_values(f) =~= Seq::<B>::empty());
    }
}

proof fn lemma_buffer_triangles_of(buf: MeshBuffer, tris: Seq<MeshTriangle>)
    requires
        holds_triangles(buf, tris),
    ensures
        buffer_triangles(buf) == tris.map_values(|t: MeshTriangle| triangle_key(t)),
{
    lemma_concat_map_len(tris, |t: MeshTriangle| seq![t.a, t.b, t.c], 3);
    assert(buf.positions@.len() / 3 == tris.len());
    assert forall|i: int| 0 <= i < tris.len() implies #[trigger] buffer_triangles(buf)[i]
        == triangle_key(tris[i]) by {
        lemma_buffer_triangle(buf, tris, i);
    }
    assert(buffer_triangles(buf) =~= tris.map_values(|t: MeshTriangle| triangle_key(t)));
}

/// The mesh buffers of two geometries built from the same cells, in whatever order the map
/// gave them, hold the same (corner positions, normal) triangles, each as many times.
pub proof fn lemma_buffer_independent_of_cell_order(
    m: Map<Pos, Voxel>,
    ir1: ChunkIR,
    ir2: ChunkIR,
    buf1: MeshBuffer,
    buf2: MeshBuffer,
)
    requires
        ir_of_map(ir1, m),
        ir_of_map(ir2, m),
        holds_triangles(buf1, mesh_triangles(ir1)),
        holds_triangles(buf2, mesh_triangles(ir2)),
    ensures
        buffer_triangles(buf1).to_multiset() == buffer_triangles(buf2).to_multiset(),
{
    let key = |t: MeshTriangle| triangle_key(t);
    lemma_mesh_independent_of_cell_order(m, ir1, ir2);
    lemma_buffer_triangles_of(buf1, mesh_triangles(ir1));
    lemma_buffer_triangles_of(buf2, mesh_triangles(ir2));
    lemma_concat_map_singletons(mesh_triangles(ir1), key);
    lemma_concat_map_singletons(mesh_triangles(ir2), key);
    lemma_concat_map_to_multiset(
        mesh_triangles(ir1),
        mesh_triangles(ir2),
        |x: MeshTriangle| seq![key(x)],
    );
}

} // verus!
