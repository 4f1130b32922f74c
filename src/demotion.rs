use vstd::prelude::*;

use crate::chunk::{corner_at, corner_info_of, cube_of, face, is_listing};
use crate::ir::{
    cell_quads, cell_triags, concat_map, ir_of_cells, ir_of_map, lemma_concat_map_append,
    lemma_concat_map_to_multiset, lemma_listings_to_multiset, quad_of, triag_of, ChunkIR, QuadIR,
    TriagIR,
};
use crate::pos::Pos;
use crate::voxel::{Corner, Matter, Voxel};

verus! {

/// The cell `v` with its own corner made weak.
pub open spec fn weakened(v: Voxel) -> Voxel {
    Voxel { x_side: v.x_side, y_side: v.y_side, z_side: v.z_side, inner: v.inner, corner: Corner::Weak }
}

pub open spec fn quad_touches(p: Pos, q: QuadIR) -> bool {
    q.a == p || q.b == p || q.c == p || q.d == p
}

pub open spec fn triag_touches(p: Pos, t: TriagIR) -> bool {
    t.a == p || t.b == p || t.c == p
}

/// Keeps a quad that does not have `p` as a corner.
pub open spec fn untouched_quads(p: Pos) -> spec_fn(QuadIR) -> Seq<QuadIR> {
    |q: QuadIR|
        if quad_touches(p, q) {
            Seq::empty()
        } else {
            seq![q]
        }
}

/// Keeps a triangle that does not have `p` as a corner.
pub open spec fn untouched_triags(p: Pos) -> spec_fn(TriagIR) -> Seq<TriagIR> {
    |t: TriagIR|
        if triag_touches(p, t) {
            Seq::empty()
        } else {
            seq![t]
        }
}

/// A quad with corner `p` becomes the triangle of its other three corners, in their order.
pub open spec fn quads_without(p: Pos) -> spec_fn(QuadIR) -> Seq<TriagIR> {
    |q: QuadIR|
        if q.a == p {
            seq![TriagIR { matter: q.matter, a: q.b, b: q.c, c: q.d }]
        } else if q.b == p {
            seq![TriagIR { matter: q.matter, a: q.a, b: q.c, c: q.d }]
        } else if q.c == p {
            seq![TriagIR { matter: q.matter, a: q.a, b: q.b, c: q.d }]
        } else if q.d == p {
            seq![TriagIR { matter: q.matter, a: q.a, b: q.b, c: q.c }]
        } else {
            Seq::empty()
        }
}

/// The strength of the corner at `at` once the corner `p` is weak.
pub open spec fn after(c: Corner, at: Pos, p: Pos) -> Corner {
    if at == p {
        Corner::Weak
    } else {
        c
    }
}

pub open spec fn demote_cell(p: Pos, cell: (Pos, Voxel)) -> (Pos, Voxel) {
    if cell.0 == p {
        (p, weakened(cell.1))
    } else {
        cell
    }
}

proof fn lemma_concat_map_small<A, B>(f: spec_fn(A) -> Seq<B>)
    ensures
        concat_map(Seq::<A>::empty(), f) == Seq::<B>::empty(),
        forall|x: A| #[trigger] concat_map(seq![x], f) == f(x),
{
    assert forall|x: A| #[trigger] concat_map(seq![x], f) == f(x) by {
        assert(seq![x].drop_last() =~= Seq::<A>::empty());
        assert(seq![x].last() == x);
        assert(concat_map(Seq::<A>::empty(), f) == Seq::<B>::empty());
        assert(Seq::<B>::empty() + f(x) =~= f(x));
        assert(concat_map(seq![x], f) == concat_map(seq![x].drop_last(), f) + f(x));
    }
}

/// Images that agree element by element join to the same sequence.
proof fn lemma_concat_map_pointwise<A, C, B>(
    s1: Seq<A>,
    s2: Seq<C>,
    f: spec_fn(A) -> Seq<B>,
    g: spec_fn(C) -> Seq<B>,
)
    requires
        s1.len() == s2.len(),
        forall|i: int| 0 <= i < s1.len() ==> f(#[trigger] s1[i]) == g(s2[i]),
    ensures
        concat_map(s1, f) == concat_map(s2, g),
    decreases s1.len(),
{
    if s1.len() > 0 {
        let n = s1.len() - 1;
        assert forall|i: int| 0 <= i < n implies f(#[trigger] s1.drop_last()[i]) == g(
            s2.drop_last()[i],
        ) by {
            assert(s1.drop_last()[i] == s1[i]);
            assert(s2.drop_last()[i] == s2[i]);
        }
        lemma_concat_map_pointwise(s1.drop_last(), s2.drop_last(), f, g);
        assert(f(s1[n]) == g(s2[n]));
    }
}

/// Images with the same elements element by element join to sequences with the same elements.
proof fn lemma_concat_map_pointwise_multiset<A, C, B>(
    s1: Seq<A>,
    s2: Seq<C>,
    f: spec_fn(A) -> Seq<B>,
    g: spec_fn(C) -> Seq<B>,
)
    requires
        s1.len() == s2.len(),
        forall|i: int|
            0 <= i < s1.len() ==> f(#[trigger] s1[i]).to_multiset() == g(s2[i]).to_multiset(),
    ensures
        concat_map(s1, f).to_multiset() == concat_map(s2, g).to_multiset(),
    decreases s1.len(),
{
    broadcast use vstd::seq_lib::lemma_multiset_commutative;

    if s1.len() > 0 {
        let n = s1.len() - 1;
        assert forall|i: int| 0 <= i < n implies f(#[trigger] s1.drop_last()[i]).to_multiset() == g(
            s2.drop_last()[i],
        ).to_multiset() by {
            assert(s1.drop_last()[i] == s1[i]);
            assert(s2.drop_last()[i] == s2[i]);
        }
        lemma_concat_map_pointwise_multiset(s1.drop_last(), s2.drop_last(), f, g);
        assert(f(s1[n]).to_multiset() == g(s2[n]).to_multiset());
    }
}

/// Joining the images of a join is joining the joined images of each element.
proof fn lemma_concat_map_compose<A, B, C>(
    s: Seq<A>,
    h: spec_fn(A) -> Seq<B>,
    k: spec_fn(B) -> Seq<C>,
    g: spec_fn(A) -> Seq<C>,
)
    requires
        forall|x: A| #[trigger] g(x) == concat_map(h(x), k),
    ensures
        concat_map(concat_map(s, h), k) == concat_map(s, g),
    decreases s.len(),
{
    if s.len() > 0 {
        lemma_concat_map_compose(s.drop_last(), h, k, g);
        lemma_concat_map_append(concat_map(s.drop_last(), h), h(s.last()), k);
        assert(g(s.last()) == concat_map(h(s.last()), k));
    }
}

/// Joining images that are sums holds the elements of both joins.
proof fn lemma_concat_map_sum<A, B>(
    s: Seq<A>,
    f: spec_fn(A) -> Seq<B>,
    g: spec_fn(A) -> Seq<B>,
    fg: spec_fn(A) -> Seq<B>,
)
    requires
        forall|x: A| #[trigger] fg(x) == f(x) + g(x),
    ensures
        concat_map(s, fg).to_multiset() == (concat_map(s, f) + concat_map(s, g)).to_multiset(),
    decreases s.len(),
{
    broadcast use vstd::seq_lib::lemma_multiset_commutative;
    broadcast use vstd::multiset::group_multiset_axioms;

    if s.len() > 0 {
        let x = s.last();
        lemma_concat_map_sum(s.drop_last(), f, g, fg);
        assert(fg(x) == f(x) + g(x));
        let a = concat_map(s.drop_last(), f);
        let b = concat_map(s.drop_last(), g);
        assert(concat_map(s, fg).to_multiset() =~= (a + b).to_multiset().add(
            (f(x) + g(x)).to_multiset(),
        ));
        assert((concat_map(s, f) + concat_map(s, g)).to_multiset() =~= a.to_multiset().add(
            f(x).to_multiset(),
        ).add(b.to_multiset().add(g(x).to_multiset())));
    }
}

#[verifier::rlimit(40)]
proof fn lemma_face_demoted(
    co: Corner,
    cf: Corner,
    cd: Corner,
    cs: Corner,
    po: Pos,
    pf: Pos,
    pd: Pos,
    ps: Pos,
    p: Pos,
    mat: Option<Matter>,
)
    requires
        po != pf && po != pd && po != ps && pf != pd && pf != ps && pd != ps,
        po == p ==> co == Corner::Strong,
        pf == p ==> cf == Corner::Strong,
        pd == p ==> cd == Corner::Strong,
        ps == p ==> cs == Corner::Strong,
    ensures
        quad_of(
            face(after(co, po, p), after(cf, pf, p), after(cd, pd, p), after(cs, ps, p), po, pf, pd, ps),
            mat,
        ) == concat_map(quad_of(face(co, cf, cd, cs, po, pf, pd, ps), mat), untouched_quads(p)),
        triag_of(
            face(after(co, po, p), after(cf, pf, p), after(cd, pd, p), after(cs, ps, p), po, pf, pd, ps),
            mat,
        ) == concat_map(triag_of(face(co, cf, cd, cs, po, pf, pd, ps), mat), untouched_triags(p))
            + concat_map(quad_of(face(co, cf, cd, cs, po, pf, pd, ps), mat), quads_without(p)),
{
    lemma_concat_map_small(untouched_quads(p));
    lemma_concat_map_small(untouched_triags(p));
    lemma_concat_map_small(quads_without(p));
    let t = triag_of(face(co, cf, cd, cs, po, pf, pd, ps), mat);
    let q = quad_of(face(co, cf, cd, cs, po, pf, pd, ps), mat);
    assert(Seq::<TriagIR>::empty() + Seq::<TriagIR>::empty() =~= Seq::<TriagIR>::empty());
    assert(concat_map(t, untouched_triags(p)) + Seq::<TriagIR>::empty() =~= concat_map(
        t,
        untouched_triags(p),
    ));
    assert(Seq::<TriagIR>::empty() + concat_map(q, quads_without(p)) =~= concat_map(
        q,
        quads_without(p),
    ));
    if mat is None {
    } else if po == p {
        assert(after(cf, pf, p) == cf && after(cd, pd, p) == cd && after(cs, ps, p) == cs);
    } else if pf == p {
        assert(after(co, po, p) == co && after(cd, pd, p) == cd && after(cs, ps, p) == cs);
    } else if pd == p {
        assert(after(co, po, p) == co && after(cf, pf, p) == cf && after(cs, ps, p) == cs);
    } else if ps == p {
        assert(after(co, po, p) == co && after(cf, pf, p) == cf && after(cd, pd, p) == cd);
    } else {
        assert(after(co, po, p) == co && after(cf, pf, p) == cf && after(cd, pd, p) == cd
            && after(cs, ps, p) == cs);
    }
}

proof fn lemma_regroup<B>(a1: Seq<B>, a2: Seq<B>, a3: Seq<B>, b1: Seq<B>, b2: Seq<B>, b3: Seq<B>)
    ensures
        ((a1 + b1) + (a2 + b2) + (a3 + b3)).to_multiset() == ((a1 + a2 + a3) + (b1 + b2
            + b3)).to_multiset(),
{
    broadcast use vstd::seq_lib::lemma_multiset_commutative;
    broadcast use vstd::multiset::group_multiset_axioms;

    assert(((a1 + b1) + (a2 + b2) + (a3 + b3)).to_multiset() =~= ((a1 + a2 + a3) + (b1 + b2
        + b3)).to_multiset());
}

/// After the corner `p` of `m`, strong before, is made weak, each cell gives the quads it gave
/// before that do not touch `p`, and as triangles those it gave before that do not touch `p`
/// together with its quads that touch `p`, cut down to their other three corners.
#[verifier::rlimit(40)]
proof fn lemma_cell_demoted(m: Map<Pos, Voxel>, p: Pos, cell: (Pos, Voxel))
    requires
        m.contains_key(p),
        m[p].corner == Corner::Strong,
        m.contains_key(cell.0),
        m[cell.0] == cell.1,
        cell.0.spans_cell(),
    ensures
        cell_quads(m.insert(p, weakened(m[p])), demote_cell(p, cell)) == concat_map(
            cell_quads(m, cell),
            untouched_quads(p),
        ),
        cell_triags(m.insert(p, weakened(m[p])), demote_cell(p, cell)).to_multiset() == (
        concat_map(cell_triags(m, cell), untouched_triags(p)) + concat_map(
            cell_quads(m, cell),
            quads_without(p),
        )).to_multiset(),
{
    let m2 = m.insert(p, weakened(m[p]));
    let c2 = demote_cell(p, cell);
    let o = cell.0;
    let v = cell.1;
    let uq = untouched_quads(p);
    let ut = untouched_triags(p);
    let qw = quads_without(p);
    lemma_concat_map_small(uq);
    lemma_concat_map_small(ut);
    lemma_concat_map_small(qw);
    if v.corner == Corner::Air {
        assert(o != p);
        assert(Seq::<TriagIR>::empty() + Seq::<TriagIR>::empty() =~= Seq::<TriagIR>::empty());
    } else {
        let i1 = corner_info_of(m, o, v.corner);
        let i2 = corner_info_of(m2, o, c2.1.corner);
        let pos = cube_of(o);
        assert(corner_at(m, p) == Corner::Strong);
        assert(i2.pos == pos && i1.pos == pos);
        assert(i2.cor.o == after(i1.cor.o, pos.o, p));
        assert(i2.cor.x == after(i1.cor.x, pos.x, p));
        assert(i2.cor.y == after(i1.cor.y, pos.y, p));
        assert(i2.cor.z == after(i1.cor.z, pos.z, p));
        assert(i2.cor.xy == after(i1.cor.xy, pos.xy, p));
        assert(i2.cor.xz == after(i1.cor.xz, pos.xz, p));
        assert(i2.cor.yz == after(i1.cor.yz, pos.yz, p));
        lemma_face_demoted(
            i1.cor.o,
            i1.cor.y,
            i1.cor.yz,
            i1.cor.z,
            pos.o,
            pos.y,
            pos.yz,
            pos.z,
            p,
            v.x_side,
        );
        lemma_face_demoted(
            i1.cor.o,
            i1.cor.x,
            i1.cor.xz,
            i1.cor.z,
            pos.o,
            pos.x,
            pos.xz,
            pos.z,
            p,
            v.y_side,
        );
        lemma_face_demoted(
            i1.cor.o,
            i1.cor.x,
            i1.cor.xy,
            i1.cor.y,
            pos.o,
            pos.x,
            pos.xy,
            pos.y,
            p,
            v.z_side,
        );
        let qx = quad_of(i1.x_face(), v.x_side);
        let qy = quad_of(i1.y_face(), v.y_side);
        let qz = quad_of(i1.z_face(), v.z_side);
        let tx = triag_of(i1.x_face(), v.x_side);
        let ty = triag_of(i1.y_face(), v.y_side);
        let tz = triag_of(i1.z_face(), v.z_side);
        assert(c2.0 == o && c2.1.corner != Corner::Air);
        assert(c2.1.x_side == v.x_side && c2.1.y_side == v.y_side && c2.1.z_side == v.z_side);
        assert(cell_quads(m, cell) == qx + qy + qz);
        assert(cell_triags(m, cell) == tx + ty + tz);
        assert(cell_quads(m2, c2) == concat_map(qx, uq) + concat_map(qy, uq) + concat_map(qz, uq));
        assert(cell_triags(m2, c2) == (concat_map(tx, ut) + concat_map(qx, qw)) + (concat_map(
            ty,
            ut,
        ) + concat_map(qy, qw)) + (concat_map(tz, ut) + concat_map(qz, qw)));
        lemma_concat_map_append(qx + qy, qz, uq);
        lemma_concat_map_append(qx, qy, uq);
        lemma_concat_map_append(qx + qy, qz, qw);
        lemma_concat_map_append(qx, qy, qw);
        lemma_concat_map_append(tx + ty, tz, ut);
        lemma_concat_map_append(tx, ty, ut);
        lemma_regroup(
            concat_map(tx, ut),
            concat_map(ty, ut),
            concat_map(tz, ut),
            concat_map(qx, qw),
            concat_map(qy, qw),
            concat_map(qz, qw),
        );
    }
}

/// Making a strong corner `p` of a chunk weak changes exactly the faces that have `p` as a
/// corner: their quads become the triangles of their other three corners, their triangles
/// disappear, and every other quad and triangle stays as it was.
pub proof fn lemma_weakened_corner(m: Map<Pos, Voxel>, p: Pos, ir: ChunkIR, ir2: ChunkIR)
    requires
        m.contains_key(p),
        m[p].corner == Corner::Strong,
        forall|q: Pos| #[trigger] m.contains_key(q) ==> q.spans_cell(),
        ir_of_map(ir, m),
        ir_of_map(ir2, m.insert(p, weakened(m[p]))),
    ensures
        ir2.quads@.to_multiset() == concat_map(ir.quads@, untouched_quads(p)).to_multiset(),
        ir2.triags@.to_multiset() == (concat_map(ir.triags@, untouched_triags(p)) + concat_map(
            ir.quads@,
            quads_without(p),
        )).to_multiset(),
{
    let m2 = m.insert(p, weakened(m[p]));
    let uq = untouched_quads(p);
    let ut = untouched_triags(p);
    let qw = quads_without(p);
    let s = choose|c: Seq<(Pos, Voxel)>| is_listing(c, m) && ir_of_cells(ir, m, c);
    let s2 = choose|c: Seq<(Pos, Voxel)>| is_listing(c, m2) && ir_of_cells(ir2, m2, c);
    let sd = Seq::new(s.len(), |i: int| demote_cell(p, s[i]));
    assert forall|i: int, j: int| 0 <= i < j < sd.len() implies #[trigger] sd[i].0
        != #[trigger] sd[j].0 by {
        assert(s[i].0 != s[j].0);
    }
    assert forall|i: int| 0 <= i < sd.len() implies m2.contains_key(#[trigger] sd[i].0)
        && m2[sd[i].0] == sd[i].1 by {
        assert(m.contains_key(s[i].0) && m[s[i].0] == s[i].1);
    }
    assert forall|q: Pos| #[trigger] m2.contains_key(q) implies exists|i: int|
        0 <= i < sd.len() && #[trigger] sd[i].0 == q by {
        assert(m.contains_key(q));
        let i = choose|i: int| 0 <= i < s.len() && #[trigger] s[i].0 == q;
        assert(sd[i].0 == q);
    }
    assert(is_listing(sd, m2));
    lemma_listings_to_multiset(s2, sd, m2);
    lemma_concat_map_to_multiset(s2, sd, |cell: (Pos, Voxel)| cell_quads(m2, cell));
    lemma_concat_map_to_multiset(s2, sd, |cell: (Pos, Voxel)| cell_triags(m2, cell));

    assert forall|i: int| 0 <= i < s.len() implies {
        &&& cell_quads(m2, #[trigger] sd[i]) == concat_map(cell_quads(m, s[i]), uq)
        &&& cell_triags(m2, sd[i]).to_multiset() == (concat_map(cell_triags(m, s[i]), ut)
            + concat_map(cell_quads(m, s[i]), qw)).to_multiset()
    } by {
        assert(m.contains_key(s[i].0) && m[s[i].0] == s[i].1);
        lemma_cell_demoted(m, p, s[i]);
    }

    let g_q = |cell: (Pos, Voxel)| concat_map(cell_quads(m, cell), uq);
    let g_t = |cell: (Pos, Voxel)| concat_map(cell_triags(m, cell), ut);
    let g_w = |cell: (Pos, Voxel)| concat_map(cell_quads(m, cell), qw);
    let g_tw = |cell: (Pos, Voxel)| g_t(cell) + g_w(cell);
    lemma_concat_map_pointwise(sd, s, |cell: (Pos, Voxel)| cell_quads(m2, cell), g_q);
    lemma_concat_map_compose(s, |cell: (Pos, Voxel)| cell_quads(m, cell), uq, g_q);
    lemma_concat_map_pointwise_multiset(sd, s, |cell: (Pos, Voxel)| cell_triags(m2, cell), g_tw);
    lemma_concat_map_sum(s, g_t, g_w, g_tw);
    lemma_concat_map_compose(s, |cell: (Pos, Voxel)| cell_triags(m, cell), ut, g_t);
    lemma_concat_map_compose(s, |cell: (Pos, Voxel)| cell_quads(m, cell), qw, g_w);
}

} // verus!
