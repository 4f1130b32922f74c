use vstd::prelude::*;

use crate::chunk::{corner_info_of, is_listing, Chunk, Side};
use crate::pos::Pos;
use crate::voxel::{Corner, Matter, Voxel};

verus! {

/// The geometry extracted from a chunk: quads, triangles and edges, each tagged with its
/// material.
#[derive(Clone, Debug)]
pub struct ChunkIR {
    pub quads: Vec<QuadIR>,
    pub triags: Vec<TriagIR>,
    pub edges: Vec<EdgeIR>,
}

/// A quad with corners in winding order a, b, c, d.
#[derive(Clone, Copy, Debug, PartialEq, Eq, Structural)]
pub struct QuadIR {
    pub matter: Matter,
    pub a: Pos,
    pub b: Pos,
    pub c: Pos,
    pub d: Pos,
}

/// A triangle with corners in winding order a, b, c.
#[derive(Clone, Copy, Debug, PartialEq, Eq, Structural)]
pub struct TriagIR {
    pub matter: Matter,
    pub a: Pos,
    pub b: Pos,
    pub c: Pos,
}

/// An edge from a to b.
#[derive(Clone, Copy, Debug, PartialEq, Eq, Structural)]
pub struct EdgeIR {
    pub matter: Matter,
    pub a: Pos,
    pub b: Pos,
}

/// `f` applied to each element of `s`, the results joined in order.
pub open spec fn concat_map<A, B>(s: Seq<A>, f: spec_fn(A) -> Seq<B>) -> Seq<B>
    decreases s.len(),
{
    if s.len() == 0 {
        Seq::empty()
    } else {
        concat_map(s.drop_last(), f) + f(s.last())
    }
}

/// The quad that a face contributes when it is filled with `matter`.
pub open spec fn quad_of(side: Side, matter: Option<Matter>) -> Seq<QuadIR> {
    match (side, matter) {
        (Side::Quad(a, b, c, d), Some(m)) => seq![QuadIR { matter: m, a, b, c, d }],
        _ => Seq::empty(),
    }
}

/// The triangle that a face contributes when it is filled with `matter`.
pub open spec fn triag_of(side: Side, matter: Option<Matter>) -> Seq<TriagIR> {
    match (side, matter) {
        (Side::Triag(a, b, c), Some(m)) => seq![TriagIR { matter: m, a, b, c }],
        _ => Seq::empty(),
    }
}

/// The quads of one cell of the map `m`: its x, y and z faces in that order; none for a cell
/// whose own corner is air.
pub open spec fn cell_quads(m: Map<Pos, Voxel>, cell: (Pos, Voxel)) -> Seq<QuadIR> {
    let v = cell.1;
    if v.corner == Corner::Air {
        Seq::empty()
    } else {
        let info = corner_info_of(m, cell.0, v.corner);
        quad_of(info.x_face(), v.x_side) + quad_of(info.y_face(), v.y_side) + quad_of(
            info.z_face(),
            v.z_side,
        )
    }
}

/// The triangles of one cell of the map `m`, ordered as in `cell_quads`.
pub open spec fn cell_triags(m: Map<Pos, Voxel>, cell: (Pos, Voxel)) -> Seq<TriagIR> {
    let v = cell.1;
    if v.corner == Corner::Air {
        Seq::empty()
    } else {
        let info = corner_info_of(m, cell.0, v.corner);
        triag_of(info.x_face(), v.x_side) + triag_of(info.y_face(), v.y_side) + triag_of(
            info.z_face(),
            v.z_side,
        )
    }
}

/// The quads of the listed cells, cell by cell.
pub open spec fn cells_quads(m: Map<Pos, Voxel>, cells: Seq<(Pos, Voxel)>) -> Seq<QuadIR> {
    concat_map(cells, |cell: (Pos, Voxel)| cell_quads(m, cell))
}

/// The triangles of the listed cells, cell by cell.
pub open spec fn cells_triags(m: Map<Pos, Voxel>, cells: Seq<(Pos, Voxel)>) -> Seq<TriagIR> {
    concat_map(cells, |cell: (Pos, Voxel)| cell_triags(m, cell))
}

/// `ir` is what the cells give, visited in the order of `cells`, with corners looked up in `m`.
pub open spec fn ir_of_cells(ir: ChunkIR, m: Map<Pos, Voxel>, cells: Seq<(Pos, Voxel)>) -> bool {
    &&& ir.quads@ == cells_quads(m, cells)
    &&& ir.triags@ == cells_triags(m, cells)
    &&& ir.edges@.len() == 0
}

/// `ir` is what the cells of `m` give when visited in some order.
pub open spec fn ir_of_map(ir: ChunkIR, m: Map<Pos, Voxel>) -> bool {
    exists|cells: Seq<(Pos, Voxel)>| is_listing(cells, m) && ir_of_cells(ir, m, cells)
}

fn add_side(side: Side, matter: Matter, quads: &mut Vec<QuadIR>, triags: &mut Vec<TriagIR>)
    ensures
        final(quads)@ == old(quads)@ + quad_of(side, Some(matter)),
        final(triags)@ == old(triags)@ + triag_of(side, Some(matter)),
{
    match side {
        Side::Empty => {
            assert(quads@ =~= quads@ + quad_of(side, Some(matter)));
            assert(triags@ =~= triags@ + triag_of(side, Some(matter)));
        },
        Side::Triag(a, b, c) => {
            triags.push(TriagIR { matter, a, b, c });
            assert(quads@ =~= old(quads)@ + quad_of(side, Some(matter)));
        },
        Side::Quad(a, b, c, d) => {
            quads.push(QuadIR { matter, a, b, c, d });
            assert(triags@ =~= old(triags)@ + triag_of(side, Some(matter)));
        },
    }
}

fn add_filled_side(
    side: Side,
    matter: Option<Matter>,
    quads: &mut Vec<QuadIR>,
    triags: &mut Vec<TriagIR>,
)
    ensures
        final(quads)@ == old(quads)@ + quad_of(side, matter),
        final(triags)@ == old(triags)@ + triag_of(side, matter),
{
    match matter {
        Some(m) => add_side(side, m, quads, triags),
        None => {
            assert(quads@ =~= quads@ + quad_of(side, matter));
            assert(triags@ =~= triags@ + triag_of(side, matter));
        },
    }
}

impl ChunkIR {
    /// The geometry of `cells`, visited in their order, with corners looked up in `chunk`.
    pub fn construct_from_cells(chunk: &Chunk, cells: &Vec<(Pos, Voxel)>) -> (r: Self)
        requires
            forall|i: int| 0 <= i < cells@.len() ==> (#[trigger] cells@[i]).0.spans_cell(),
        ensures
            ir_of_cells(r, chunk.voxel_map(), cells@),
    {
        let ghost m = chunk.voxel_map();
        let mut quads: Vec<QuadIR> = Vec::new();
        let mut triags: Vec<TriagIR> = Vec::new();
        let edges: Vec<EdgeIR> = Vec::new();
        let mut i: usize = 0;
        while i < cells.len()
            invariant
                i <= cells@.len(),
                m == chunk.voxel_map(),
                forall|j: int| 0 <= j < cells@.len() ==> (#[trigger] cells@[j]).0.spans_cell(),
                quads@ == cells_quads(m, cells@.take(i as int)),
                triags@ == cells_triags(m, cells@.take(i as int)),
            decreases cells@.len() - i,
        {
            let (pos, voxel) = cells[i];
            assert(cells@.take(i + 1).drop_last() =~= cells@.take(i as int));
            assert(cells@.take(i + 1).last() == cells@[i as int]);
            if !voxel.corner.air() {
                let info = chunk.get_voxel_corner_info(pos, voxel.corner);
                add_filled_side(info.x_side(), voxel.x_side, &mut quads, &mut triags);
                add_filled_side(info.y_side(), voxel.y_side, &mut quads, &mut triags);
                add_filled_side(info.z_side(), voxel.z_side, &mut quads, &mut triags);
                assert(quads@ =~= cells_quads(m, cells@.take(i + 1)));
                assert(triags@ =~= cells_triags(m, cells@.take(i + 1)));
            } else {
                assert(quads@ =~= cells_quads(m, cells@.take(i + 1)));
                assert(triags@ =~= cells_triags(m, cells@.take(i + 1)));
            }
            i = i + 1;
        }
        assert(cells@.take(cells@.len() as int) =~= cells@);
        ChunkIR { quads, triags, edges }
    }

    /// The geometry of every cell of `chunk`, visited in the order in which its map yields them.
    pub fn construct_from_chunk(chunk: &Chunk) -> (r: Self)
        requires
            chunk.wf(),
        ensures
            ir_of_map(r, chunk.voxel_map()),
    {
        let cells = chunk.cells();
        assert forall|i: int| 0 <= i < cells@.len() implies (#[trigger] cells@[i]).0.spans_cell() by {
            assert(chunk.voxel_map().contains_key(cells@[i].0));
        }
        let r = ChunkIR::construct_from_cells(chunk, &cells);
        assert(is_listing(cells@, chunk.voxel_map()) && ir_of_cells(r, chunk.voxel_map(), cells@));
        r
    }
}

pub proof fn lemma_concat_map_append<A, B>(a: Seq<A>, b: Seq<A>, f: spec_fn(A) -> Seq<B>)
    ensures
        concat_map(a + b, f) == concat_map(a, f) + concat_map(b, f),
    decreases b.len(),
{
    if b.len() == 0 {
        assert(a + b =~= a);
        assert(concat_map(a, f) + concat_map(b, f) =~= concat_map(a, f));
    } else {
        lemma_concat_map_append(a, b.drop_last(), f);
        assert((a + b).drop_last() =~= a + b.drop_last());
        assert((a + b).last() == b.last());
        assert(concat_map(a + b, f) =~= concat_map(a, f) + concat_map(b, f));
    }
}

/// Joining the images of two sequences with the same elements gives sequences with the same
/// elements.
pub proof fn lemma_concat_map_to_multiset<A, B>(s1: Seq<A>, s2: Seq<A>, f: spec_fn(A) -> Seq<B>)
    requires
        s1.to_multiset() == s2.to_multiset(),
    ensures
        concat_map(s1, f).to_multiset() == concat_map(s2, f).to_multiset(),
    decreases s1.len(),
{
    broadcast use vstd::seq_lib::group_to_multiset_ensures;
    broadcast use vstd::seq_lib::lemma_multiset_commutative;
    broadcast use vstd::multiset::group_multiset_axioms;

    if s1.len() == 0 {
        assert(s2.len() == s2.to_multiset().len());
        assert(s1 =~= s2);
    } else {
        let x = s1.last();
        let s1p = s1.drop_last();
        assert(s1 =~= s1p.push(x));
        assert(s1.contains(x)) by {
            assert(s1[s1.len() - 1] == x);
        }
        assert(s2.to_multiset().count(x) > 0);
        assert(s2.contains(x));
        let j = choose|j: int| 0 <= j < s2.len() && s2[j] == x;
        let s2p = s2.remove(j);
        assert(s2p.to_multiset() =~= s1p.to_multiset());
        lemma_concat_map_to_multiset(s1p, s2p, f);
        let pre = s2.subrange(0, j);
        let post = s2.subrange(j + 1, s2.len() as int);
        assert(s2 =~= pre + seq![x] + post);
        assert(s2p =~= pre + post);
        lemma_concat_map_append(pre + seq![x], post, f);
        lemma_concat_map_append(pre, seq![x], f);
        lemma_concat_map_append(pre, post, f);
        assert(seq![x].drop_last() =~= Seq::<A>::empty());
        assert(seq![x].last() == x);
        assert(concat_map(Seq::<A>::empty(), f) == Seq::<B>::empty());
        assert(Seq::<B>::empty() + f(x) =~= f(x));
        assert(concat_map(seq![x], f) == concat_map(seq![x].drop_last(), f) + f(x));
        assert(concat_map(seq![x], f) =~= f(x));
        let cp = concat_map(pre, f);
        let cq = concat_map(post, f);
        assert(concat_map(s2, f).to_multiset() =~= cp.to_multiset().add(f(x).to_multiset()).add(
            cq.to_multiset(),
        ));
        assert(concat_map(s1, f).to_multiset() =~= cp.to_multiset().add(cq.to_multiset()).add(
            f(x).to_multiset(),
        ));
    }
}

proof fn lemma_listing_remove(s: Seq<(Pos, Voxel)>, m: Map<Pos, Voxel>, j: int)
    requires
        is_listing(s, m),
        0 <= j < s.len(),
    ensures
        is_listing(s.remove(j), m.remove(s[j].0)),
{
    let r = s.remove(j);
    let mr = m.remove(s[j].0);
    assert forall|a: int, b: int| 0 <= a < b < r.len() implies #[trigger] r[a].0 != #[trigger] r[b].0 by {
        let a2 = if a < j { a } else { a + 1 };
        let b2 = if b < j { b } else { b + 1 };
        assert(r[a] == s[a2] && r[b] == s[b2]);
        assert(s[a2].0 != s[b2].0);
    }
    assert forall|a: int| 0 <= a < r.len() implies mr.contains_key(#[trigger] r[a].0) && mr[r[a].0]
        == r[a].1 by {
        let a2 = if a < j { a } else { a + 1 };
        assert(r[a] == s[a2]);
        assert(s[a2].0 != s[j].0);
        assert(m.contains_key(s[a2].0));
    }
    assert forall|p: Pos| #[trigger] mr.contains_key(p) implies exists|a: int|
        0 <= a < r.len() && #[trigger] r[a].0 == p by {
        assert(m.contains_key(p));
        let i = choose|i: int| 0 <= i < s.len() && #[trigger] s[i].0 == p;
        assert(i != j);
        let a = if i < j { i } else { i - 1 };
        assert(r[a] == s[i]);
    }
}

/// Two listings of the same cells hold the same elements.
pub proof fn lemma_listings_to_multiset(s1: Seq<(Pos, Voxel)>, s2: Seq<(Pos, Voxel)>, m: Map<Pos, Voxel>)
    requires
        is_listing(s1, m),
        is_listing(s2, m),
    ensures
        s1.to_multiset() == s2.to_multiset(),
    decreases s1.len(),
{
    broadcast use vstd::seq_lib::group_to_multiset_ensures;
    broadcast use vstd::multiset::group_multiset_axioms;

    if s1.len() == 0 {
        if s2.len() > 0 {
            assert(m.contains_key(s2[0].0));
        }
        assert(s1 =~= s2);
    } else {
        let last = s1.len() - 1;
        let x = s1[last];
        assert(m.contains_key(x.0));
        let j = choose|j: int| 0 <= j < s2.len() && #[trigger] s2[j].0 == x.0;
        assert(s2[j] == x);
        lemma_listing_remove(s1, m, last);
        lemma_listing_remove(s2, m, j);
        assert(s1.remove(last) =~= s1.drop_last());
        lemma_listings_to_multiset(s1.remove(last), s2.remove(j), m.remove(x.0));
        assert(s1 =~= s1.drop_last().push(x));
        assert(s2.to_multiset() =~= s2.remove(j).to_multiset().insert(x));
    }
}

} // verus!
