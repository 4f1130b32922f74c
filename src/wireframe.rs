use vstd::prelude::*;

use crate::ir::{concat_map, ChunkIR, EdgeIR, QuadIR, TriagIR};
use crate::pos::Pos;

verus! {

/// What a wireframe segment outlines.
#[derive(Clone, Copy, Debug, PartialEq, Eq, Structural)]
pub enum LineKind {
    /// A side of a triangle of a face.
    Face,
    /// An edge of the geometry.
    Edge,
}

/// A segment of the debug wireframe.
#[derive(Clone, Copy, Debug, PartialEq, Eq, Structural)]
pub struct Segment {
    pub a: Pos,
    pub b: Pos,
    pub kind: LineKind,
}

pub open spec fn face_line(a: Pos, b: Pos) -> Segment {
    Segment { a, b, kind: LineKind::Face }
}

/// The outline of a quad: the sides of its halves a-b-c and a-c-d.
pub open spec fn quad_lines(q: QuadIR) -> Seq<Segment> {
    seq![
        face_line(q.a, q.b),
        face_line(q.b, q.c),
        face_line(q.c, q.a),
        face_line(q.a, q.c),
        face_line(q.c, q.d),
        face_line(q.d, q.a),
    ]
}

/// The outline of a triangle.
pub open spec fn triag_lines(t: TriagIR) -> Seq<Segment> {
    seq![face_line(t.a, t.b), face_line(t.b, t.c), face_line(t.c, t.a)]
}

pub open spec fn edge_lines(e: EdgeIR) -> Seq<Segment> {
    seq![Segment { a: e.a, b: e.b, kind: LineKind::Edge }]
}

/// The wireframe of a Chunk-IR: the outlines of its quads, then of its triangles, then its
/// edges.
pub open spec fn wireframe_of(ir: ChunkIR) -> Seq<Segment> {
    concat_map(ir.quads@, |q: QuadIR| quad_lines(q)) + concat_map(
        ir.triags@,
        |t: TriagIR| triag_lines(t),
    ) + concat_map(ir.edges@, |e: EdgeIR| edge_lines(e))
}

fn push_face_line(lines: &mut Vec<Segment>, a: Pos, b: Pos)
    ensures
        final(lines)@ == old(lines)@.push(face_line(a, b)),
{
    lines.push(Segment { a, b, kind: LineKind::Face });
}

impl ChunkIR {
    /// The segments that outline this geometry for inspection.
    pub fn wireframe(&self) -> (r: Vec<Segment>)
        ensures
            r@ == wireframe_of(*self),
    {
        let mut lines: Vec<Segment> = Vec::new();
        let mut i: usize = 0;
        while i < self.quads.len()
            invariant
                i <= self.quads@.len(),
                lines@ == concat_map(self.quads@.take(i as int), |q: QuadIR| quad_lines(q)),
            decreases self.quads@.len() - i,
        {
            let q = self.quads[i];
            let ghost before = lines@;
            push_face_line(&mut lines, q.a, q.b);
            push_face_line(&mut lines, q.b, q.c);
            push_face_line(&mut lines, q.c, q.a);
            push_face_line(&mut lines, q.a, q.c);
            push_face_line(&mut lines, q.c, q.d);
            push_face_line(&mut lines, q.d, q.a);
            assert(self.quads@.take(i + 1).drop_last() =~= self.quads@.take(i as int));
            assert(self.quads@.take(i + 1).last() == q);
            assert(lines@ =~= before + quad_lines(q));
            i = i + 1;
        }
        assert(self.quads@.take(self.quads@.len() as int) =~= self.quads@);
        let ghost quad_part = lines@;
        let mut j: usize = 0;
        while j < self.triags.len()
            invariant
                j <= self.triags@.len(),
                lines@ == quad_part + concat_map(
                    self.triags@.take(j as int),
                    |t: TriagIR| triag_lines(t),
                ),
            decreases self.triags@.len() - j,
        {
            let t = self.triags[j];
            let ghost before = lines@;
            push_face_line(&mut lines, t.a, t.b);
            push_face_line(&mut lines, t.b, t.c);
            push_face_line(&mut lines, t.c, t.a);
            assert(self.triags@.take(j + 1).drop_last() =~= self.triags@.take(j as int));
            assert(self.triags@.take(j + 1).last() == t);
            assert(lines@ =~= before + triag_lines(t));
            assert(lines@ =~= quad_part + concat_map(
                self.triags@.take(j + 1),
                |t: TriagIR| triag_lines(t),
            ));
            j = j + 1;
        }
        assert(self.triags@.take(self.triags@.len() as int) =~= self.triags@);
        let ghost face_part = lines@;
        let mut k: usize = 0;
        while k < self.edges.len()
            invariant
                k <= self.edges@.len(),
                lines@ == face_part + concat_map(self.edges@.take(k as int), |e: EdgeIR| edge_lines(e)),
            decreases self.edges@.len() - k,
        {
            let e = self.edges[k];
            let ghost before = lines@;
            lines.push(Segment { a: e.a, b: e.b, kind: LineKind::Edge });
            assert(self.edges@.take(k + 1).drop_last() =~= self.edges@.take(k as int));
            assert(self.edges@.take(k + 1).last() == e);
            assert(lines@ =~= before + edge_lines(e));
            assert(lines@ =~= face_part + concat_map(
                self.edges@.take(k + 1),
                |e: EdgeIR| edge_lines(e),
            ));
            k = k + 1;
        }
        assert(self.edges@.take(self.edges@.len() as int) =~= self.edges@);
        lines
    }
}

} // verus!
