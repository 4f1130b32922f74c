use voxelengine::chunk::Chunk;
use voxelengine::examples::{
    example_chunks, solid_cube, solid_cube_3weak_corners, solid_cube_on_plane,
    solid_cube_weak_corner,
};
use voxelengine::ir::{ChunkIR, QuadIR, TriagIR};
use voxelengine::pos::Pos;
use voxelengine::voxel::{Corner, Matter, Voxel};

fn p(x: i8, y: i8, z: i8) -> Pos {
    Pos::new(x, y, z)
}

fn quad_corners(quads: &[QuadIR]) -> Vec<(Pos, Pos, Pos, Pos)> {
    let mut r: Vec<_> = quads.iter().map(|q| (q.a, q.b, q.c, q.d)).collect();
    r.sort();
    r
}

fn triag_corners(triags: &[TriagIR]) -> Vec<(Pos, Pos, Pos)> {
    let mut r: Vec<_> = triags.iter().map(|t| (t.a, t.b, t.c)).collect();
    r.sort();
    r
}

fn sorted<T: Ord>(mut v: Vec<T>) -> Vec<T> {
    v.sort();
    v
}

#[test]
fn solid_cube_gives_six_quads() {
    let ir = ChunkIR::construct_from_chunk(&solid_cube());
    let expected = sorted(vec![
        (p(1, 1, 1), p(1, 2, 1), p(1, 2, 2), p(1, 1, 2)),
        (p(1, 1, 1), p(2, 1, 1), p(2, 1, 2), p(1, 1, 2)),
        (p(1, 1, 1), p(2, 1, 1), p(2, 2, 1), p(1, 2, 1)),
        (p(1, 1, 2), p(2, 1, 2), p(2, 2, 2), p(1, 2, 2)),
        (p(2, 1, 1), p(2, 2, 1), p(2, 2, 2), p(2, 1, 2)),
        (p(1, 2, 1), p(2, 2, 1), p(2, 2, 2), p(1, 2, 2)),
    ]);
    assert_eq!(quad_corners(&ir.quads), expected);
    assert!(ir.triags.is_empty());
    assert!(ir.edges.is_empty());
    assert!(ir.quads.iter().all(|q| q.matter == Matter::Dirt));
}

#[test]
fn weak_corner_turns_its_faces_into_triangles() {
    let ir = ChunkIR::construct_from_chunk(&solid_cube_weak_corner());
    let quads = sorted(vec![
        (p(1, 1, 1), p(1, 2, 1), p(1, 2, 2), p(1, 1, 2)),
        (p(1, 1, 1), p(2, 1, 1), p(2, 1, 2), p(1, 1, 2)),
        (p(1, 1, 2), p(2, 1, 2), p(2, 2, 2), p(1, 2, 2)),
    ]);
    let triags = sorted(vec![
        (p(1, 1, 1), p(2, 1, 1), p(1, 2, 1)),
        (p(2, 1, 1), p(2, 2, 2), p(2, 1, 2)),
        (p(1, 2, 1), p(2, 2, 2), p(1, 2, 2)),
    ]);
    assert_eq!(quad_corners(&ir.quads), quads);
    assert_eq!(triag_corners(&ir.triags), triags);
    for t in triag_corners(&ir.triags) {
        assert!(t.0 != p(2, 2, 1) && t.1 != p(2, 2, 1) && t.2 != p(2, 2, 1));
    }
}

#[test]
fn three_weak_corners_leave_one_quad_and_two_triangles() {
    let ir = ChunkIR::construct_from_chunk(&solid_cube_3weak_corners());
    assert_eq!(
        quad_corners(&ir.quads),
        vec![(p(1, 1, 1), p(2, 1, 1), p(2, 1, 2), p(1, 1, 2))]
    );
    assert_eq!(
        triag_corners(&ir.triags),
        sorted(vec![
            (p(1, 1, 1), p(1, 2, 1), p(1, 1, 2)),
            (p(1, 1, 1), p(2, 1, 1), p(1, 2, 1)),
        ])
    );
}

#[test]
fn isolated_cell_gives_nothing() {
    for corner in [Corner::Strong, Corner::Weak, Corner::Air] {
        let mut chunk = Chunk::new();
        let d = Some(Matter::Dirt);
        assert_eq!(chunk.insert(p(5, 5, 5), Voxel::new(d, d, d, corner)), Ok(()));
        let ir = ChunkIR::construct_from_chunk(&chunk);
        assert!(ir.quads.is_empty());
        assert!(ir.triags.is_empty());
    }
}

#[test]
fn air_cell_contributes_no_faces() {
    let mut chunk = solid_cube();
    let d = Some(Matter::Dirt);
    chunk.insert(p(1, 1, 1), Voxel::new(d, d, d, Corner::Air)).unwrap();
    let ir = ChunkIR::construct_from_chunk(&chunk);
    assert_eq!(ir.quads.len(), 3);
    assert!(ir.quads.iter().all(|q| q.a != p(1, 1, 1)));
}

#[test]
fn empty_chunk_gives_nothing() {
    let ir = ChunkIR::construct_from_chunk(&Chunk::new());
    assert!(ir.quads.is_empty() && ir.triags.is_empty() && ir.edges.is_empty());
}

#[test]
fn cells_are_visited_in_the_given_order() {
    let chunk = solid_cube();
    let d = Some(Matter::Dirt);
    let n = None;
    let cells = vec![
        (p(1, 1, 2), Voxel::new(n, n, d, Corner::Strong)),
        (p(1, 1, 1), Voxel::new(d, d, d, Corner::Strong)),
    ];
    let ir = ChunkIR::construct_from_cells(&chunk, &cells);
    let corners: Vec<_> = ir.quads.iter().map(|q| (q.a, q.b, q.c, q.d)).collect();
    assert_eq!(
        corners,
        vec![
            (p(1, 1, 2), p(2, 1, 2), p(2, 2, 2), p(1, 2, 2)),
            (p(1, 1, 1), p(1, 2, 1), p(1, 2, 2), p(1, 1, 2)),
            (p(1, 1, 1), p(2, 1, 1), p(2, 1, 2), p(1, 1, 2)),
            (p(1, 1, 1), p(2, 1, 1), p(2, 2, 1), p(1, 2, 1)),
        ]
    );
}

#[test]
fn material_is_carried_per_axis() {
    let mut chunk = solid_cube();
    let w = Some(Matter::Wood);
    let d = Some(Matter::Dirt);
    chunk.insert(p(1, 1, 1), Voxel::new(w, None, d, Corner::Strong)).unwrap();
    let ir = ChunkIR::construct_from_chunk(&chunk);
    let from_origin: Vec<_> = ir.quads.iter().filter(|q| q.a == p(1, 1, 1)).collect();
    assert_eq!(from_origin.len(), 2);
    for q in from_origin {
        if q.b == p(1, 2, 1) {
            assert_eq!(q.matter, Matter::Wood);
        } else {
            assert_eq!(q.b, p(2, 1, 1));
            assert_eq!(q.matter, Matter::Dirt);
        }
    }
}

#[test]
fn cube_on_plane_extracts_ground_and_cube() {
    let ir = ChunkIR::construct_from_chunk(&solid_cube_on_plane());
    let quads = quad_corners(&ir.quads);
    assert!(quads.contains(&(p(0, 1, 0), p(1, 1, 0), p(1, 1, 1), p(0, 1, 1))));
    assert!(quads.contains(&(p(1, 1, 2), p(2, 1, 2), p(2, 2, 2), p(1, 2, 2))));
    assert!(quads.contains(&(p(0, 0, 0), p(0, 1, 0), p(0, 1, 1), p(0, 0, 1))));
    assert_eq!(ir.quads.len() + ir.triags.len() > 6, true);
}

#[test]
fn example_chunks_in_order() {
    let chunks = example_chunks();
    assert_eq!(chunks.len(), 4);
    assert_eq!(chunks[0].get_voxel(&p(2, 2, 1)).unwrap().corner, Corner::Strong);
    assert_eq!(chunks[1].get_voxel(&p(2, 2, 1)).unwrap().corner, Corner::Weak);
    assert_eq!(chunks[2].get_voxel(&p(1, 1, 3)).unwrap().corner, Corner::Weak);
    assert_eq!(chunks[3].get_voxel(&p(2, 2, 2)).unwrap().corner, Corner::Weak);
    assert_eq!(chunks[2].cells().len(), 22);
}

#[test]
fn rebuilding_gives_the_same_geometry() {
    let chunk = solid_cube_on_plane();
    let a = ChunkIR::construct_from_chunk(&chunk);
    let b = ChunkIR::construct_from_chunk(&chunk);
    assert_eq!(quad_corners(&a.quads), quad_corners(&b.quads));
    assert_eq!(triag_corners(&a.triags), triag_corners(&b.triags));
}

fn quad_key(q: &QuadIR) -> (Pos, Pos, Pos, Pos, bool) {
    (q.a, q.b, q.c, q.d, q.matter == Matter::Dirt)
}

fn triag_key(a: Pos, b: Pos, c: Pos, m: Matter) -> (Pos, Pos, Pos, bool) {
    (a, b, c, m == Matter::Dirt)
}

#[test]
fn weakening_any_strong_corner_cuts_exactly_its_faces() {
    let chunk = solid_cube_on_plane();
    let before = ChunkIR::construct_from_chunk(&chunk);
    for (p, v) in chunk.cells() {
        if v.corner != Corner::Strong {
            continue;
        }
        let cells: Vec<_> = chunk
            .cells()
            .into_iter()
            .map(|(q, w)| if q == p { (q, Voxel { corner: Corner::Weak, ..w }) } else { (q, w) })
            .collect();
        let after = ChunkIR::construct_from_chunk(&Chunk::from_cells(cells).unwrap());
        let touches = |ps: &[Pos]| ps.contains(&p);

        let expected_quads = sorted(
            before.quads.iter().filter(|q| !touches(&[q.a, q.b, q.c, q.d])).map(quad_key).collect(),
        );
        let mut expected_triags: Vec<_> = before
            .triags
            .iter()
            .filter(|t| !touches(&[t.a, t.b, t.c]))
            .map(|t| triag_key(t.a, t.b, t.c, t.matter))
            .collect();
        for q in before.quads.iter().filter(|q| touches(&[q.a, q.b, q.c, q.d])) {
            let rest: Vec<Pos> = [q.a, q.b, q.c, q.d].into_iter().filter(|c| *c != p).collect();
            expected_triags.push(triag_key(rest[0], rest[1], rest[2], q.matter));
        }
        assert_eq!(sorted(after.quads.iter().map(quad_key).collect()), expected_quads);
        assert_eq!(
            sorted(after.triags.iter().map(|t| triag_key(t.a, t.b, t.c, t.matter)).collect()),
            sorted(expected_triags)
        );
    }
}
