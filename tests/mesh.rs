use voxelengine::chunk::Chunk;
use voxelengine::examples::{example_chunks, solid_cube, solid_cube_weak_corner};
use voxelengine::ir::{ChunkIR, EdgeIR, QuadIR, TriagIR};
use voxelengine::mesh::{calculate_triag_normal, MeshBuffer, Normal, Uv};
use voxelengine::pos::Pos;
use voxelengine::viewer::ChunkResource;
use voxelengine::voxel::Matter;
use voxelengine::wireframe::{LineKind, Segment};

fn p(x: i8, y: i8, z: i8) -> Pos {
    Pos::new(x, y, z)
}

fn n(x: i32, y: i32, z: i32) -> Normal {
    Normal { x, y, z }
}

fn uv(u: u8, v: u8) -> Uv {
    Uv { u, v }
}

fn ir(quads: Vec<QuadIR>, triags: Vec<TriagIR>) -> ChunkIR {
    ChunkIR { quads, triags, edges: vec![] }
}

type Tri = (Pos, Pos, Pos, Normal);

fn triangles(m: &MeshBuffer) -> Vec<Tri> {
    m.indices
        .chunks(3)
        .map(|i| {
            let (a, b, c) = (i[0] as usize, i[1] as usize, i[2] as usize);
            (m.positions[a], m.positions[b], m.positions[c], m.normals[a])
        })
        .collect()
}

fn key(t: &Tri) -> (Pos, Pos, Pos, i32, i32, i32) {
    (t.0, t.1, t.2, t.3.x, t.3.y, t.3.z)
}

#[test]
fn normal_is_the_cross_product() {
    assert_eq!(calculate_triag_normal(p(0, 0, 0), p(1, 0, 0), p(0, 1, 0)), n(0, 0, 1));
    assert_eq!(calculate_triag_normal(p(0, 0, 0), p(0, 1, 0), p(1, 0, 0)), n(0, 0, -1));
    assert_eq!(calculate_triag_normal(p(1, 1, 1), p(1, 2, 1), p(1, 2, 2)), n(1, 0, 0));
    assert_eq!(calculate_triag_normal(p(0, 0, 0), p(2, 0, 0), p(0, 0, 3)), n(0, -6, 0));
    assert_eq!(
        calculate_triag_normal(p(-128, -128, -128), p(127, -128, -128), p(-128, 127, -128)),
        n(0, 0, 65025)
    );
    assert_eq!(calculate_triag_normal(p(0, 0, 0), p(1, 1, 1), p(2, 2, 2)), n(0, 0, 0));
}

#[test]
fn quad_gives_four_triangles() {
    let (a, b, c, d) = (p(0, 0, 0), p(0, 1, 0), p(0, 1, 1), p(0, 0, 1));
    let mesh = ir(vec![QuadIR { matter: Matter::Dirt, a, b, c, d }], vec![]).construct_mesh();
    assert_eq!(mesh.positions, vec![a, b, c, a, c, b, a, c, d, a, d, c]);
    let (up, down) = (n(1, 0, 0), n(-1, 0, 0));
    assert_eq!(mesh.normals, vec![up, up, up, down, down, down, up, up, up, down, down, down]);
    assert_eq!(
        mesh.uvs,
        vec![
            uv(0, 0), uv(0, 1), uv(1, 1),
            uv(0, 0), uv(1, 1), uv(0, 1),
            uv(0, 0), uv(1, 1), uv(1, 0),
            uv(0, 0), uv(1, 0), uv(1, 1),
        ]
    );
    assert_eq!(mesh.indices, (0..12).collect::<Vec<u32>>());
}

#[test]
fn triangle_gives_two_triangles() {
    let (a, b, c) = (p(2, 0, 0), p(2, 0, 1), p(3, 0, 0));
    let mesh = ir(vec![], vec![TriagIR { matter: Matter::Wood, a, b, c }]).construct_mesh();
    assert_eq!(mesh.positions, vec![a, b, c, a, c, b]);
    assert_eq!(mesh.normals, vec![n(0, 1, 0), n(0, 1, 0), n(0, 1, 0), n(0, -1, 0), n(0, -1, 0), n(0, -1, 0)]);
    assert_eq!(mesh.uvs, vec![uv(0, 0), uv(0, 1), uv(1, 1), uv(0, 0), uv(1, 1), uv(0, 1)]);
    assert_eq!(mesh.indices, vec![0, 1, 2, 3, 4, 5]);
}

#[test]
fn degenerate_faces_are_skipped() {
    let a = p(0, 0, 0);
    let mesh = ir(
        vec![QuadIR { matter: Matter::Dirt, a, b: a, c: p(1, 1, 0), d: p(0, 1, 0) }],
        vec![TriagIR { matter: Matter::Dirt, a, b: p(1, 0, 0), c: p(2, 0, 0) }],
    )
    .construct_mesh();
    assert!(mesh.positions.is_empty() && mesh.normals.is_empty());
    assert!(mesh.uvs.is_empty() && mesh.indices.is_empty());
}

#[test]
fn quads_come_before_triangles() {
    let q = QuadIR { matter: Matter::Dirt, a: p(0, 0, 0), b: p(1, 0, 0), c: p(1, 1, 0), d: p(0, 1, 0) };
    let t = TriagIR { matter: Matter::Dirt, a: p(5, 5, 5), b: p(5, 6, 5), c: p(5, 6, 6) };
    let mesh = ir(vec![q], vec![t]).construct_mesh();
    assert_eq!(mesh.positions.len(), 18);
    assert_eq!(mesh.positions[12], p(5, 5, 5));
    assert_eq!(mesh.indices[17], 17);
}

#[test]
fn every_face_is_double_sided() {
    for chunk in example_chunks() {
        let mesh = ChunkIR::construct_from_chunk(&chunk).construct_mesh();
        let tris = triangles(&mesh);
        assert_eq!(tris.len() % 2, 0);
        for pair in tris.chunks(2) {
            let (f, b) = (pair[0], pair[1]);
            assert_eq!((b.0, b.1, b.2), (f.0, f.2, f.1));
            assert_eq!(b.3, n(-f.3.x, -f.3.y, -f.3.z));
            assert!(f.3 != n(0, 0, 0));
        }
    }
}

#[test]
fn mesh_sizes_follow_the_geometry() {
    let geometry = ChunkIR::construct_from_chunk(&solid_cube_weak_corner());
    let mesh = geometry.construct_mesh();
    assert_eq!(mesh.positions.len(), 3 * (4 * 3 + 2 * 3));
    assert_eq!(mesh.normals.len(), mesh.positions.len());
    assert_eq!(mesh.uvs.len(), mesh.positions.len());
    assert_eq!(mesh.indices.len(), mesh.positions.len());
}

#[test]
fn mesh_is_a_function_of_the_chunk() {
    let first = ChunkIR::construct_from_chunk(&solid_cube()).construct_mesh();
    let second = ChunkIR::construct_from_chunk(&solid_cube()).construct_mesh();
    let mut a: Vec<_> = triangles(&first).iter().map(key).collect();
    let mut b: Vec<_> = triangles(&second).iter().map(key).collect();
    a.sort();
    b.sort();
    assert_eq!(a, b);
    assert_eq!(a.len(), 24);
}

#[test]
fn wireframe_outlines_faces_then_edges() {
    let (a, b, c, d) = (p(0, 0, 0), p(1, 0, 0), p(1, 1, 0), p(0, 1, 0));
    let (e, f, g) = (p(4, 4, 4), p(4, 5, 4), p(5, 4, 4));
    let geometry = ChunkIR {
        quads: vec![QuadIR { matter: Matter::Dirt, a, b, c, d }],
        triags: vec![TriagIR { matter: Matter::Dirt, a: e, b: f, c: g }],
        edges: vec![EdgeIR { matter: Matter::Wood, a: e, b: g }],
    };
    let face = |a, b| Segment { a, b, kind: LineKind::Face };
    assert_eq!(
        geometry.wireframe(),
        vec![
            face(a, b), face(b, c), face(c, a), face(a, c), face(c, d), face(d, a),
            face(e, f), face(f, g), face(g, e),
            Segment { a: e, b: g, kind: LineKind::Edge },
        ]
    );
    assert!(ChunkIR::construct_from_chunk(&Chunk::new()).wireframe().is_empty());
}

#[test]
fn chunk_resource_wraps_around() {
    let chunks: Vec<(Chunk, ChunkIR)> = example_chunks()
        .into_iter()
        .map(|c| {
            let ir = ChunkIR::construct_from_chunk(&c);
            (c, ir)
        })
        .collect();
    let mut res = ChunkResource::new(chunks);
    assert_eq!(res.len(), 4);
    assert_eq!(res.current_index(), 0);
    res.decrement_index();
    assert_eq!(res.current_index(), 3);
    res.increment_index();
    assert_eq!(res.current_index(), 0);
    res.increment_index();
    res.increment_index();
    assert_eq!(res.current_index(), 2);
    let (chunk, geometry) = res.current_chunk();
    assert!(chunk.get_voxel(&p(1, 1, 3)).is_some());
    assert_eq!(geometry.quads.len() + geometry.triags.len() > 0, true);
    res.increment_index();
    res.increment_index();
    assert_eq!(res.current_index(), 0);
}
