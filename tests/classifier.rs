use voxelengine::chunk::{Chunk, ChunkError, Corners, InnerSide, Side, VoxelCornerInfo};
use voxelengine::pos::Pos;
use voxelengine::voxel::{Corner, Matter, Voxel};

fn p(x: i8, y: i8, z: i8) -> Pos {
    Pos::new(x, y, z)
}

fn cube_positions(o: Pos) -> Corners<Pos> {
    Corners {
        o,
        x: o.plus_x(),
        y: o.plus_y(),
        z: o.plus_z(),
        xy: o.plus_xy(),
        xz: o.plus_xz(),
        yz: o.plus_yz(),
        xyz: o.plus_xyz(),
    }
}

fn info(cor: Corners<Corner>) -> VoxelCornerInfo {
    VoxelCornerInfo { cor, pos: cube_positions(p(0, 0, 0)) }
}

fn all(c: Corner) -> Corners<Corner> {
    Corners { o: c, x: c, y: c, z: c, xy: c, xz: c, yz: c, xyz: c }
}

const STRENGTHS: [Corner; 3] = [Corner::Air, Corner::Weak, Corner::Strong];

#[test]
fn classifier_covers_all_81_patterns() {
    let (mut quads, mut triags, mut empty) = (0, 0, 0);
    for o in STRENGTHS {
        for y in STRENGTHS {
            for yz in STRENGTHS {
                for z in STRENGTHS {
                    let mut cor = all(Corner::Strong);
                    cor.o = o;
                    cor.y = y;
                    cor.yz = yz;
                    cor.z = z;
                    let four = [o, y, yz, z];
                    let strong = four.iter().filter(|c| **c == Corner::Strong).count();
                    let weak = four.iter().filter(|c| **c == Corner::Weak).count();
                    match info(cor).x_side() {
                        Side::Quad(..) => {
                            assert_eq!(strong, 4);
                            quads += 1;
                        }
                        Side::Triag(..) => {
                            assert_eq!((strong, weak), (3, 1));
                            triags += 1;
                        }
                        Side::Empty => {
                            assert!(strong != 4 && !(strong == 3 && weak == 1));
                            empty += 1;
                        }
                    }
                }
            }
        }
    }
    assert_eq!((quads, triags, empty), (1, 4, 76));
}

#[test]
fn x_side_table() {
    let pos = cube_positions(p(0, 0, 0));
    let mut cor = all(Corner::Strong);
    assert_eq!(info(cor).x_side(), Side::Quad(pos.o, pos.y, pos.yz, pos.z));
    cor.o = Corner::Weak;
    assert_eq!(info(cor).x_side(), Side::Triag(pos.y, pos.yz, pos.z));
    cor = all(Corner::Strong);
    cor.y = Corner::Weak;
    assert_eq!(info(cor).x_side(), Side::Triag(pos.o, pos.yz, pos.z));
    cor = all(Corner::Strong);
    cor.yz = Corner::Weak;
    assert_eq!(info(cor).x_side(), Side::Triag(pos.o, pos.y, pos.z));
    cor = all(Corner::Strong);
    cor.z = Corner::Weak;
    assert_eq!(info(cor).x_side(), Side::Triag(pos.o, pos.y, pos.yz));
    cor.y = Corner::Weak;
    assert_eq!(info(cor).x_side(), Side::Empty);
}

#[test]
fn y_side_table() {
    let pos = cube_positions(p(0, 0, 0));
    let mut cor = all(Corner::Strong);
    assert_eq!(info(cor).y_side(), Side::Quad(pos.o, pos.x, pos.xz, pos.z));
    cor.xz = Corner::Weak;
    assert_eq!(info(cor).y_side(), Side::Triag(pos.o, pos.x, pos.z));
    cor = all(Corner::Strong);
    cor.x = Corner::Air;
    assert_eq!(info(cor).y_side(), Side::Empty);
    cor = all(Corner::Strong);
    cor.y = Corner::Air;
    assert_eq!(info(cor).y_side(), Side::Quad(pos.o, pos.x, pos.xz, pos.z));
}

#[test]
fn z_side_table() {
    let pos = cube_positions(p(0, 0, 0));
    let mut cor = all(Corner::Strong);
    assert_eq!(info(cor).z_side(), Side::Quad(pos.o, pos.x, pos.xy, pos.y));
    cor.y = Corner::Weak;
    assert_eq!(info(cor).z_side(), Side::Triag(pos.o, pos.x, pos.xy));
    cor = all(Corner::Strong);
    cor.x = Corner::Weak;
    assert_eq!(info(cor).z_side(), Side::Triag(pos.o, pos.xy, pos.y));
    cor = all(Corner::Weak);
    assert_eq!(info(cor).z_side(), Side::Empty);
}

#[test]
fn inner_side_single_weak_corners() {
    let pos = cube_positions(p(0, 0, 0));
    let mut cor = all(Corner::Strong);
    assert!(matches!(info(cor).inner_side(), InnerSide::Empty));
    cor.o = Corner::Weak;
    assert!(matches!(info(cor).inner_side(), InnerSide::Triag(a, b, c) if (a, b, c) == (pos.x, pos.y, pos.z)));
    cor = all(Corner::Strong);
    cor.z = Corner::Weak;
    assert!(matches!(info(cor).inner_side(), InnerSide::Triag(a, b, c) if (a, b, c) == (pos.o, pos.xz, pos.yz)));
    cor = all(Corner::Strong);
    cor.xz = Corner::Weak;
    assert!(matches!(info(cor).inner_side(), InnerSide::Triag(a, b, c) if (a, b, c) == (pos.x, pos.xyz, pos.z)));
    cor = all(Corner::Strong);
    cor.x = Corner::Weak;
    assert!(matches!(info(cor).inner_side(), InnerSide::Triag(a, b, c) if (a, b, c) == (pos.o, pos.xy, pos.xz)));
    cor = all(Corner::Strong);
    cor.xy = Corner::Weak;
    assert!(matches!(info(cor).inner_side(), InnerSide::Empty));
    cor.x = Corner::Weak;
    assert!(matches!(info(cor).inner_side(), InnerSide::Empty));
}

#[test]
fn absent_positions_are_air() {
    let mut chunk = Chunk::new();
    let d = Some(Matter::Dirt);
    chunk.insert(p(0, 0, 0), Voxel::new(d, d, d, Corner::Strong)).unwrap();
    chunk.insert(p(0, 1, 0), Voxel::new(None, None, None, Corner::Weak)).unwrap();
    assert_eq!(chunk.get_voxel_corner(&p(0, 0, 0)), Corner::Strong);
    assert_eq!(chunk.get_voxel_corner(&p(0, 1, 0)), Corner::Weak);
    assert_eq!(chunk.get_voxel_corner(&p(3, 3, 3)), Corner::Air);
    assert_eq!(chunk.get_voxel(&p(3, 3, 3)), None);

    let info = chunk.get_voxel_corner_info(p(0, 0, 0), Corner::Strong);
    assert_eq!(info.cor.o, Corner::Strong);
    assert_eq!(info.cor.y, Corner::Weak);
    assert_eq!(info.cor.x, Corner::Air);
    assert_eq!(info.cor.xyz, Corner::Air);
    assert_eq!(info.pos.xyz, p(1, 1, 1));
    assert_eq!(info.pos.yz, p(0, 1, 1));
    assert_eq!(info.x_side(), Side::Empty);
    assert_eq!(info.y_side(), Side::Empty);
    assert_eq!(info.z_side(), Side::Empty);
}

#[test]
fn insert_replaces_and_rejects_the_top_coordinate() {
    let mut chunk = Chunk::new();
    let v = Voxel::new(None, None, None, Corner::Strong);
    assert_eq!(chunk.insert(p(126, -128, 0), v), Ok(()));
    assert_eq!(chunk.get_voxel(&p(126, -128, 0)), Some(v));
    let w = Voxel::new(Some(Matter::Wood), None, None, Corner::Weak);
    assert_eq!(chunk.insert(p(126, -128, 0), w), Ok(()));
    assert_eq!(chunk.get_voxel(&p(126, -128, 0)), Some(w));
    assert_eq!(chunk.cells().len(), 1);
    assert_eq!(chunk.insert(p(127, 0, 0), v), Err(ChunkError::CoordinateOutOfRange));
    assert_eq!(chunk.insert(p(0, 127, 0), v), Err(ChunkError::CoordinateOutOfRange));
    assert_eq!(chunk.insert(p(0, 0, 127), v), Err(ChunkError::CoordinateOutOfRange));
    assert_eq!(chunk.get_voxel(&p(127, 0, 0)), None);
    assert_eq!(chunk.cells().len(), 1);
}

#[test]
fn from_cells_last_wins_and_rejects_out_of_range() {
    let a = Voxel::new(None, None, None, Corner::Strong);
    let b = Voxel::new(None, None, None, Corner::Weak);
    let chunk = Chunk::from_cells(vec![(p(1, 2, 3), a), (p(1, 2, 3), b), (p(0, 0, 0), a)]).unwrap();
    assert_eq!(chunk.get_voxel(&p(1, 2, 3)), Some(b));
    let mut cells = chunk.cells();
    cells.sort_by_key(|c| c.0);
    assert_eq!(cells, vec![(p(0, 0, 0), a), (p(1, 2, 3), b)]);
    assert_eq!(
        Chunk::from_cells(vec![(p(0, 0, 0), a), (p(-1, 127, 0), a)]).err(),
        Some(ChunkError::CoordinateOutOfRange)
    );
    assert!(Chunk::from_cells(vec![]).unwrap().cells().is_empty());
}

#[test]
fn corner_predicates() {
    assert!(Corner::Strong.strong() && !Corner::Strong.weak() && !Corner::Strong.air());
    assert!(Corner::Weak.weak() && !Corner::Weak.strong() && !Corner::Weak.air());
    assert!(Corner::Air.air() && !Corner::Air.strong() && !Corner::Air.weak());
    assert_eq!(Corner::default(), Corner::Air);
}

#[test]
fn voxel_new_leaves_inner_empty() {
    let v = Voxel::new(Some(Matter::Dirt), None, Some(Matter::Wood), Corner::Weak);
    assert_eq!(v.x_side, Some(Matter::Dirt));
    assert_eq!(v.y_side, None);
    assert_eq!(v.z_side, Some(Matter::Wood));
    assert_eq!(v.inner, None);
    assert_eq!(v.corner, Corner::Weak);
}

#[test]
fn position_steps() {
    let o = p(-3, 0, 126);
    assert_eq!(o.plus_x(), p(-2, 0, 126));
    assert_eq!(o.plus_y(), p(-3, 1, 126));
    assert_eq!(o.plus_z(), p(-3, 0, 127));
    assert_eq!(o.plus_xy(), p(-2, 1, 126));
    assert_eq!(o.plus_xz(), p(-2, 0, 127));
    assert_eq!(o.plus_yz(), p(-3, 1, 127));
    assert_eq!(o.plus_xyz(), p(-2, 1, 127));
}

#[test]
fn position_arithmetic() {
    assert_eq!(p(1, 2, 3) + p(10, -20, 30), p(11, -18, 33));
    assert_eq!(p(126, -128, 0) + p(1, 0, 127), p(127, -128, 127));
    assert_eq!(p(1, 2, 3) - p(3, 2, 1), p(-2, 0, 2));
    assert_eq!(p(-127, 0, 0) - p(1, 0, 0), p(-128, 0, 0));
    let mut q = p(1, 1, 1);
    q += p(2, 3, 4);
    assert_eq!(q, p(3, 4, 5));
    q -= p(3, 4, 5);
    assert_eq!(q, p(0, 0, 0));
}
