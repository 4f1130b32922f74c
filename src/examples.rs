use vstd::prelude::*;

use crate::chunk::{cells_map, Chunk};
use crate::pos::Pos;
use crate::voxel::{Corner, Matter, Voxel};

verus! {

/// A cell at (x, y, z) whose faces marked `true` are filled with dirt.
pub open spec fn dirt_cell(
    x: i8,
    y: i8,
    z: i8,
    x_side: bool,
    y_side: bool,
    z_side: bool,
    corner: Corner,
) -> (Pos, Voxel) {
    let fill = |filled: bool|
        if filled {
            Some(Matter::Dirt)
        } else {
            None
        };
    let voxel = Voxel {
        x_side: fill(x_side),
        y_side: fill(y_side),
        z_side: fill(z_side),
        inner: None,
        corner,
    };
    (Pos { x, y, z }, voxel)
}

fn cell(
    x: i8,
    y: i8,
    z: i8,
    x_side: bool,
    y_side: bool,
    z_side: bool,
    corner: Corner,
) -> (r: (Pos, Voxel))
    ensures
        r == dirt_cell(x, y, z, x_side, y_side, z_side, corner),
{
    let dirt = Some(Matter::Dirt);
    let x_fill = if x_side { dirt } else { None };
    let y_fill = if y_side { dirt } else { None };
    let z_fill = if z_side { dirt } else { None };
    (Pos::new(x, y, z), Voxel::new(x_fill, y_fill, z_fill, corner))
}

fn chunk_of(cells: Vec<(Pos, Voxel)>) -> (r: Chunk)
    requires
        forall|i: int| 0 <= i < cells@.len() ==> (#[trigger] cells@[i]).0.spans_cell(),
    ensures
        r.wf(),
        r.voxel_map() == cells_map(cells@),
{
    match Chunk::from_cells(cells) {
        Ok(chunk) => chunk,
        Err(_) => Chunk::new(),
    }
}

/// The cells of `solid_cube`.
pub open spec fn solid_cube_cells() -> Seq<(Pos, Voxel)> {
    seq![
        dirt_cell(1, 1, 1, true, true, true, Corner::Strong),
        dirt_cell(1, 1, 2, false, false, true, Corner::Strong),
        dirt_cell(2, 1, 1, true, false, false, Corner::Strong),
        dirt_cell(1, 2, 1, false, true, false, Corner::Strong),
        dirt_cell(2, 1, 2, false, false, false, Corner::Strong),
        dirt_cell(2, 2, 2, false, false, false, Corner::Strong),
        dirt_cell(2, 2, 1, false, false, false, Corner::Strong),
        dirt_cell(1, 2, 2, false, false, false, Corner::Strong),
    ]
}

/// A unit cube of dirt: the cells at its low corner carry the faces, the other corners
/// support them; all strong.
pub fn solid_cube() -> (r: Chunk)
    ensures
        r.wf(),
        r.voxel_map() == cells_map(solid_cube_cells()),
{
    let cells = vec![
        cell(1, 1, 1, true, true, true, Corner::Strong),
        cell(1, 1, 2, false, false, true, Corner::Strong),
        cell(2, 1, 1, true, false, false, Corner::Strong),
        cell(1, 2, 1, false, true, false, Corner::Strong),
        cell(2, 1, 2, false, false, false, Corner::Strong),
        cell(2, 2, 2, false, false, false, Corner::Strong),
        cell(2, 2, 1, false, false, false, Corner::Strong),
        cell(1, 2, 2, false, false, false, Corner::Strong),
    ];
    assert(cells@ == solid_cube_cells());
    chunk_of(cells)
}

/// The cells of `solid_cube_weak_corner`.
pub open spec fn solid_cube_weak_corner_cells() -> Seq<(Pos, Voxel)> {
    seq![
        dirt_cell(1, 1, 1, true, true, true, Corner::Strong),
        dirt_cell(1, 1, 2, false, false, true, Corner::Strong),
        dirt_cell(2, 1, 1, true, false, false, Corner::Strong),
        dirt_cell(1, 2, 1, false, true, false, Corner::Strong),
        dirt_cell(2, 1, 2, false, false, false, Corner::Strong),
        dirt_cell(2, 2, 2, false, false, false, Corner::Strong),
        dirt_cell(2, 2, 1, false, false, false, Corner::Weak),
        dirt_cell(1, 2, 2, false, false, false, Corner::Strong),
    ]
}

/// The solid cube with the support corner (2, 2, 1) weak.
pub fn solid_cube_weak_corner() -> (r: Chunk)
    ensures
        r.wf(),
        r.voxel_map() == cells_map(solid_cube_weak_corner_cells()),
{
    let cells = vec![
        cell(1, 1, 1, true, true, true, Corner::Strong),
        cell(1, 1, 2, false, false, true, Corner::Strong),
        cell(2, 1, 1, true, false, false, Corner::Strong),
        cell(1, 2, 1, false, true, false, Corner::Strong),
        cell(2, 1, 2, false, false, false, Corner::Strong),
        cell(2, 2, 2, false, false, false, Corner::Strong),
        cell(2, 2, 1, false, false, false, Corner::Weak),
        cell(1, 2, 2, false, false, false, Corner::Strong),
    ];
    assert(cells@ == solid_cube_weak_corner_cells());
    chunk_of(cells)
}

/// The cells of `solid_cube_3weak_corners`.
pub open spec fn solid_cube_3weak_corners_cells() -> Seq<(Pos, Voxel)> {
    seq![
        dirt_cell(1, 1, 1, true, true, true, Corner::Strong),
        dirt_cell(1, 1, 2, false, false, true, Corner::Strong),
        dirt_cell(2, 1, 1, true, false, false, Corner::Strong),
        dirt_cell(1, 2, 1, false, true, false, Corner::Strong),
        dirt_cell(2, 1, 2, false, false, false, Corner::Strong),
        dirt_cell(2, 2, 2, false, false, false, Corner::Weak),
        dirt_cell(2, 2, 1, false, false, false, Corner::Weak),
        dirt_cell(1, 2, 2, false, false, false, Corner::Weak),
    ]
}

/// The solid cube with the support corners (2, 2, 2), (2, 2, 1) and (1, 2, 2) weak.
pub fn solid_cube_3weak_corners() -> (r: Chunk)
    ensures
        r.wf(),
        r.voxel_map() == cells_map(solid_cube_3weak_corners_cells()),
{
    let cells = vec![
        cell(1, 1, 1, true, true, true, Corner::Strong),
        cell(1, 1, 2, false, false, true, Corner::Strong),
        cell(2, 1, 1, true, false, false, Corner::Strong),
        cell(1, 2, 1, false, true, false, Corner::Strong),
        cell(2, 1, 2, false, false, false, Corner::Strong),
        cell(2, 2, 2, false, false, false, Corner::Weak),
        cell(2, 2, 1, false, false, false, Corner::Weak),
        cell(1, 2, 2, false, false, false, Corner::Weak),
    ];
    assert(cells@ == solid_cube_3weak_corners_cells());
    chunk_of(cells)
}

/// The cells of `solid_cube_on_plane`.
pub open spec fn solid_cube_on_plane_cells() -> Seq<(Pos, Voxel)> {
    seq![
        dirt_cell(0, 0, 0, true, false, false, Corner::Strong),
        dirt_cell(0, 0, 1, true, false, false, Corner::Strong),
        dirt_cell(0, 0, 2, true, false, false, Corner::Strong),
        dirt_cell(0, 0, 3, true, false, false, Corner::Strong),
        dirt_cell(0, 0, 4, false, false, true, Corner::Strong),
        dirt_cell(0, 1, 0, false, true, false, Corner::Strong),
        dirt_cell(0, 1, 1, false, true, false, Corner::Strong),
        dirt_cell(0, 1, 2, false, true, false, Corner::Strong),
        dirt_cell(0, 1, 3, false, true, false, Corner::Strong),
        dirt_cell(0, 1, 4, false, false, false, Corner::Strong),
        dirt_cell(1, 1, 0, false, true, false, Corner::Strong),
        dirt_cell(2, 1, 0, false, true, false, Corner::Strong),
        dirt_cell(2, 1, 1, false, true, false, Corner::Strong),
        dirt_cell(2, 1, 2, false, true, false, Corner::Strong),
        dirt_cell(3, 1, 0, false, true, false, Corner::Strong),
        dirt_cell(1, 1, 1, true, true, true, Corner::Strong),
        dirt_cell(1, 1, 2, false, false, true, Corner::Strong),
        dirt_cell(2, 1, 1, true, false, false, Corner::Strong),
        dirt_cell(1, 2, 1, false, true, false, Corner::Strong),
        dirt_cell(2, 1, 2, false, false, false, Corner::Strong),
        dirt_cell(2, 2, 2, false, false, false, Corner::Strong),
        dirt_cell(2, 2, 1, false, false, false, Corner::Strong),
        dirt_cell(1, 2, 2, false, false, false, Corner::Strong),
        dirt_cell(1, 1, 3, false, false, false, Corner::Weak),
    ]
}

/// The solid cube standing on a patch of ground, with a weak corner beside it.
pub fn solid_cube_on_plane() -> (r: Chunk)
    ensures
        r.wf(),
        r.voxel_map() == cells_map(solid_cube_on_plane_cells()),
{
    let cells = vec![
        cell(0, 0, 0, true, false, false, Corner::Strong),
        cell(0, 0, 1, true, false, false, Corner::Strong),
        cell(0, 0, 2, true, false, false, Corner::Strong),
        cell(0, 0, 3, true, false, false, Corner::Strong),
        cell(0, 0, 4, false, false, true, Corner::Strong),
        cell(0, 1, 0, false, true, false, Corner::Strong),
        cell(0, 1, 1, false, true, false, Corner::Strong),
        cell(0, 1, 2, false, true, false, Corner::Strong),
        cell(0, 1, 3, false, true, false, Corner::Strong),
        cell(0, 1, 4, false, false, false, Corner::Strong),
        cell(1, 1, 0, false, true, false, Corner::Strong),
        cell(2, 1, 0, false, true, false, Corner::Strong),
        cell(2, 1, 1, false, true, false, Corner::Strong),
        cell(2, 1, 2, false, true, false, Corner::Strong),
        cell(3, 1, 0, false, true, false, Corner::Strong),
        cell(1, 1, 1, true, true, true, Corner::Strong),
        cell(1, 1, 2, false, false, true, Corner::Strong),
        cell(2, 1, 1, true, false, false, Corner::Strong),
        cell(1, 2, 1, false, true, false, Corner::Strong),
        cell(2, 1, 2, false, false, false, Corner::Strong),
        cell(2, 2, 2, false, false, false, Corner::Strong),
        cell(2, 2, 1, false, false, false, Corner::Strong),
        cell(1, 2, 2, false, false, false, Corner::Strong),
        cell(1, 1, 3, false, false, false, Corner::Weak),
    ];
    assert(cells@ == solid_cube_on_plane_cells());
    chunk_of(cells)
}

/// The example chunks, in the order in which a viewer shows them.
pub fn example_chunks() -> (r: Vec<Chunk>)
    ensures
        r@.len() == 4,
        forall|i: int| 0 <= i < 4 ==> (#[trigger] r@[i]).wf(),
        r@[0].voxel_map() == cells_map(solid_cube_cells()),
        r@[1].voxel_map() == cells_map(solid_cube_weak_corner_cells()),
        r@[2].voxel_map() == cells_map(solid_cube_on_plane_cells()),
        r@[3].voxel_map() == cells_map(solid_cube_3weak_corners_cells()),
{
    let mut r: Vec<Chunk> = Vec::new();
    r.push(solid_cube());
    r.push(solid_cube_weak_corner());
    r.push(solid_cube_on_plane());
    r.push(solid_cube_3weak_corners());
    r
}

} // verus!
