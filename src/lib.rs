pub mod pos;
pub mod voxel;
pub mod chunk;
pub mod ir;
pub mod mesh;
pub mod examples;
pub mod viewer;
pub mod wireframe;
pub mod demotion;
