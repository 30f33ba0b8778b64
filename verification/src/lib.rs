//! A sparse voxel octree kept in a flat, GPU-indexable node array.
//!
//! The tree represents a cubic volume at variable resolution. Nodes live in
//! one preallocated array and refer to their children by index, so the whole
//! structure serializes to a linear buffer that a raymarching shader can walk
//! with the same slot encoding the insertion code uses.

pub mod controller;
pub mod encoding;
pub mod laws;
pub mod model;
pub mod node;
pub mod octree;

pub use controller::{CameraController, KeyInput};
pub use encoding::Slot;
pub use node::OctreeNode;
pub use octree::{CapacityExhausted, VoxelAddress, VoxelBuffer};
