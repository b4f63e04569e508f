//! Voxel-world collision detection and rigid-body physics.
//!
//! The crate supplies two services to a host application:
//!
//! * broad-to-narrow-phase collision detection between two voxel volumes
//!   represented as sparse octrees, each carrying its own world transform;
//! * rigid-body mechanics (mass properties, linear and angular momentum,
//!   force and torque accumulation) for bodies composed of discrete unit
//!   masses at integer lattice positions.
//!
//! Mass and lattice positions use exact integer arithmetic, so mass and
//! inertia accumulation is exact.  World-space quantities (positions,
//! rotations, penetration vectors) use a fixed-point scalar with 32
//! fractional bits, so every geometric computation is deterministic and its
//! result is pinned down exactly by the contracts.

pub mod collision;
pub mod geometry;
pub mod octree;
pub mod physics;
pub mod storage;
pub mod voxel;
