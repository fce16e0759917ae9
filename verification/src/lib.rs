//! Adaptive tessellation of sampled curves into shader-ready quad meshes,
//! instanced markers for scatter series, and the bookkeeping that decides
//! when a curve has to be tessellated again.
//!
//! The library is generic over the coordinate type `S`: it never computes
//! with coordinates, it only places them. Every function states in its
//! contract exactly where each coordinate ends up.

pub mod classify;
pub mod engine;
pub mod geometry;
pub mod markers;
pub mod mesh;
pub mod rebuild;
pub mod sampler;
pub mod tessellate;
