//! Verified core of a rocket-trajectory optimiser: the parts of the program that
//! decide things on whole numbers (trajectory decimation, the particle-swarm
//! start grid, which projected points are joined by lines, and the viewer's
//! input handling), with their contracts.

pub mod algo;
pub mod playback;
pub mod render;
pub mod simulation;
