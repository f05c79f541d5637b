//! A fixed-point, first-person raycasting renderer.
//!
//! Positions are measured in sub-cell units: one grid cell spans [`fixed::ONE`]
//! units. Directions are integer vectors on the same scale. The DDA ray march,
//! wall projection, billboard sprites and alpha compositing are all exact
//! integer computations, and each step carries a contract over a mathematical
//! model of the frame.

pub mod fixed;
pub mod world;
pub mod raycasting;
pub mod framebuffer;
pub mod renderer;
pub mod walls;
pub mod camera;
pub mod sprites;
pub mod scene;
