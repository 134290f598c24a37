//! Core of a Gray-Scott reaction-diffusion simulator.
//!
//! The crate holds the verified parts of the simulation: packed ARGB pixels
//! and fixed-size pixel frames, a generic dense grid with bounds-checked
//! access and clamp-to-edge neighbor lookup for the Laplacian stencil, and
//! the deterministic seeding of the initial perturbation region. The
//! floating-point update rule and the presentation loop live outside the
//! library and drive it through these types.

pub mod frame;
pub mod grid;
pub mod rng;
pub mod seed;
