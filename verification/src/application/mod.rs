//! How the viewer reacts to window input.
pub mod app;
pub mod bvh;
