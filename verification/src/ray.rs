//! Rays and the camera directions they are steered by.
pub use crate::rendering::camera::Direction;
