//! Pieces of render planning that read pass parameters.

pub mod blend;
pub mod kernel;
pub mod geometry;
pub mod image_prepass;
pub mod blur_routes;
