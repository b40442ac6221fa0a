//! Fixed-point simulation core for particles drifting through a flow field.
//!
//! Every quantity (coordinates, speeds, durations, colour channels) is a
//! signed fixed-point number held in an `i64` that counts millionths of a
//! unit; see [`fixed`]. Products and quotients round toward zero and results
//! that leave the `i64` range stick to its nearest end.
//!
//! The library decides and computes; it neither draws nor evaluates noise
//! or trigonometric functions. Its caller samples the field's generator at
//! the coordinates that [`FlowField::scale`] yields, turns the angle of
//! [`FlowField::angle`] into a direction, and hands that direction to
//! [`Particle::update`] or [`model::update`].
pub mod color;
pub mod fixed;
pub mod flowfield;
pub mod geometry;
pub mod model;
pub mod particle;
mod random;

pub use crate::color::Srgba;
pub use crate::flowfield::FlowField;
pub use crate::geometry::grid::{Grid, GridIterator, InvalidConfiguration};
pub use crate::geometry::rect::Rect;
pub use crate::geometry::vector::Point2;
pub use crate::model::Model;
pub use crate::particle::{Particle, ParticleSegment, UpdateResult};
