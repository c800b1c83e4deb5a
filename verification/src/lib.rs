//! A 2D soft-body ("jelly") physics core.
//!
//! Bodies are polygons of point masses held together by damped springs.
//! Each simulation step accumulates spring and gravity forces, integrates
//! every movable point, detects vertices of one body that have sunk into
//! another body's polygon, and pushes the penetrating geometry back out
//! while exchanging momentum.
//!
//! All quantities are fixed-point scalars: an `i64` counts millionths of a
//! unit (see [`num::SCALE`]), so every stage is exact integer arithmetic
//! and its result is pinned down by a specification function. Arithmetic
//! that would leave the representable range is absorbed the way degenerate
//! geometry is: the affected entity is left untouched for that step, and
//! nothing ever panics.

pub mod error;
pub mod geom;
pub mod matcher;
pub mod num;
pub mod point;
pub mod resolve;
pub mod shape;
pub mod spring;
pub mod vec2;

pub use error::SimError;
pub use geom::find_nearest_point_on_line;
pub use matcher::match_shapes;
pub use matcher::ShapeMatcher;
pub use num::SCALE;
pub use point::apply_gravity;
pub use point::dampen_velocities;
pub use point::MassPoint;
pub use resolve::calculate_new_velocities;
pub use shape::Shape;
pub use spring::Spring;
pub use vec2::Vec2;
