//! A 2D swept-collision engine over exact integer coordinates.
//!
//! A shaped entity (an axis-aligned rectangle or a directed line segment)
//! moves through a scene of static obstacles. Collisions are resolved
//! continuously ("swept"), so fast bodies never tunnel through thin
//! geometry, and contact makes the body slide along the obstacle surface
//! instead of stopping dead.
//!
//! All coordinates are signed 64-bit sub-pixel units and every geometric
//! classification is exact: the tolerance constant that a floating-point
//! engine would need is here exactly zero. Contact ratios are kept as
//! rational numbers (`Ratio`), never rounded until a movement is applied.

pub mod aabb;
pub mod best;
pub mod collision;
pub mod entity;
pub mod spatial;
pub mod line_segment;
pub mod movement;
pub mod ratio;
pub mod shape;
pub mod vec2;
