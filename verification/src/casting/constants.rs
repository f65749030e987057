use vstd::prelude::*;

verus! {

/// Number of fixed-point units in one world unit: a coordinate of one world
/// unit is stored as `SCALE`.
pub const SCALE: i64 = 1_000_000;

/// Finite sentinel standing in for an unreachable distance (one million world
/// units): a grid-line crossing that a ray can never reach within any
/// practical traversal bound.
pub const INFINITY: i64 = 1_000_000_000_000;

/// World-space distance between two neighbouring grid lines (one world unit).
pub const FIELD_SPACING: i64 = 1_000_000;

/// Distance the player advances on one `walk` call (one world unit).
pub const DISPLACEMENT_STEP: i64 = 1_000_000;

/// Magnitude of the camera plane (0.66 world units, roughly a 66 degree
/// field of view).
pub const FOV_PLANE: i64 = 660_000;

/// Largest coordinate magnitude the vector operations accept; keeps every
/// product of two coordinates, and every sum of two such products, inside
/// `i64`.
pub const MAX_COORD: i64 = 2_000_000_000;

/// Largest traversal bound `cast` accepts; keeps the accumulated side
/// distances inside `i64`.
pub const MAX_CAST_STEPS: u32 = 1_000_000;

} // verus!
