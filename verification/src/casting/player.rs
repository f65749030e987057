use super::constants::{DISPLACEMENT_STEP, FOV_PLANE, MAX_COORD, SCALE};
use super::math::tdiv;
use super::types::{
    bounded, lemma_tdiv_scaled_bound, normalized_x, normalized_y, rotated_x, rotated_y, spec_dot,
    Vector,
};
use vstd::prelude::*;

verus! {

/// The camera: a position in continuous world coordinates, a unit facing
/// direction, and a camera plane perpendicular to the direction whose
/// magnitude encodes the field of view.
#[derive(Clone, Copy, PartialEq, Eq, Structural, Debug)]
pub struct Player {
    pub position: Vector,
    pub direction: Vector,
    pub plane: Vector,
}

impl Player {
    /// A player at `(x, y)` facing along the positive x axis with the
    /// canonical camera plane; direction and plane start out exactly
    /// perpendicular.
    pub fn new(x: i64, y: i64) -> (p: Player)
        ensures
            p.position == (Vector { x, y }),
            p.direction == (Vector { x: SCALE, y: 0 }),
            p.plane == (Vector { x: 0, y: FOV_PLANE }),
            spec_dot(p.direction, p.plane) == 0,
    {
        Player {
            position: Vector { x, y },
            direction: Vector { x: SCALE, y: 0 },
            plane: Vector { x: 0, y: FOV_PLANE },
        }
    }

    /// Advances the position by `DISPLACEMENT_STEP` along the normalized
    /// direction hint: the hint's own magnitude does not matter.
    pub fn walk(&mut self, direction: Vector)
        requires
            bounded(direction, MAX_COORD as int),
            !(direction.x == 0 && direction.y == 0),
            bounded(old(self).position, MAX_COORD - DISPLACEMENT_STEP),
        ensures
            final(self).position.x == old(self).position.x + tdiv(
                normalized_x(direction) * DISPLACEMENT_STEP,
                SCALE as int,
            ),
            final(self).position.y == old(self).position.y + tdiv(
                normalized_y(direction) * DISPLACEMENT_STEP,
                SCALE as int,
            ),
            final(self).direction == old(self).direction,
            final(self).plane == old(self).plane,
    {
        let mut dir = direction;
        dir.normalize();
        proof {
            lemma_tdiv_scaled_bound(dir.x as int, SCALE as int, DISPLACEMENT_STEP as int);
            lemma_tdiv_scaled_bound(dir.y as int, SCALE as int, DISPLACEMENT_STEP as int);
            assert(-1_000_000_000_000int <= dir.x * DISPLACEMENT_STEP <= 1_000_000_000_000int
                && -1_000_000_000_000int <= dir.y * DISPLACEMENT_STEP <= 1_000_000_000_000int)
                by (nonlinear_arith)
                requires
                    -(SCALE as int) <= dir.x <= SCALE as int,
                    -(SCALE as int) <= dir.y <= SCALE as int,
                    DISPLACEMENT_STEP == 1_000_000,
            ;
        }
        let dx = super::math::div_trunc(dir.x * DISPLACEMENT_STEP, SCALE);
        let dy = super::math::div_trunc(dir.y * DISPLACEMENT_STEP, SCALE);
        self.position.x = self.position.x + dx;
        self.position.y = self.position.y + dy;
    }

    /// Rotates the facing direction and the camera plane by the same angle,
    /// handed over as a fixed-point cosine and sine, preserving their
    /// relative orientation.
    pub fn turn(&mut self, cos_a: i64, sin_a: i64)
        requires
            bounded(old(self).direction, MAX_COORD as int),
            bounded(old(self).plane, MAX_COORD as int),
            -SCALE <= cos_a <= SCALE,
            -SCALE <= sin_a <= SCALE,
        ensures
            final(self).direction.x == rotated_x(
                old(self).direction,
                cos_a as int,
                sin_a as int,
            ),
            final(self).direction.y == rotated_y(
                old(self).direction,
                cos_a as int,
                sin_a as int,
            ),
            final(self).plane.x == rotated_x(old(self).plane, cos_a as int, sin_a as int),
            final(self).plane.y == rotated_y(old(self).plane, cos_a as int, sin_a as int),
            final(self).position == old(self).position,
    {
        self.direction.rotate(cos_a, sin_a);
        self.plane.rotate(cos_a, sin_a);
    }
}

} // verus!
