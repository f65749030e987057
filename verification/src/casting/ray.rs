use super::constants::{FIELD_SPACING, INFINITY, MAX_CAST_STEPS, MAX_COORD, SCALE};
use super::math::{
    div_trunc, floor_div, floor_rem, lemma_tdiv_product_bound, sqrt_floor, tdiv,
};
use super::player::Player;
use super::types::{bounded, Vector};
use crate::world_map::WorldMap;
use vstd::arithmetic::div_mod::{
    lemma_div_is_ordered, lemma_div_pos_is_pos, lemma_fundamental_div_mod,
};
use vstd::prelude::*;

verus! {

/// A ray cast from the player's position through one screen column.
pub struct Ray {
    pub direction: Vector,
}

/// The x component of the un-normalized cast direction for camera offset
/// `camera_x` (fixed-point, sweeping the field of view from `-SCALE` to
/// `SCALE`).
pub open spec fn combined_x(p: Player, camera_x: int) -> int {
    p.direction.x + tdiv(p.plane.x * camera_x, SCALE as int)
}

/// The y component of the un-normalized cast direction for camera offset
/// `camera_x`.
pub open spec fn combined_y(p: Player, camera_x: int) -> int {
    p.direction.y + tdiv(p.plane.y * camera_x, SCALE as int)
}

/// The x component of the normalized cast direction for camera offset
/// `camera_x`.
pub open spec fn cast_dir_x(p: Player, camera_x: int) -> int {
    let ux = combined_x(p, camera_x);
    let uy = combined_y(p, camera_x);
    tdiv(ux * SCALE, sqrt_floor(ux * ux + uy * uy))
}

/// The y component of the normalized cast direction for camera offset
/// `camera_x`.
pub open spec fn cast_dir_y(p: Player, camera_x: int) -> int {
    let ux = combined_x(p, camera_x);
    let uy = combined_y(p, camera_x);
    tdiv(uy * SCALE, sqrt_floor(ux * ux + uy * uy))
}

/// Fixed-point distance the ray travels between two successive grid-line
/// crossings on one axis, where `c` is the ray's component on that axis; the
/// `INFINITY` sentinel when the ray is parallel to those lines.
pub open spec fn delta_of(c: int) -> int {
    if c == 0 {
        INFINITY as int
    } else if c > 0 {
        (FIELD_SPACING * SCALE) as int / c
    } else {
        (FIELD_SPACING * SCALE) as int / -c
    }
}

/// The step the traversal takes on one axis: toward larger cells for a
/// nonnegative ray component, toward smaller cells otherwise.
pub open spec fn step_of(c: int) -> int {
    if c >= 0 {
        1
    } else {
        -1
    }
}

/// Fixed-point distance from the player to the first grid-line crossing on
/// one axis: `c` the ray component, `frac` the player's offset within its
/// cell on that axis.
pub open spec fn side_of(c: int, frac: int) -> int {
    if c == 0 {
        INFINITY as int
    } else if c > 0 {
        (SCALE - frac) * SCALE / c
    } else {
        frac * SCALE / -c
    }
}

/// One traversal state of the DDA walk: the cell the ray is in, the step
/// direction, the accumulated distance to the next grid line, and the
/// per-axis crossing distances.
pub struct DdaState {
    pub cell_x: int,
    pub cell_y: int,
    pub step_x: int,
    pub step_y: int,
    pub delta_x: int,
    pub delta_y: int,
    pub side_x: int,
    pub side_y: int,
}

/// The traversal state before the first step, for a cast direction `dir`
/// from position `pos`.
pub open spec fn initial_state(dir: Vector, pos: Vector) -> DdaState {
    DdaState {
        cell_x: pos.x as int / SCALE as int,
        cell_y: pos.y as int / SCALE as int,
        step_x: step_of(dir.x as int),
        step_y: step_of(dir.y as int),
        delta_x: delta_of(dir.x as int),
        delta_y: delta_of(dir.y as int),
        side_x: side_of(dir.x as int, pos.x as int % SCALE as int),
        side_y: side_of(dir.y as int, pos.y as int % SCALE as int),
    }
}

/// One DDA step: the axis whose next grid line is nearer is crossed, ties
/// going to the x axis.
pub open spec fn advance(st: DdaState) -> DdaState {
    if st.side_x <= st.side_y {
        DdaState { cell_x: st.cell_x + st.step_x, side_x: st.side_x + st.delta_x, ..st }
    } else {
        DdaState { cell_y: st.cell_y + st.step_y, side_y: st.side_y + st.delta_y, ..st }
    }
}

/// What a traversal reports, with unbounded values: either the first
/// occupied cell with its fisheye-corrected distance, or that the step bound
/// ran out.
pub enum SpecOutcome {
    Hit { perp: int, cell_x: int, cell_y: int, side: int, tile: u8, steps: int },
    NoHit { steps: int },
}

/// The result of the DDA walk over `m` from state `st` after `taken` steps,
/// with `fuel` steps left: the first occupied cell the walk enters, or no
/// hit once the fuel runs out. The perpendicular (fisheye-corrected)
/// distance of a hit is the crossing distance of the stepped axis, measured
/// along the player's facing axis.
pub open spec fn cast_from(m: WorldMap, st: DdaState, taken: int, fuel: nat) -> SpecOutcome
    decreases fuel,
{
    if fuel == 0 {
        SpecOutcome::NoHit { steps: taken }
    } else {
        let side = if st.side_x <= st.side_y {
            0int
        } else {
            1int
        };
        let perp = if st.side_x <= st.side_y {
            st.side_x
        } else {
            st.side_y
        };
        let st1 = advance(st);
        let t = m.spec_lookup(st1.cell_x, st1.cell_y);
        if t != 0 {
            SpecOutcome::Hit {
                perp,
                cell_x: st1.cell_x,
                cell_y: st1.cell_y,
                side,
                tile: t,
                steps: taken + 1,
            }
        } else {
            cast_from(m, st1, taken + 1, (fuel - 1) as nat)
        }
    }
}

/// Every cell of `m` within `r` cells of `(cx, cy)` on both axes is empty.
pub open spec fn empty_around(m: WorldMap, cx: int, cy: int, r: int) -> bool {
    forall|x: int, y: int|
        cx - r <= x <= cx + r && cy - r <= y <= cy + r ==> m.spec_lookup(x, y) == 0
}

/// Law: a traversal that only ever enters empty cells terminates by its step
/// bound, after exactly that many steps, and reports no hit: every cell
/// within `fuel` steps of the start is empty, and each step moves one cell.
pub proof fn lemma_cast_empty_is_no_hit(m: WorldMap, st: DdaState, taken: int, fuel: nat)
    requires
        empty_around(m, st.cell_x, st.cell_y, fuel as int),
        st.step_x == 1 || st.step_x == -1,
        st.step_y == 1 || st.step_y == -1,
    ensures
        cast_from(m, st, taken, fuel) == (SpecOutcome::NoHit { steps: taken + fuel }),
    decreases fuel,
{
    if fuel > 0 {
        let st1 = advance(st);
        assert(m.spec_lookup(st1.cell_x, st1.cell_y) == 0);
        assert(empty_around(m, st1.cell_x, st1.cell_y, fuel - 1));
        lemma_cast_empty_is_no_hit(m, st1, taken + 1, (fuel - 1) as nat);
    }
}

/// Everything one finished ray reports to the rendering layer.
#[derive(Clone, Copy, PartialEq, Eq, Structural, Debug)]
pub struct RayHit {
    /// Fisheye-corrected distance to the hit, along the facing axis.
    pub perpendicular_distance: i64,
    pub cell_x: i64,
    pub cell_y: i64,
    /// 0 when the last step crossed a vertical grid line, 1 for a
    /// horizontal one.
    pub side: u8,
    pub tile_code: u8,
    pub steps: u32,
}

/// A traversal ends in a wall hit or exhausts its step bound.
#[derive(Clone, Copy, PartialEq, Eq, Structural, Debug)]
pub enum CastOutcome {
    Hit(RayHit),
    NoHit { steps: u32 },
}

/// The executable outcome `r` reports exactly the values of the
/// mathematical outcome `s`.
pub open spec fn outcome_matches(r: CastOutcome, s: SpecOutcome) -> bool {
    match (r, s) {
        (
            CastOutcome::Hit(h),
            SpecOutcome::Hit { perp, cell_x, cell_y, side, tile, steps },
        ) => {
            &&& h.perpendicular_distance == perp
            &&& h.cell_x == cell_x
            &&& h.cell_y == cell_y
            &&& h.side == side
            &&& h.tile_code == tile
            &&& h.steps == steps
        },
        (CastOutcome::NoHit { steps: r_steps }, SpecOutcome::NoHit { steps: s_steps }) => r_steps
            == s_steps,
        _ => false,
    }
}

/// Grid-line crossing distance for one axis, sanitized to the sentinel.
fn exec_delta(c: i64) -> (d: i64)
    requires
        -MAX_COORD <= c <= MAX_COORD,
    ensures
        d == delta_of(c as int),
        0 <= d <= INFINITY,
{
    if c == 0 {
        INFINITY
    } else {
        let den = if c > 0 {
            c
        } else {
            -c
        };
        let d = div_trunc(FIELD_SPACING * SCALE, den);
        proof {
            lemma_quotient_within_sentinel((FIELD_SPACING * SCALE) as int, den as int);
        }
        d
    }
}

/// Initial side distance for one axis, sanitized to the sentinel.
fn exec_side(c: i64, frac: i64) -> (s: i64)
    requires
        -MAX_COORD <= c <= MAX_COORD,
        0 <= frac < SCALE,
    ensures
        s == side_of(c as int, frac as int),
        0 <= s <= INFINITY,
{
    if c == 0 {
        INFINITY
    } else if c > 0 {
        let s = div_trunc((SCALE - frac) * SCALE, c);
        proof {
            lemma_quotient_within_sentinel(((SCALE - frac) * SCALE) as int, c as int);
        }
        s
    } else {
        let s = div_trunc(frac * SCALE, -c);
        proof {
            lemma_quotient_within_sentinel((frac * SCALE) as int, (-c) as int);
        }
        s
    }
}

/// A quotient of a numerator no larger than the sentinel by a positive
/// denominator stays within the sentinel.
proof fn lemma_quotient_within_sentinel(n: int, d: int)
    requires
        0 <= n <= INFINITY,
        1 <= d,
    ensures
        0 <= n / d <= INFINITY,
        tdiv(n, d) == n / d,
{
    lemma_div_pos_is_pos(n, d);
    lemma_fundamental_div_mod(n, d);
    vstd::arithmetic::div_mod::lemma_mod_bound(n, d);
    assert(d * (n / d) >= n / d) by (nonlinear_arith)
        requires
            d >= 1,
            n / d >= 0,
    ;
}

impl Ray {
    /// A ray through the leftmost screen column: camera offset `-SCALE`.
    pub fn new(player: &Player) -> (r: Ray)
        requires
            bounded(player.direction, 2 * SCALE),
            bounded(player.plane, 2 * SCALE),
            !(combined_x(*player, -SCALE as int) == 0 && combined_y(*player, -SCALE as int)
                == 0),
        ensures
            r.direction.x == cast_dir_x(*player, -SCALE as int),
            r.direction.y == cast_dir_y(*player, -SCALE as int),
            bounded(r.direction, SCALE as int),
    {
        let mut r = Ray { direction: Vector { x: SCALE, y: 0 } };
        r.update_direction(player, -SCALE);
        r
    }

    /// Re-aims the ray for camera offset `camera_x`: the player's direction
    /// plus the camera plane scaled by the offset, normalized.
    pub fn update_direction(&mut self, player: &Player, camera_x: i64)
        requires
            bounded(player.direction, 2 * SCALE),
            bounded(player.plane, 2 * SCALE),
            -SCALE <= camera_x <= SCALE,
            !(combined_x(*player, camera_x as int) == 0 && combined_y(*player, camera_x as int)
                == 0),
        ensures
            final(self).direction.x == cast_dir_x(*player, camera_x as int),
            final(self).direction.y == cast_dir_y(*player, camera_x as int),
            bounded(final(self).direction, SCALE as int),
    {
        proof {
            lemma_tdiv_product_bound(camera_x as int, player.plane.x as int, SCALE as int, 2 * SCALE);
            lemma_tdiv_product_bound(camera_x as int, player.plane.y as int, SCALE as int, 2 * SCALE);
            assert(player.plane.x * camera_x == camera_x * player.plane.x) by (nonlinear_arith);
            assert(player.plane.y * camera_x == camera_x * player.plane.y) by (nonlinear_arith);
            assert(-2_000_000_000_000int <= player.plane.x * camera_x <= 2_000_000_000_000int
                && -2_000_000_000_000int <= player.plane.y * camera_x <= 2_000_000_000_000int)
                by (nonlinear_arith)
                requires
                    -2_000_000int <= player.plane.x <= 2_000_000int,
                    -2_000_000int <= player.plane.y <= 2_000_000int,
                    -1_000_000int <= camera_x <= 1_000_000int,
            ;
        }
        let px = div_trunc(player.plane.x * camera_x, SCALE);
        let py = div_trunc(player.plane.y * camera_x, SCALE);
        let mut ray = Vector { x: player.direction.x + px, y: player.direction.y + py };
        ray.normalize();
        self.direction = ray;
    }

    /// The per-axis grid-line crossing distances of this ray, sanitized to
    /// the sentinel where the ray is axis-aligned.
    pub fn get_deltas(&self) -> (v: Vector)
        requires
            bounded(self.direction, MAX_COORD as int),
        ensures
            v.x == delta_of(self.direction.x as int),
            v.y == delta_of(self.direction.y as int),
    {
        Vector::new(exec_delta(self.direction.x), exec_delta(self.direction.y))
    }

    /// The distances from the player to the first grid-line crossing on each
    /// axis, for any sign combination of the ray's components.
    pub fn get_initial_deltas(&self, player: &Player) -> (v: Vector)
        requires
            bounded(self.direction, MAX_COORD as int),
            bounded(player.position, MAX_COORD as int),
        ensures
            v.x == side_of(
                self.direction.x as int,
                player.position.x as int % SCALE as int,
            ),
            v.y == side_of(
                self.direction.y as int,
                player.position.y as int % SCALE as int,
            ),
    {
        let frac_x = floor_rem(player.position.x, SCALE);
        let frac_y = floor_rem(player.position.y, SCALE);
        Vector::new(exec_side(self.direction.x, frac_x), exec_side(self.direction.y, frac_y))
    }

    /// Walks the grid cell by cell along this ray until it enters an
    /// occupied cell or has taken `max_steps` steps, and reports the
    /// fisheye-corrected perpendicular distance of the hit.
    pub fn cast(&self, player: &Player, map: &WorldMap, max_steps: u32) -> (r: CastOutcome)
        requires
            map.wf(),
            bounded(self.direction, MAX_COORD as int),
            bounded(player.position, MAX_COORD as int),
            max_steps <= MAX_CAST_STEPS,
        ensures
            outcome_matches(
                r,
                cast_from(
                    *map,
                    initial_state(self.direction, player.position),
                    0,
                    max_steps as nat,
                ),
            ),
    {
        let mut cell_x = floor_div(player.position.x, SCALE);
        let mut cell_y = floor_div(player.position.y, SCALE);
        let frac_x = floor_rem(player.position.x, SCALE);
        let frac_y = floor_rem(player.position.y, SCALE);
        let step_x: i64 = if self.direction.x >= 0 {
            1
        } else {
            -1
        };
        let step_y: i64 = if self.direction.y >= 0 {
            1
        } else {
            -1
        };
        let delta_x = exec_delta(self.direction.x);
        let delta_y = exec_delta(self.direction.y);
        let mut side_x = exec_side(self.direction.x, frac_x);
        let mut side_y = exec_side(self.direction.y, frac_y);
        let mut taken: u32 = 0;
        let ghost st0 = initial_state(self.direction, player.position);
        let ghost mut st = st0;
        while taken < max_steps
            invariant
                map.wf(),
                max_steps <= MAX_CAST_STEPS,
                taken <= max_steps,
                st0 == initial_state(self.direction, player.position),
                st.cell_x == cell_x as int,
                st.cell_y == cell_y as int,
                st.step_x == step_x as int,
                st.step_y == step_y as int,
                step_x == 1 || step_x == -1,
                step_y == 1 || step_y == -1,
                st.delta_x == delta_x as int,
                st.delta_y == delta_y as int,
                st.side_x == side_x as int,
                st.side_y == side_y as int,
                0 <= delta_x <= INFINITY,
                0 <= delta_y <= INFINITY,
                0 <= side_x <= (INFINITY as int) * (taken as int + 1),
                0 <= side_y <= (INFINITY as int) * (taken as int + 1),
                -2001 - taken as int <= cell_x as int <= 2001 + taken as int,
                -2001 - taken as int <= cell_y as int <= 2001 + taken as int,
                cast_from(*map, st0, 0, max_steps as nat) == cast_from(
                    *map,
                    st,
                    taken as int,
                    (max_steps - taken) as nat,
                ),
            decreases max_steps - taken,
        {
            let side: u8 = if side_x <= side_y {
                0
            } else {
                1
            };
            let perp: i64 = if side_x <= side_y {
                side_x
            } else {
                side_y
            };
            proof {
                assert((INFINITY as int) * (taken as int + 2) == (INFINITY as int) * (taken as int
                    + 1) + INFINITY);
                assert((INFINITY as int) * (taken as int + 2) <= (INFINITY as int) * (
                MAX_CAST_STEPS as int + 2));
            }
            if side_x <= side_y {
                cell_x = cell_x + step_x;
                side_x = side_x + delta_x;
            } else {
                cell_y = cell_y + step_y;
                side_y = side_y + delta_y;
            }
            let tile = map.lookup(cell_x, cell_y);
            proof {
                let fuel = (max_steps - taken) as nat;
                let st1 = advance(st);
                assert(cast_from(*map, st, taken as int, fuel) == (if map.spec_lookup(
                    st1.cell_x,
                    st1.cell_y,
                ) != 0 {
                    SpecOutcome::Hit {
                        perp: perp as int,
                        cell_x: st1.cell_x,
                        cell_y: st1.cell_y,
                        side: side as int,
                        tile: map.spec_lookup(st1.cell_x, st1.cell_y),
                        steps: taken as int + 1,
                    }
                } else {
                    cast_from(*map, st1, taken as int + 1, (fuel - 1) as nat)
                }));
                st = st1;
            }
            taken = taken + 1;
            if tile != 0 {
                return CastOutcome::Hit(
                    RayHit {
                        perpendicular_distance: perp,
                        cell_x,
                        cell_y,
                        side,
                        tile_code: tile,
                        steps: taken,
                    },
                );
            }
        }
        CastOutcome::NoHit { steps: taken }
    }
}

} // verus!
