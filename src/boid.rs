//! One agent of the flock, the constants of its motion, and how it is spawned.
use vstd::prelude::*;
use crate::geom::Vec2;
use crate::rng::{Generator, rand32_draw};

verus! {

/// Frames simulated per second.
pub const FPS: u32 = 60;
/// Sub-pixel units per pixel: all positions and velocities are integers in these units.
pub const UNITS_PER_PIXEL: i64 = 1000;
/// Distance within which an agent sees another, for cohesion and alignment.
pub const MAX_PERCEIVE: i64 = 75_000;
/// Distance under which an agent pushes away from another.
pub const MIN_DIST: i64 = 20_000;
/// Largest speed, in units per second.
pub const MAX_SPEED: i64 = 500_000;
/// Smallest intended speed, in units per second; it is checked against the
/// largest once but not applied to the agents.
pub const MIN_SPEED: i64 = 50_000;
/// A bounce keeps one part in this many of the speed along the axis.
pub const BOUNCE_DIVISOR: i64 = 2;
/// Width of the margin along each wall, in percent of the world's extent.
pub const WALL_PERCENT: i64 = 10;
/// Push away from a wall per frame while inside its margin.
pub const WALL_ACC: i64 = 640;
/// Cohesion moves the velocity one part in this many toward the neighbours' centre.
pub const COHESION_DIVISOR: i64 = 200;
/// Separation pushes by one part in this many of each too close displacement.
pub const SEPARATION_DIVISOR: i64 = 20;
/// Alignment moves the velocity one part in this many toward the boosted average.
pub const ALIGNMENT_DIVISOR: i64 = 20;
/// The neighbours' average velocity is boosted by this ratio (six fifths).
pub const ALIGNMENT_BOOST_NUM: i64 = 6;
pub const ALIGNMENT_BOOST_DEN: i64 = 5;
/// Goal seeking moves the velocity one part in this many toward the goal.
pub const GOAL_DIVISOR: i64 = 200;

pub const MAX_PERCEIVE_SQ: i64 = MAX_PERCEIVE * MAX_PERCEIVE;
pub const MIN_DIST_SQ: i64 = MIN_DIST * MIN_DIST;
/// Largest speed per frame (`MAX_SPEED / FPS`, rounded down), and the range of
/// each spawned velocity component.
pub const MAX_SPEED_FRAME: i64 = 8333;
/// Smallest intended speed per frame (`MIN_SPEED / FPS`, rounded down).
pub const MIN_SPEED_FRAME: i64 = 833;
pub const MAX_SPEED_SQ: i64 = MAX_SPEED_FRAME * MAX_SPEED_FRAME;
pub const MIN_SPEED_SQ: i64 = MIN_SPEED_FRAME * MIN_SPEED_FRAME;

/// Largest coordinate size of a position, a goal or a world extent (2^40 units).
pub const POS_LIMIT: i64 = 1_099_511_627_776;
/// Largest component size of a stored velocity (2^36 units per frame).
pub const VEL_LIMIT: i64 = 68_719_476_736;
/// Largest population of a flock.
pub const MAX_BOIDS: usize = 16_777_216;

/// One flock member.
#[derive(Clone, Copy, Debug, PartialEq, Eq, Structural)]
pub struct Boid {
    pub pos: Vec2,
    pub vel: Vec2,
}

pub open spec fn coord_in_range(c: int) -> bool {
    -POS_LIMIT <= c <= POS_LIMIT
}

pub open spec fn point_in_range(p: Vec2) -> bool {
    coord_in_range(p.x as int) && coord_in_range(p.y as int)
}

pub open spec fn valid_extent(size: Vec2) -> bool {
    0 < size.x <= POS_LIMIT && 0 < size.y <= POS_LIMIT
}

pub open spec fn goal_in_range(goal: Option<Vec2>) -> bool {
    match goal {
        Some(g) => point_in_range(g),
        None => true,
    }
}

impl Boid {
    /// Position and velocity are small enough for every rule to be computed exactly.
    pub open spec fn in_range(self) -> bool {
        &&& point_in_range(self.pos)
        &&& -VEL_LIMIT <= self.vel.x <= VEL_LIMIT
        &&& -VEL_LIMIT <= self.vel.y <= VEL_LIMIT
    }
}

pub open spec fn all_in_range(s: Seq<Boid>) -> bool {
    forall|j: int| 0 <= j < s.len() ==> (#[trigger] s[j]).in_range()
}

/// `r` of 2^32 parts of `extent`, rounded down: a draw of 32 bits scaled into `[0, extent)`.
pub open spec fn scale_draw(r: int, extent: int) -> int {
    (r * extent) / 0x1_0000_0000
}

/// The `i`-th agent of a flock spawned from `seed`: it takes the generator's
/// draws `4 i` to `4 i + 3`.
pub open spec fn spawned_nth(seed: u64, i: nat, space: Vec2) -> Boid {
    spawned(
        rand32_draw(seed, 4 * i),
        rand32_draw(seed, 4 * i + 1),
        rand32_draw(seed, 4 * i + 2),
        rand32_draw(seed, 4 * i + 3),
        space,
    )
}

pub open spec fn spawned(px: u32, py: u32, vx: u32, vy: u32, space: Vec2) -> Boid {
    Boid {
        pos: Vec2 {
            x: scale_draw(px as int, space.x as int) as i64,
            y: scale_draw(py as int, space.y as int) as i64,
        },
        vel: Vec2 {
            x: scale_draw(vx as int, MAX_SPEED_FRAME as int) as i64,
            y: scale_draw(vy as int, MAX_SPEED_FRAME as int) as i64,
        },
    }
}

fn scale(r: u32, extent: i64) -> (s: i64)
    requires
        0 < extent <= POS_LIMIT,
    ensures
        s == scale_draw(r as int, extent as int),
        0 <= s < extent,
{
    assert(0 <= r as int * extent as int <= 0x1_0000_0000 * POS_LIMIT) by (nonlinear_arith)
        requires
            0 <= r < 0x1_0000_0000,
            0 < extent <= POS_LIMIT,
    ;
    let prod: i128 = r as i128 * extent as i128;
    assert(0 <= prod < 0x1_0000_0000 * extent) by (nonlinear_arith)
        requires
            prod == r as int * extent as int,
            0 <= r < 0x1_0000_0000,
            extent > 0,
    ;
    let q = prod / 0x1_0000_0000;
    assert(0 <= q < extent) by (nonlinear_arith)
        requires
            q == prod / 0x1_0000_0000,
            0 <= prod < 0x1_0000_0000 * extent,
    ;
    q as i64
}

impl Boid {
    /// An agent placed from four 32-bit draws: the position uniformly in
    /// `[0, space.x) x [0, space.y)`, the velocity in `[0, V) x [0, V)` with `V`
    /// the largest speed per frame.
    pub fn from_draws(px: u32, py: u32, vx: u32, vy: u32, space: &Vec2) -> (b: Boid)
        requires
            valid_extent(*space),
        ensures
            b == spawned(px, py, vx, vy, *space),
            0 <= b.pos.x < space.x,
            0 <= b.pos.y < space.y,
            0 <= b.vel.x < MAX_SPEED_FRAME,
            0 <= b.vel.y < MAX_SPEED_FRAME,
    {
        Boid {
            pos: Vec2 { x: scale(px, space.x), y: scale(py, space.y) },
            vel: Vec2 { x: scale(vx, MAX_SPEED_FRAME), y: scale(vy, MAX_SPEED_FRAME) },
        }
    }

    /// A randomly placed agent, as `from_draws` places it from the generator's next draws.
    pub fn new(rng: &mut Generator, space: &Vec2) -> (b: Boid)
        requires
            valid_extent(*space),
        ensures
            final(rng).seed() == old(rng).seed(),
            final(rng).drawn() == old(rng).drawn() + 4,
            b == spawned(
                rand32_draw(old(rng).seed(), old(rng).drawn()),
                rand32_draw(old(rng).seed(), old(rng).drawn() + 1),
                rand32_draw(old(rng).seed(), old(rng).drawn() + 2),
                rand32_draw(old(rng).seed(), old(rng).drawn() + 3),
                *space,
            ),
            0 <= b.pos.x < space.x,
            0 <= b.pos.y < space.y,
            0 <= b.vel.x < MAX_SPEED_FRAME,
            0 <= b.vel.y < MAX_SPEED_FRAME,
    {
        let px = rng.next_u32();
        let py = rng.next_u32();
        let vx = rng.next_u32();
        let vy = rng.next_u32();
        Boid::from_draws(px, py, vx, vy, space)
    }
}

} // verus!
