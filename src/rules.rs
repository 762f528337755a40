//! The five steering rules, each stated over a snapshot of the whole flock.
//! A working velocity is a pair of integers; the rules are applied in order,
//! each to the velocity the previous one left.
use vstd::prelude::*;
use crate::geom::{Vec2, tdiv, adiv, lemma_adiv_bound, div_away, dist_sq, ceil_sqrt, is_ceil_sqrt, lemma_ceil_sqrt_exists, lemma_tdiv_bound, lemma_tdiv_shrinks, div_trunc, ceil_sqrt_u128};
use crate::boid::{
    valid_extent, goal_in_range, coord_in_range,
    Boid, all_in_range, point_in_range, ALIGNMENT_BOOST_DEN, ALIGNMENT_BOOST_NUM, ALIGNMENT_DIVISOR,
    BOUNCE_DIVISOR, COHESION_DIVISOR, GOAL_DIVISOR, MAX_BOIDS, MAX_PERCEIVE_SQ, MAX_SPEED_FRAME, MAX_SPEED_SQ, MIN_DIST_SQ, POS_LIMIT,
    SEPARATION_DIVISOR, VEL_LIMIT, WALL_ACC, WALL_PERCENT,
};

verus! {

/// Agent `j` is another agent than `i`, closer to it than the square root of `r2`.
pub open spec fn is_near(all: Seq<Boid>, i: int, j: int, r2: int) -> bool {
    j != i && dist_sq(all[i].pos, all[j].pos) < r2
}

/// Number of agents among the first `n` that are near agent `i`.
pub open spec fn near_count(all: Seq<Boid>, i: int, r2: int, n: int) -> int
    decreases n,
{
    if n <= 0 {
        0
    } else {
        near_count(all, i, r2, n - 1) + if is_near(all, i, n - 1, r2) { 1int } else { 0int }
    }
}

/// Sum of the positions of the agents among the first `n` that are near agent `i`.
pub open spec fn near_pos_sum(all: Seq<Boid>, i: int, r2: int, n: int) -> (int, int)
    decreases n,
{
    if n <= 0 {
        (0, 0)
    } else {
        let s = near_pos_sum(all, i, r2, n - 1);
        if is_near(all, i, n - 1, r2) {
            (s.0 + all[n - 1].pos.x, s.1 + all[n - 1].pos.y)
        } else {
            s
        }
    }
}

/// Sum of the velocities of the agents among the first `n` that are near agent `i`.
pub open spec fn near_vel_sum(all: Seq<Boid>, i: int, r2: int, n: int) -> (int, int)
    decreases n,
{
    if n <= 0 {
        (0, 0)
    } else {
        let s = near_vel_sum(all, i, r2, n - 1);
        if is_near(all, i, n - 1, r2) {
            (s.0 + all[n - 1].vel.x, s.1 + all[n - 1].vel.y)
        } else {
            s
        }
    }
}

/// Push of one too close agent `j` on agent `i`: a part of the displacement
/// toward it, rounded away from zero so that no nonzero displacement is ignored.
pub open spec fn push_of(all: Seq<Boid>, i: int, j: int) -> (int, int) {
    (
        adiv(all[j].pos.x - all[i].pos.x, SEPARATION_DIVISOR as int),
        adiv(all[j].pos.y - all[i].pos.y, SEPARATION_DIVISOR as int),
    )
}

/// Sum of the pushes of the too close agents among the first `n`.
pub open spec fn push_sum(all: Seq<Boid>, i: int, n: int) -> (int, int)
    decreases n,
{
    if n <= 0 {
        (0, 0)
    } else {
        let s = push_sum(all, i, n - 1);
        if is_near(all, i, n - 1, MIN_DIST_SQ as int) {
            (s.0 + push_of(all, i, n - 1).0, s.1 + push_of(all, i, n - 1).1)
        } else {
            s
        }
    }
}

/// Cohesion: steer toward the average position of the perceived agents.
pub open spec fn cohesion(all: Seq<Boid>, i: int, v: (int, int)) -> (int, int) {
    let n = near_count(all, i, MAX_PERCEIVE_SQ as int, all.len() as int);
    let s = near_pos_sum(all, i, MAX_PERCEIVE_SQ as int, all.len() as int);
    if n > 0 {
        (
            v.0 + tdiv(tdiv(s.0, n) - all[i].pos.x, COHESION_DIVISOR as int),
            v.1 + tdiv(tdiv(s.1, n) - all[i].pos.y, COHESION_DIVISOR as int),
        )
    } else {
        v
    }
}

/// Separation: push away from every agent that is too close.
pub open spec fn separation(all: Seq<Boid>, i: int, v: (int, int)) -> (int, int) {
    let s = push_sum(all, i, all.len() as int);
    (v.0 - s.0, v.1 - s.1)
}

/// The perceived agents' average velocity, boosted by six fifths.
pub open spec fn boosted_average(s: int, n: int) -> int {
    tdiv(s * ALIGNMENT_BOOST_NUM, n * ALIGNMENT_BOOST_DEN)
}

/// Alignment: steer toward the boosted average velocity of the perceived agents.
pub open spec fn alignment(all: Seq<Boid>, i: int, v: (int, int)) -> (int, int) {
    let n = near_count(all, i, MAX_PERCEIVE_SQ as int, all.len() as int);
    let s = near_vel_sum(all, i, MAX_PERCEIVE_SQ as int, all.len() as int);
    if n > 0 {
        (
            v.0 + tdiv(boosted_average(s.0, n) - v.0, ALIGNMENT_DIVISOR as int),
            v.1 + tdiv(boosted_average(s.1, n) - v.1, ALIGNMENT_DIVISOR as int),
        )
    } else {
        v
    }
}

/// Speed limit: a velocity longer than the largest speed is scaled down to it,
/// keeping its direction; a shorter one is kept.
pub open spec fn limit_speed(v: (int, int)) -> (int, int) {
    let l2 = v.0 * v.0 + v.1 * v.1;
    if l2 > MAX_SPEED_SQ {
        let l = ceil_sqrt(l2);
        (tdiv(v.0 * MAX_SPEED_FRAME, l), tdiv(v.1 * MAX_SPEED_FRAME, l))
    } else {
        v
    }
}

/// Bounce along one axis: where the next position would leave `[0, extent]`
/// moving outward, the component is reversed and damped.
pub open spec fn bounce_axis(p: int, v: int, extent: int) -> int {
    let next = p + v;
    if (next < 0 && v < 0) || (next > extent && v > 0) {
        tdiv(-v, BOUNCE_DIVISOR as int)
    } else {
        v
    }
}

pub open spec fn wall_low(extent: int) -> int {
    extent * WALL_PERCENT / 100
}

pub open spec fn wall_high(extent: int) -> int {
    extent * (100 - WALL_PERCENT) / 100
}

/// Push away from a wall along one axis while inside its margin.
pub open spec fn wall_push(p: int, v: int, extent: int) -> int {
    v + (if p < wall_low(extent) { WALL_ACC as int } else { 0int }) - (if p > wall_high(extent) {
        WALL_ACC as int
    } else {
        0int
    })
}

pub open spec fn bounds_axis(p: int, v: int, extent: int) -> int {
    wall_push(p, bounce_axis(p, v, extent), extent)
}

/// Speed limit, then bounce and wall push on each axis.
pub open spec fn limit_and_bound(p: Vec2, v: (int, int), size: Vec2) -> (int, int) {
    let w = limit_speed(v);
    (bounds_axis(p.x as int, w.0, size.x as int), bounds_axis(p.y as int, w.1, size.y as int))
}

/// Goal seeking: steer toward the goal, when there is one; the pull is rounded
/// away from zero, so an agent off the goal always feels it.
pub open spec fn seek(p: Vec2, v: (int, int), goal: Option<Vec2>) -> (int, int) {
    match goal {
        Some(g) => (
            v.0 + adiv(g.x - p.x, GOAL_DIVISOR as int),
            v.1 + adiv(g.y - p.y, GOAL_DIVISOR as int),
        ),
        None => v,
    }
}

/// Velocity of agent `i` after the five rules, applied in order.
pub open spec fn steer(all: Seq<Boid>, i: int, size: Vec2, goal: Option<Vec2>) -> (int, int) {
    let b = all[i];
    let v1 = cohesion(all, i, (b.vel.x as int, b.vel.y as int));
    let v2 = separation(all, i, v1);
    let v3 = alignment(all, i, v2);
    let v4 = limit_and_bound(b.pos, v3, size);
    seek(b.pos, v4, goal)
}

/// A coordinate held to the representable range of positions.
pub open spec fn clamp_coord(c: int) -> int {
    if c > POS_LIMIT {
        POS_LIMIT as int
    } else if c < -POS_LIMIT {
        -POS_LIMIT
    } else {
        c
    }
}

/// Agent `i` one frame later: steered, then moved by its new velocity.
pub open spec fn step_boid(all: Seq<Boid>, i: int, size: Vec2, goal: Option<Vec2>) -> Boid {
    let b = all[i];
    let v = steer(all, i, size, goal);
    Boid {
        pos: Vec2 {
            x: clamp_coord(b.pos.x + v.0) as i64,
            y: clamp_coord(b.pos.y + v.1) as i64,
        },
        vel: Vec2 { x: v.0 as i64, y: v.1 as i64 },
    }
}

/// The whole flock one frame later: every agent steered from the same snapshot.
pub open spec fn step_all(all: Seq<Boid>, size: Vec2, goal: Option<Vec2>) -> Seq<Boid> {
    Seq::new(all.len(), |i: int| step_boid(all, i, size, goal))
}

/// The precondition shared by the neighbour rules.
pub open spec fn snapshot_ok(all: Seq<Boid>, cur: int) -> bool {
    &&& 0 <= cur < all.len()
    &&& all.len() <= MAX_BOIDS
    &&& all_in_range(all)
}

fn distance_squared(a: &Vec2, b: &Vec2) -> (r: i128)
    requires
        point_in_range(*a),
        point_in_range(*b),
    ensures
        r == dist_sq(*a, *b),
{
    let dx: i128 = b.x as i128 - a.x as i128;
    let dy: i128 = b.y as i128 - a.y as i128;
    assert(dx * dx <= 0x40_0000_0000_0000_0000_0000 && dy * dy <= 0x40_0000_0000_0000_0000_0000)
        by (nonlinear_arith)
        requires
            -0x200_0000_0000 <= dx <= 0x200_0000_0000,
            -0x200_0000_0000 <= dy <= 0x200_0000_0000,
    ;
    assert(dx * dx >= 0 && dy * dy >= 0) by (nonlinear_arith);
    dx * dx + dy * dy
}

proof fn lemma_pos_sum_bound(all: Seq<Boid>, i: int, r2: int, n: int)
    requires
        0 <= n <= all.len(),
        all_in_range(all),
    ensures
        0 <= near_count(all, i, r2, n) <= n,
        -(near_count(all, i, r2, n) * POS_LIMIT) <= near_pos_sum(all, i, r2, n).0 <= near_count(all, i, r2, n) * POS_LIMIT,
        -(near_count(all, i, r2, n) * POS_LIMIT) <= near_pos_sum(all, i, r2, n).1 <= near_count(all, i, r2, n) * POS_LIMIT,
        -(near_count(all, i, r2, n) * VEL_LIMIT) <= near_vel_sum(all, i, r2, n).0 <= near_count(all, i, r2, n) * VEL_LIMIT,
        -(near_count(all, i, r2, n) * VEL_LIMIT) <= near_vel_sum(all, i, r2, n).1 <= near_count(all, i, r2, n) * VEL_LIMIT,
    decreases n,
{
    if n > 0 {
        lemma_pos_sum_bound(all, i, r2, n - 1);
        assert(all[n - 1].in_range());
    }
}

/// Cohesion, applied to the working velocity of agent `cur`.
fn rule_one(boid: &mut Boid, all: &Vec<Boid>, cur: usize)
    requires
        snapshot_ok(all@, cur as int),
        old(boid).pos == all@[cur as int].pos,
        -VEL_LIMIT <= old(boid).vel.x <= VEL_LIMIT,
        -VEL_LIMIT <= old(boid).vel.y <= VEL_LIMIT,
    ensures
        final(boid).pos == old(boid).pos,
        (final(boid).vel.x as int, final(boid).vel.y as int)
            == cohesion(all@, cur as int, (old(boid).vel.x as int, old(boid).vel.y as int)),
        -2 * VEL_LIMIT <= final(boid).vel.x <= 2 * VEL_LIMIT,
        -2 * VEL_LIMIT <= final(boid).vel.y <= 2 * VEL_LIMIT,
{
    let ghost r2 = MAX_PERCEIVE_SQ as int;
    let mut found: i64 = 0;
    let mut sx: i128 = 0;
    let mut sy: i128 = 0;
    let mut other: usize = 0;
    while other < all.len()
        invariant
            snapshot_ok(all@, cur as int),
            boid.pos == all@[cur as int].pos,
            r2 == MAX_PERCEIVE_SQ,
            0 <= other <= all.len(),
            found == near_count(all@, cur as int, r2, other as int),
            (sx as int, sy as int) == near_pos_sum(all@, cur as int, r2, other as int),
        decreases all.len() - other,
    {
        proof {
            lemma_pos_sum_bound(all@, cur as int, r2, other as int);
            assert(all@[other as int].in_range());
            assert(all@[cur as int].in_range());
            assert(found * POS_LIMIT <= MAX_BOIDS * POS_LIMIT) by (nonlinear_arith)
                requires 0 <= found <= MAX_BOIDS;
        }
        if other != cur {
            if distance_squared(&boid.pos, &all[other].pos) < MAX_PERCEIVE_SQ as i128 {
                found += 1;
                sx += all[other].pos.x as i128;
                sy += all[other].pos.y as i128;
            }
        }
        other += 1;
    }
    if found > 0 {
        proof {
            lemma_pos_sum_bound(all@, cur as int, r2, other as int);
            lemma_tdiv_bound(sx as int, found as int, POS_LIMIT as int);
            lemma_tdiv_bound(sy as int, found as int, POS_LIMIT as int);
            assert(all@[cur as int].in_range());
            assert(found * POS_LIMIT == POS_LIMIT * found) by (nonlinear_arith);
        }
        let cx = div_trunc(sx, found as i128);
        let cy = div_trunc(sy, found as i128);
        proof {
            lemma_tdiv_bound(cx - boid.pos.x, COHESION_DIVISOR as int, 0x4_0000_0000);
            lemma_tdiv_bound(cy - boid.pos.y, COHESION_DIVISOR as int, 0x4_0000_0000);
        }
        let dx = div_trunc(cx - boid.pos.x as i128, COHESION_DIVISOR as i128);
        let dy = div_trunc(cy - boid.pos.y as i128, COHESION_DIVISOR as i128);
        boid.vel.x = boid.vel.x + dx as i64;
        boid.vel.y = boid.vel.y + dy as i64;
    }
}

proof fn lemma_push_bound(all: Seq<Boid>, i: int, j: int)
    requires
        0 <= i < all.len(),
        0 <= j < all.len(),
        all_in_range(all),
        is_near(all, i, j, MIN_DIST_SQ as int),
    ensures
        -1000 <= push_of(all, i, j).0 <= 1000,
        -1000 <= push_of(all, i, j).1 <= 1000,
{
    let dx = all[j].pos.x - all[i].pos.x;
    let dy = all[j].pos.y - all[i].pos.y;
    assert(dx * dx >= 0 && dy * dy >= 0) by (nonlinear_arith);
    assert(-20000 <= dx <= 20000) by (nonlinear_arith)
        requires
            dx * dx < 400000000,
    ;
    assert(-20000 <= dy <= 20000) by (nonlinear_arith)
        requires
            dy * dy < 400000000,
    ;
    lemma_adiv_bound(dx, SEPARATION_DIVISOR as int, 1000);
    lemma_adiv_bound(dy, SEPARATION_DIVISOR as int, 1000);
}

/// Separation, applied to the working velocity of agent `cur`.
fn rule_two(boid: &mut Boid, all: &Vec<Boid>, cur: usize)
    requires
        snapshot_ok(all@, cur as int),
        old(boid).pos == all@[cur as int].pos,
        -2 * VEL_LIMIT <= old(boid).vel.x <= 2 * VEL_LIMIT,
        -2 * VEL_LIMIT <= old(boid).vel.y <= 2 * VEL_LIMIT,
    ensures
        final(boid).pos == old(boid).pos,
        (final(boid).vel.x as int, final(boid).vel.y as int)
            == separation(all@, cur as int, (old(boid).vel.x as int, old(boid).vel.y as int)),
        -3 * VEL_LIMIT <= final(boid).vel.x <= 3 * VEL_LIMIT,
        -3 * VEL_LIMIT <= final(boid).vel.y <= 3 * VEL_LIMIT,
{
    let v0 = boid.vel;
    let mut other: usize = 0;
    while other < all.len()
        invariant
            snapshot_ok(all@, cur as int),
            boid.pos == all@[cur as int].pos,
            0 <= other <= all.len(),
            -2 * VEL_LIMIT <= v0.x <= 2 * VEL_LIMIT,
            -2 * VEL_LIMIT <= v0.y <= 2 * VEL_LIMIT,
            boid.vel.x == v0.x - push_sum(all@, cur as int, other as int).0,
            boid.vel.y == v0.y - push_sum(all@, cur as int, other as int).1,
            -(other * 1000) <= push_sum(all@, cur as int, other as int).0 <= other * 1000,
            -(other * 1000) <= push_sum(all@, cur as int, other as int).1 <= other * 1000,
        decreases all.len() - other,
    {
        assert(all@[other as int].in_range());
        assert(all@[cur as int].in_range());
        if other != cur {
            if distance_squared(&boid.pos, &all[other].pos) < MIN_DIST_SQ as i128 {
                proof {
                    lemma_push_bound(all@, cur as int, other as int);
                }
                let px = div_away(all[other].pos.x as i128 - boid.pos.x as i128, SEPARATION_DIVISOR as i128);
                let py = div_away(all[other].pos.y as i128 - boid.pos.y as i128, SEPARATION_DIVISOR as i128);
                boid.vel.x = boid.vel.x - px as i64;
                boid.vel.y = boid.vel.y - py as i64;
            }
        }
        other += 1;
    }
}

/// Alignment, applied to the working velocity of agent `cur`.
fn rule_three(boid: &mut Boid, all: &Vec<Boid>, cur: usize)
    requires
        snapshot_ok(all@, cur as int),
        old(boid).pos == all@[cur as int].pos,
        -3 * VEL_LIMIT <= old(boid).vel.x <= 3 * VEL_LIMIT,
        -3 * VEL_LIMIT <= old(boid).vel.y <= 3 * VEL_LIMIT,
    ensures
        final(boid).pos == old(boid).pos,
        (final(boid).vel.x as int, final(boid).vel.y as int)
            == alignment(all@, cur as int, (old(boid).vel.x as int, old(boid).vel.y as int)),
        -4 * VEL_LIMIT <= final(boid).vel.x <= 4 * VEL_LIMIT,
        -4 * VEL_LIMIT <= final(boid).vel.y <= 4 * VEL_LIMIT,
{
    let ghost r2 = MAX_PERCEIVE_SQ as int;
    let mut found: i64 = 0;
    let mut sx: i128 = 0;
    let mut sy: i128 = 0;
    let mut other: usize = 0;
    while other < all.len()
        invariant
            snapshot_ok(all@, cur as int),
            boid.pos == all@[cur as int].pos,
            r2 == MAX_PERCEIVE_SQ,
            0 <= other <= all.len(),
            found == near_count(all@, cur as int, r2, other as int),
            (sx as int, sy as int) == near_vel_sum(all@, cur as int, r2, other as int),
        decreases all.len() - other,
    {
        proof {
            lemma_pos_sum_bound(all@, cur as int, r2, other as int);
            assert(all@[other as int].in_range());
            assert(all@[cur as int].in_range());
            assert(found * VEL_LIMIT <= MAX_BOIDS * VEL_LIMIT) by (nonlinear_arith)
                requires 0 <= found <= MAX_BOIDS;
        }
        if other != cur {
            if distance_squared(&boid.pos, &all[other].pos) < MAX_PERCEIVE_SQ as i128 {
                found += 1;
                sx += all[other].vel.x as i128;
                sy += all[other].vel.y as i128;
            }
        }
        other += 1;
    }
    if found > 0 {
        let ghost n = found as int;
        proof {
            lemma_pos_sum_bound(all@, cur as int, r2, other as int);
            assert(-(2 * VEL_LIMIT * (n * 5)) <= sx * 6 <= 2 * VEL_LIMIT * (n * 5)
                && -(2 * VEL_LIMIT * (n * 5)) <= sy * 6 <= 2 * VEL_LIMIT * (n * 5)) by (nonlinear_arith)
                requires
                    -(n * VEL_LIMIT) <= sx <= n * VEL_LIMIT,
                    -(n * VEL_LIMIT) <= sy <= n * VEL_LIMIT,
                    n > 0,
            ;
            assert(n * VEL_LIMIT <= MAX_BOIDS * VEL_LIMIT) by (nonlinear_arith)
                requires 0 <= n <= MAX_BOIDS;
            lemma_tdiv_bound(sx * 6, n * 5, 2 * VEL_LIMIT);
            lemma_tdiv_bound(sy * 6, n * 5, 2 * VEL_LIMIT);
        }
        let ax = div_trunc(sx * ALIGNMENT_BOOST_NUM as i128, found as i128 * ALIGNMENT_BOOST_DEN as i128);
        let ay = div_trunc(sy * ALIGNMENT_BOOST_NUM as i128, found as i128 * ALIGNMENT_BOOST_DEN as i128);
        proof {
            lemma_tdiv_bound(ax - boid.vel.x, ALIGNMENT_DIVISOR as int, VEL_LIMIT as int);
            lemma_tdiv_bound(ay - boid.vel.y, ALIGNMENT_DIVISOR as int, VEL_LIMIT as int);
        }
        let dx = div_trunc(ax - boid.vel.x as i128, ALIGNMENT_DIVISOR as i128);
        let dy = div_trunc(ay - boid.vel.y as i128, ALIGNMENT_DIVISOR as i128);
        boid.vel.x = boid.vel.x + dx as i64;
        boid.vel.y = boid.vel.y + dy as i64;
    }
}

/// The speed limit on a working velocity.
fn limit(vx: i64, vy: i64) -> (r: (i64, i64))
    requires
        -4 * VEL_LIMIT <= vx <= 4 * VEL_LIMIT,
        -4 * VEL_LIMIT <= vy <= 4 * VEL_LIMIT,
    ensures
        (r.0 as int, r.1 as int) == limit_speed((vx as int, vy as int)),
        -4 * VEL_LIMIT <= r.0 <= 4 * VEL_LIMIT,
        -4 * VEL_LIMIT <= r.1 <= 4 * VEL_LIMIT,
{
    let x = vx as i128;
    let y = vy as i128;
    assert(0 <= x * x <= 0x1000_0000_0000_0000_0000 && 0 <= y * y <= 0x1000_0000_0000_0000_0000)
        by (nonlinear_arith)
        requires
            -0x40_0000_0000 <= x <= 0x40_0000_0000,
            -0x40_0000_0000 <= y <= 0x40_0000_0000,
    ;
    let l2: i128 = x * x + y * y;
    if l2 > MAX_SPEED_SQ as i128 {
        let l = ceil_sqrt_u128(l2 as u128) as i128;
        assert(-l <= x <= l && -l <= y <= l) by (nonlinear_arith)
            requires
                l >= 0,
                l * l >= x * x + y * y,
                y * y >= 0,
                x * x >= 0,
        ;
        assert(-(MAX_SPEED_FRAME * l) <= x * MAX_SPEED_FRAME <= MAX_SPEED_FRAME * l
            && -(MAX_SPEED_FRAME * l) <= y * MAX_SPEED_FRAME <= MAX_SPEED_FRAME * l) by (nonlinear_arith)
            requires
                -l <= x <= l,
                -l <= y <= l,
        ;
        proof {
            lemma_tdiv_bound(x * MAX_SPEED_FRAME, l as int, MAX_SPEED_FRAME as int);
            lemma_tdiv_bound(y * MAX_SPEED_FRAME, l as int, MAX_SPEED_FRAME as int);
        }
        let rx = div_trunc(x * MAX_SPEED_FRAME as i128, l);
        let ry = div_trunc(y * MAX_SPEED_FRAME as i128, l);
        (rx as i64, ry as i64)
    } else {
        (vx, vy)
    }
}

/// Bounce and wall push along one axis.
fn bound_axis(p: i64, v: i64, extent: i64) -> (r: i64)
    requires
        coord_in_range(p as int),
        0 < extent <= POS_LIMIT,
        -4 * VEL_LIMIT <= v <= 4 * VEL_LIMIT,
    ensures
        r == bounds_axis(p as int, v as int, extent as int),
        v >= 0 ==> -(v + 2 * WALL_ACC) <= r <= v + 2 * WALL_ACC,
        v < 0 ==> -(-v + 2 * WALL_ACC) <= r <= -v + 2 * WALL_ACC,
{
    let next = p + v;
    let mut w = v;
    if (next < 0 && v < 0) || (next > extent && v > 0) {
        proof {
            lemma_tdiv_shrinks(-v, BOUNCE_DIVISOR as int);
        }
        w = div_trunc(-(v as i128), BOUNCE_DIVISOR as i128) as i64;
    }
    if p < extent * WALL_PERCENT / 100 {
        w = w + WALL_ACC;
    }
    assert(extent * (100 - WALL_PERCENT) <= 100 * POS_LIMIT) by (nonlinear_arith)
        requires
            0 < extent <= POS_LIMIT,
            WALL_PERCENT == 10,
    ;
    if p > extent * (100 - WALL_PERCENT) / 100 {
        w = w - WALL_ACC;
    }
    w
}

/// Speed limit and bounds, applied to the working velocity.
fn rule_four(boid: &mut Boid, size: Vec2)
    requires
        point_in_range(old(boid).pos),
        valid_extent(size),
        -4 * VEL_LIMIT <= old(boid).vel.x <= 4 * VEL_LIMIT,
        -4 * VEL_LIMIT <= old(boid).vel.y <= 4 * VEL_LIMIT,
    ensures
        final(boid).pos == old(boid).pos,
        (final(boid).vel.x as int, final(boid).vel.y as int)
            == limit_and_bound(old(boid).pos, (old(boid).vel.x as int, old(boid).vel.y as int), size),
        -(MAX_SPEED_FRAME + 2 * WALL_ACC) <= final(boid).vel.x <= MAX_SPEED_FRAME + 2 * WALL_ACC,
        -(MAX_SPEED_FRAME + 2 * WALL_ACC) <= final(boid).vel.y <= MAX_SPEED_FRAME + 2 * WALL_ACC,
{
    let (lx, ly) = limit(boid.vel.x, boid.vel.y);
    proof {
        lemma_limit_bound(boid.vel.x as int, boid.vel.y as int);
    }
    boid.vel.x = bound_axis(boid.pos.x, lx, size.x);
    boid.vel.y = bound_axis(boid.pos.y, ly, size.y);
}

/// Each component of a limited velocity is at most the largest speed.
pub proof fn lemma_limit_bound(vx: int, vy: int)
    ensures
        -MAX_SPEED_FRAME <= limit_speed((vx, vy)).0 <= MAX_SPEED_FRAME,
        -MAX_SPEED_FRAME <= limit_speed((vx, vy)).1 <= MAX_SPEED_FRAME,
{
    let l2 = vx * vx + vy * vy;
    assert(vx * vx >= 0 && vy * vy >= 0) by (nonlinear_arith);
    if l2 > MAX_SPEED_SQ {
        let l = ceil_sqrt(l2);
        assert(is_ceil_sqrt(l2, l)) by {
            lemma_ceil_sqrt_exists(l2);
        }
        assert(-l <= vx <= l && -l <= vy <= l) by (nonlinear_arith)
            requires
                l >= 0,
                l * l >= vx * vx + vy * vy,
                vy * vy >= 0,
                vx * vx >= 0,
        ;
        assert(-(MAX_SPEED_FRAME * l) <= vx * MAX_SPEED_FRAME <= MAX_SPEED_FRAME * l
            && -(MAX_SPEED_FRAME * l) <= vy * MAX_SPEED_FRAME <= MAX_SPEED_FRAME * l) by (nonlinear_arith)
            requires
                -l <= vx <= l,
                -l <= vy <= l,
        ;
        assert(l > 0) by (nonlinear_arith) requires l >= 0, l * l >= l2, l2 > 0;
        lemma_tdiv_bound(vx * MAX_SPEED_FRAME, l, MAX_SPEED_FRAME as int);
        lemma_tdiv_bound(vy * MAX_SPEED_FRAME, l, MAX_SPEED_FRAME as int);
    } else {
        assert(-MAX_SPEED_FRAME <= vx <= MAX_SPEED_FRAME && -MAX_SPEED_FRAME <= vy <= MAX_SPEED_FRAME)
            by (nonlinear_arith)
            requires
                vx * vx + vy * vy <= MAX_SPEED_FRAME * MAX_SPEED_FRAME,
                vy * vy >= 0,
                vx * vx >= 0,
        ;
    }
}

/// Goal seeking, applied to the working velocity.
fn rule_five(boid: &mut Boid, goal: Vec2)
    requires
        point_in_range(old(boid).pos),
        point_in_range(goal),
        -(MAX_SPEED_FRAME + 2 * WALL_ACC) <= old(boid).vel.x <= MAX_SPEED_FRAME + 2 * WALL_ACC,
        -(MAX_SPEED_FRAME + 2 * WALL_ACC) <= old(boid).vel.y <= MAX_SPEED_FRAME + 2 * WALL_ACC,
    ensures
        final(boid).pos == old(boid).pos,
        (final(boid).vel.x as int, final(boid).vel.y as int)
            == seek(old(boid).pos, (old(boid).vel.x as int, old(boid).vel.y as int), Some(goal)),
        -VEL_LIMIT <= final(boid).vel.x <= VEL_LIMIT,
        -VEL_LIMIT <= final(boid).vel.y <= VEL_LIMIT,
{
    proof {
        lemma_adiv_bound(goal.x - boid.pos.x, GOAL_DIVISOR as int, 0x4_0000_0000);
        lemma_adiv_bound(goal.y - boid.pos.y, GOAL_DIVISOR as int, 0x4_0000_0000);
    }
    let dx = div_away(goal.x as i128 - boid.pos.x as i128, GOAL_DIVISOR as i128);
    let dy = div_away(goal.y as i128 - boid.pos.y as i128, GOAL_DIVISOR as i128);
    boid.vel.x = boid.vel.x + dx as i64;
    boid.vel.y = boid.vel.y + dy as i64;
}

fn clamp_to_range(c: i64) -> (r: i64)
    requires
        -2 * POS_LIMIT <= c <= 2 * POS_LIMIT,
    ensures
        r == clamp_coord(c as int),
{
    if c > POS_LIMIT {
        POS_LIMIT
    } else if c < -POS_LIMIT {
        -POS_LIMIT
    } else {
        c
    }
}

/// Agent `i` one frame later, computed from the snapshot `all`.
pub fn step_one(all: &Vec<Boid>, i: usize, size: Vec2, goal: Option<Vec2>) -> (b: Boid)
    requires
        snapshot_ok(all@, i as int),
        valid_extent(size),
        goal_in_range(goal),
    ensures
        b == step_boid(all@, i as int, size, goal),
        b.in_range(),
{
    assert(all@[i as int].in_range());
    let mut cur_boid = all[i];
    rule_one(&mut cur_boid, all, i);
    rule_two(&mut cur_boid, all, i);
    rule_three(&mut cur_boid, all, i);
    rule_four(&mut cur_boid, size);
    match goal {
        Some(g) => rule_five(&mut cur_boid, g),
        None => {},
    }
    cur_boid.pos.x = clamp_to_range(cur_boid.pos.x + cur_boid.vel.x);
    cur_boid.pos.y = clamp_to_range(cur_boid.pos.y + cur_boid.vel.y);
    cur_boid
}

} // verus!
