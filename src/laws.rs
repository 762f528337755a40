//! Properties of one frame of the flock, stated over the rules' model.
use vstd::prelude::*;
use crate::geom::{Vec2, tdiv, adiv, lemma_adiv_bound, lemma_adiv_sign, dist_sq, ceil_sqrt, is_ceil_sqrt, lemma_ceil_sqrt_exists, lemma_tdiv_shrinks};
use crate::boid::{Boid, valid_extent, MAX_PERCEIVE_SQ, MAX_SPEED_FRAME, MAX_SPEED_SQ, MIN_DIST_SQ, WALL_ACC};
use crate::rules::{
    near_count, near_pos_sum, near_vel_sum, push_sum, push_of, is_near, cohesion, separation, alignment,
    limit_speed, bounce_axis, bounds_axis, limit_and_bound, seek, steer, step_boid, wall_low,
    wall_high, boosted_average, lemma_limit_bound,
};

verus! {

/// Size of a quotient rounded toward zero, times the divisor, is at most the
/// size of the dividend.
proof fn lemma_tdiv_times_le(a: int, d: int)
    requires
        d > 0,
    ensures
        tdiv(a, d) * tdiv(a, d) * (d * d) <= a * a,
{
    let q = tdiv(a, d);
    if a >= 0 {
        assert(0 <= q * d <= a) by (nonlinear_arith)
            requires
                q == a / d,
                d > 0,
                a >= 0,
        ;
        assert(q * q * (d * d) <= a * a) by (nonlinear_arith)
            requires
                0 <= q * d <= a,
        ;
    } else {
        assert(0 <= -q * d <= -a) by (nonlinear_arith)
            requires
                -q == (-a) / d,
                d > 0,
                -a >= 0,
        ;
        assert(q * q * (d * d) <= a * a) by (nonlinear_arith)
            requires
                0 <= -q * d <= -a,
        ;
    }
}

/// The speed limit never leaves a velocity longer than the largest speed.
pub proof fn lemma_limit_speed_norm(v: (int, int))
    ensures
        limit_speed(v).0 * limit_speed(v).0 + limit_speed(v).1 * limit_speed(v).1 <= MAX_SPEED_SQ,
{
    let l2 = v.0 * v.0 + v.1 * v.1;
    if l2 > MAX_SPEED_SQ {
        let l = ceil_sqrt(l2);
        assert(v.0 * v.0 >= 0 && v.1 * v.1 >= 0) by (nonlinear_arith);
        lemma_ceil_sqrt_exists(l2);
        assert(is_ceil_sqrt(l2, l));
        assert(l > 0) by (nonlinear_arith)
            requires
                l >= 0,
                l * l >= l2,
                l2 > 0,
        ;
        let m = MAX_SPEED_FRAME as int;
        let rx = tdiv(v.0 * m, l);
        let ry = tdiv(v.1 * m, l);
        lemma_tdiv_times_le(v.0 * m, l);
        lemma_tdiv_times_le(v.1 * m, l);
        let xx = rx * rx;
        let yy = ry * ry;
        let ll = l * l;
        let n2 = v.0 * v.0 + v.1 * v.1;
        let mm = m * m;
        assert((v.0 * m) * (v.0 * m) + (v.1 * m) * (v.1 * m) == mm * n2) by (nonlinear_arith)
            requires
                mm == m * m,
                n2 == v.0 * v.0 + v.1 * v.1,
        ;
        assert((xx + yy) * ll <= mm * n2) by (nonlinear_arith)
            requires
                xx * ll + yy * ll <= mm * n2,
        ;
        assert(mm * n2 <= mm * ll) by (nonlinear_arith)
            requires
                n2 <= ll,
                mm >= 0,
        ;
        assert(xx + yy <= mm) by (nonlinear_arith)
            requires
                (xx + yy) * ll <= mm * ll,
                ll > 0,
        ;
    } else {
    }
}

/// A bounce never lengthens a velocity component.
proof fn lemma_bounce_shrinks(p: int, v: int, extent: int)
    ensures
        bounce_axis(p, v, extent) * bounce_axis(p, v, extent) <= v * v,
{
    lemma_tdiv_shrinks(-v, 2);
    let b = bounce_axis(p, v, extent);
    assert(b * b <= v * v) by (nonlinear_arith)
        requires
            (0 <= b <= v) || (v <= b <= 0) || (0 <= b <= -v) || (-v <= b <= 0),
    ;
}

/// Without a goal, an agent that starts the frame outside every wall margin
/// ends it no faster than the largest speed.
pub proof fn speed_bounded_without_goal(all: Seq<Boid>, i: int, size: Vec2)
    requires
        0 <= i < all.len(),
        valid_extent(size),
        wall_low(size.x as int) <= all[i].pos.x <= wall_high(size.x as int),
        wall_low(size.y as int) <= all[i].pos.y <= wall_high(size.y as int),
    ensures
        ({
            let b = step_boid(all, i, size, None);
            b.vel.x * b.vel.x + b.vel.y * b.vel.y <= MAX_SPEED_SQ
        }),
{
    let p = all[i].pos;
    let v3 = alignment(all, i, separation(all, i, cohesion(all, i, (all[i].vel.x as int, all[i].vel.y as int))));
    let w = limit_speed(v3);
    lemma_limit_speed_norm(v3);
    lemma_bounce_shrinks(p.x as int, w.0, size.x as int);
    lemma_bounce_shrinks(p.y as int, w.1, size.y as int);
    let v = steer(all, i, size, None);
    assert(v == (bounce_axis(p.x as int, w.0, size.x as int), bounce_axis(p.y as int, w.1, size.y as int)));
    assert(v.0 * v.0 >= 0 && v.1 * v.1 >= 0) by (nonlinear_arith);
    assert(-MAX_SPEED_FRAME <= v.0 <= MAX_SPEED_FRAME && -MAX_SPEED_FRAME <= v.1 <= MAX_SPEED_FRAME)
        by (nonlinear_arith)
        requires
            v.0 * v.0 + v.1 * v.1 <= MAX_SPEED_FRAME * MAX_SPEED_FRAME,
            v.0 * v.0 >= 0,
            v.1 * v.1 >= 0,
    ;
}

/// No agent is near agent `i` when `i` is the only agent within reach.
proof fn lemma_none_near(all: Seq<Boid>, i: int, r2: int, n: int)
    requires
        0 <= n <= all.len(),
        forall|j: int| 0 <= j < n ==> !is_near(all, i, j, r2),
    ensures
        near_count(all, i, r2, n) == 0,
        near_pos_sum(all, i, r2, n) == (0int, 0int),
        near_vel_sum(all, i, r2, n) == (0int, 0int),
        r2 == MIN_DIST_SQ ==> push_sum(all, i, n) == (0int, 0int),
    decreases n,
{
    if n > 0 {
        lemma_none_near(all, i, r2, n - 1);
    }
}

/// With no agent within perception distance of agent `i`, cohesion,
/// separation and alignment leave its velocity as it was: only the speed limit,
/// the bounds and the goal steer it.
pub proof fn unseen_neighbours_exert_nothing(all: Seq<Boid>, i: int, size: Vec2, goal: Option<Vec2>)
    requires
        0 <= i < all.len(),
        forall|j: int| 0 <= j < all.len() && j != i ==> dist_sq(all[i].pos, all[j].pos) >= MAX_PERCEIVE_SQ,
    ensures
        steer(all, i, size, goal) == seek(
            all[i].pos,
            limit_and_bound(all[i].pos, (all[i].vel.x as int, all[i].vel.y as int), size),
            goal,
        ),
{
    let n = all.len() as int;
    assert forall|j: int| 0 <= j < n implies !is_near(all, i, j, MAX_PERCEIVE_SQ as int) && !is_near(
        all,
        i,
        j,
        MIN_DIST_SQ as int,
    ) by {}
    lemma_none_near(all, i, MAX_PERCEIVE_SQ as int, n);
    lemma_none_near(all, i, MIN_DIST_SQ as int, n);
}

/// A lone agent is steered only by the speed limit, the bounds and the goal.
pub proof fn lone_agent_ignores_neighbour_rules(all: Seq<Boid>, size: Vec2, goal: Option<Vec2>)
    requires
        all.len() == 1,
    ensures
        steer(all, 0, size, goal) == seek(
            all[0].pos,
            limit_and_bound(all[0].pos, (all[0].vel.x as int, all[0].vel.y as int), size),
            goal,
        ),
{
    unseen_neighbours_exert_nothing(all, 0, size, goal);
}

/// Two agents farther apart than the perception distance do not steer each other.
pub proof fn distant_pair_ignores_each_other(all: Seq<Boid>, size: Vec2, goal: Option<Vec2>)
    requires
        all.len() == 2,
        dist_sq(all[0].pos, all[1].pos) >= MAX_PERCEIVE_SQ,
    ensures
        forall|i: int|
            0 <= i < 2 ==> steer(all, i, size, goal) == seek(
                all[i].pos,
                limit_and_bound(all[i].pos, (all[i].vel.x as int, all[i].vel.y as int), size),
                goal,
            ),
{
    let a = all[0].pos;
    let b = all[1].pos;
    assert(dist_sq(b, a) == dist_sq(a, b)) by (nonlinear_arith);
    unseen_neighbours_exert_nothing(all, 0, size, goal);
    unseen_neighbours_exert_nothing(all, 1, size, goal);
}

/// Of two agents closer than the separation distance, separation pushes agent
/// `i` away from the other along each axis: never toward it.
pub proof fn separation_pushes_apart(all: Seq<Boid>, v: (int, int))
    requires
        all.len() == 2,
        dist_sq(all[0].pos, all[1].pos) < MIN_DIST_SQ,
    ensures
        forall|i: int|
            0 <= i < 2 ==> {
                let d = (all[1 - i].pos.x - all[i].pos.x, all[1 - i].pos.y - all[i].pos.y);
                let s = #[trigger] separation(all, i, v);
                &&& (d.0 >= 0 ==> s.0 <= v.0) &&& (d.0 <= 0 ==> s.0 >= v.0)
                &&& (d.1 >= 0 ==> s.1 <= v.1) &&& (d.1 <= 0 ==> s.1 >= v.1)
            },
{
    let a = all[0].pos;
    let b = all[1].pos;
    assert(dist_sq(b, a) == dist_sq(a, b)) by (nonlinear_arith);
    assert(is_near(all, 0, 1, MIN_DIST_SQ as int));
    assert(is_near(all, 1, 0, MIN_DIST_SQ as int));
    assert(!is_near(all, 0, 0, MIN_DIST_SQ as int));
    assert(!is_near(all, 1, 1, MIN_DIST_SQ as int));
    lemma_pair_pushes(all);
    lemma_adiv_sign(b.x - a.x, 20);
    lemma_adiv_sign(b.y - a.y, 20);
    lemma_adiv_sign(a.x - b.x, 20);
    lemma_adiv_sign(a.y - b.y, 20);
}

/// Goal seeking changes each velocity component toward the goal, never away
/// from it, and strictly along every axis on which the agent is off the goal.
pub proof fn goal_draws_toward_goal(p: Vec2, v: (int, int), g: Vec2)
    ensures
        ({
            let s = seek(p, v, Some(g));
            &&& (g.x > p.x ==> s.0 > v.0) &&& (g.x < p.x ==> s.0 < v.0) &&& (g.x == p.x ==> s.0 == v.0)
            &&& (g.y > p.y ==> s.1 > v.1) &&& (g.y < p.y ==> s.1 < v.1) &&& (g.y == p.y ==> s.1 == v.1)
        }),
{
    lemma_adiv_sign(g.x - p.x, 200);
    lemma_adiv_sign(g.y - p.y, 200);
}

/// An agent one unit inside the far wall, moving outward by more than a unit
/// per frame, has that component reversed and halved, then pushed off the wall.
pub proof fn edge_agent_bounces(extent: int, v: int)
    requires
        extent > 10,
        v >= 2,
    ensures
        bounds_axis(extent - 1, v, extent) == tdiv(-v, 2) - WALL_ACC,
        bounds_axis(extent - 1, v, extent) < 0,
{
    assert(extent * 90 / 100 < extent - 1) by (nonlinear_arith)
        requires
            extent > 10,
    ;
    assert(extent * 10 / 100 <= extent - 1) by (nonlinear_arith)
        requires
            extent > 10,
    ;
    lemma_tdiv_shrinks(-v, 2);
}

/// An agent already past the far wall and moving further out is turned back.
pub proof fn outside_agent_turns_back(p: int, v: int, extent: int)
    requires
        extent > 0,
        p > extent,
        v > 0,
    ensures
        bounds_axis(p, v, extent) < 0,
{
    lemma_tdiv_shrinks(-v, 2);
}

/// The separation sums of a pair that is within the separation distance.
proof fn lemma_pair_pushes(all: Seq<Boid>)
    requires
        all.len() == 2,
        dist_sq(all[0].pos, all[1].pos) < MIN_DIST_SQ,
    ensures
        push_sum(all, 0, 2) == (adiv(all[1].pos.x - all[0].pos.x, 20), adiv(all[1].pos.y - all[0].pos.y, 20)),
        push_sum(all, 1, 2) == (adiv(all[0].pos.x - all[1].pos.x, 20), adiv(all[0].pos.y - all[1].pos.y, 20)),
{
    let a = all[0].pos;
    let b = all[1].pos;
    assert(dist_sq(b, a) == dist_sq(a, b)) by (nonlinear_arith);
    assert(is_near(all, 0, 1, MIN_DIST_SQ as int));
    assert(is_near(all, 1, 0, MIN_DIST_SQ as int));
    assert(!is_near(all, 0, 0, MIN_DIST_SQ as int));
    assert(!is_near(all, 1, 1, MIN_DIST_SQ as int));
    assert(push_sum(all, 0, 0) == (0int, 0int));
    assert(push_sum(all, 1, 0) == (0int, 0int));
    assert(push_sum(all, 0, 1) == (0int, 0int));
    assert(push_sum(all, 1, 1) == push_of(all, 1, 0));
    assert(push_sum(all, 0, 2) == push_of(all, 0, 1));
}

/// One axis of cohesion, separation and alignment for an agent at rest whose
/// only neighbour, also at rest, is at displacement `d` along that axis.
spec fn rest_pair_axis(d: int) -> int {
    let w = tdiv(d, 200) - adiv(d, 20);
    w + tdiv(0 - w, 20)
}

proof fn lemma_rest_pair_axis(d: int)
    requires
        -20000 < d < 20000,
    ensures
        d > 0 ==> rest_pair_axis(d) < 0,
        d < 0 ==> rest_pair_axis(d) > 0,
        d == 0 ==> rest_pair_axis(d) == 0,
        -1200 <= rest_pair_axis(d) <= 1200,
        rest_pair_axis(-d) == -rest_pair_axis(d),
{
    let t = tdiv(d, 200);
    let a = adiv(d, 20);
    lemma_adiv_bound(d, 20, 1000);
    lemma_tdiv_shrinks(d, 200);
    let w = t - a;
    if d > 0 {
        assert(200 * t <= d) by (nonlinear_arith)
            requires
                t == d / 200,
                d > 0,
        ;
        assert(w <= -1);
        let q = (-w) / 20;
        assert(0 <= q < -w) by (nonlinear_arith)
            requires
                q == (-w) / 20,
                -w >= 1,
        ;
    } else if d < 0 {
        assert(200 * (-t) <= -d) by (nonlinear_arith)
            requires
                -t == (-d) / 200,
                -d > 0,
        ;
        assert(w >= 1);
        let q = w / 20;
        assert(0 <= q < w) by (nonlinear_arith)
            requires
                q == w / 20,
                w >= 1,
        ;
    }
    lemma_tdiv_shrinks(0 - w, 20);
}

/// A coordinate that starts inside both wall margins and moves by less than a
/// tenth of a large enough extent is neither bounced nor pushed.
proof fn lemma_quiet_axis(p: int, v: int, extent: int)
    requires
        extent >= 20000,
        wall_low(extent) <= p <= wall_high(extent),
        -1200 <= v <= 1200,
    ensures
        bounds_axis(p, v, extent) == v,
        0 <= p + v <= extent,
{
    assert(extent * 10 / 100 >= 2000 && extent * 90 / 100 <= extent - 2000) by (nonlinear_arith)
        requires
            extent >= 20000,
    ;
}

/// Two agents at rest, closer than the separation distance but not at the same
/// place, in the middle of a large enough world and with no goal, are farther
/// apart after one frame.
pub proof fn close_pair_moves_apart(all: Seq<Boid>, size: Vec2)
    requires
        all.len() == 2,
        all[0].vel == (Vec2 { x: 0, y: 0 }),
        all[1].vel == (Vec2 { x: 0, y: 0 }),
        0 < dist_sq(all[0].pos, all[1].pos) < MIN_DIST_SQ,
        valid_extent(size),
        size.x >= 20000,
        size.y >= 20000,
        forall|i: int|
            0 <= i < 2 ==> wall_low(size.x as int) <= (#[trigger] all[i]).pos.x <= wall_high(size.x as int)
                && wall_low(size.y as int) <= all[i].pos.y <= wall_high(size.y as int),
    ensures
        dist_sq(step_boid(all, 0, size, None).pos, step_boid(all, 1, size, None).pos) > dist_sq(
            all[0].pos,
            all[1].pos,
        ),
{
    let a = all[0].pos;
    let b = all[1].pos;
    let dx = b.x - a.x;
    let dy = b.y - a.y;
    let r2 = MAX_PERCEIVE_SQ as int;
    assert(all[0].pos.x == a.x && all[1].pos.x == b.x);
    assert(dist_sq(b, a) == dist_sq(a, b)) by (nonlinear_arith);
    assert(dx * dx >= 0 && dy * dy >= 0) by (nonlinear_arith);
    assert(-20000 < dx < 20000 && -20000 < dy < 20000) by (nonlinear_arith)
        requires
            dx * dx + dy * dy < 400000000,
            dx * dx >= 0,
            dy * dy >= 0,
    ;
    // Each agent sees exactly the other one.
    assert(is_near(all, 0, 1, r2) && is_near(all, 1, 0, r2));
    assert(!is_near(all, 0, 0, r2) && !is_near(all, 1, 1, r2));
    assert(near_count(all, 0, r2, 0) == 0 && near_count(all, 1, r2, 0) == 0);
    assert(near_count(all, 0, r2, 1) == 0 && near_count(all, 1, r2, 1) == 1);
    assert(near_count(all, 0, r2, 2) == 1 && near_count(all, 1, r2, 2) == 1);
    assert(near_pos_sum(all, 0, r2, 0) == (0int, 0int) && near_pos_sum(all, 1, r2, 0) == (0int, 0int));
    assert(near_pos_sum(all, 0, r2, 1) == (0int, 0int));
    assert(near_pos_sum(all, 1, r2, 1) == (a.x as int, a.y as int));
    assert(near_pos_sum(all, 0, r2, 2) == (b.x as int, b.y as int));
    assert(near_pos_sum(all, 1, r2, 2) == (a.x as int, a.y as int));
    assert(near_vel_sum(all, 0, r2, 0) == (0int, 0int) && near_vel_sum(all, 1, r2, 0) == (0int, 0int));
    assert(near_vel_sum(all, 0, r2, 1) == (0int, 0int) && near_vel_sum(all, 1, r2, 1) == (0int, 0int));
    assert(near_vel_sum(all, 0, r2, 2) == (0int, 0int) && near_vel_sum(all, 1, r2, 2) == (0int, 0int));
    lemma_pair_pushes(all);
    assert(tdiv(b.x as int, 1) == b.x && tdiv(b.y as int, 1) == b.y);
    assert(tdiv(a.x as int, 1) == a.x && tdiv(a.y as int, 1) == a.y);
    assert(boosted_average(0, 1) == 0);
    lemma_rest_pair_axis(dx);
    lemma_rest_pair_axis(dy);
    let fx = rest_pair_axis(dx);
    let fy = rest_pair_axis(dy);
    assert(-dx == a.x - b.x && -dy == a.y - b.y);
    let v0 = alignment(all, 0, separation(all, 0, cohesion(all, 0, (0, 0))));
    let v1 = alignment(all, 1, separation(all, 1, cohesion(all, 1, (0, 0))));
    assert(v0 == (fx, fy));
    assert(v1 == (-fx, -fy));
    assert(fx * fx <= 1440000 && fy * fy <= 1440000) by (nonlinear_arith)
        requires
            -1200 <= fx <= 1200,
            -1200 <= fy <= 1200,
    ;
    assert(limit_speed(v0) == v0);
    assert((-fx) * (-fx) == fx * fx && (-fy) * (-fy) == fy * fy) by (nonlinear_arith);
    assert(limit_speed(v1) == v1);
    assert(all[0].pos.x >= wall_low(size.x as int) && all[1].pos.x >= wall_low(size.x as int));
    lemma_quiet_axis(a.x as int, fx, size.x as int);
    lemma_quiet_axis(a.y as int, fy, size.y as int);
    lemma_quiet_axis(b.x as int, -fx, size.x as int);
    lemma_quiet_axis(b.y as int, -fy, size.y as int);
    assert(steer(all, 0, size, None) == (fx, fy));
    assert(steer(all, 1, size, None) == (-fx, -fy));
    let n0 = step_boid(all, 0, size, None).pos;
    let n1 = step_boid(all, 1, size, None).pos;
    assert(n0.x == a.x + fx && n0.y == a.y + fy);
    assert(n1.x == b.x - fx && n1.y == b.y - fy);
    assert((dx - 2 * fx) * (dx - 2 * fx) >= dx * dx && (dx != 0 ==> (dx - 2 * fx) * (dx - 2 * fx) > dx * dx))
        by (nonlinear_arith)
        requires
            dx > 0 ==> fx < 0,
            dx < 0 ==> fx > 0,
            dx == 0 ==> fx == 0,
    ;
    assert((dy - 2 * fy) * (dy - 2 * fy) >= dy * dy && (dy != 0 ==> (dy - 2 * fy) * (dy - 2 * fy) > dy * dy))
        by (nonlinear_arith)
        requires
            dy > 0 ==> fy < 0,
            dy < 0 ==> fy > 0,
            dy == 0 ==> fy == 0,
    ;
    assert(dx != 0 || dy != 0);
    assert(dist_sq(n0, n1) == (dx - 2 * fx) * (dx - 2 * fx) + (dy - 2 * fy) * (dy - 2 * fy));
}

/// Without a goal, wherever the agent is, each velocity component after a
/// frame is at most the largest speed plus one wall push.
pub proof fn speed_bounded_with_wall_push(all: Seq<Boid>, i: int, size: Vec2)
    requires
        0 <= i < all.len(),
        valid_extent(size),
    ensures
        ({
            let b = step_boid(all, i, size, None);
            &&& -(MAX_SPEED_FRAME + WALL_ACC) <= b.vel.x <= MAX_SPEED_FRAME + WALL_ACC
            &&& -(MAX_SPEED_FRAME + WALL_ACC) <= b.vel.y <= MAX_SPEED_FRAME + WALL_ACC
        }),
{
    let p = all[i].pos;
    let v3 = alignment(all, i, separation(all, i, cohesion(all, i, (all[i].vel.x as int, all[i].vel.y as int))));
    let w = limit_speed(v3);
    lemma_limit_bound(v3.0, v3.1);
    lemma_tdiv_shrinks(-w.0, 2);
    lemma_tdiv_shrinks(-w.1, 2);
    assert(wall_low(size.x as int) <= wall_high(size.x as int) && wall_low(size.y as int) <= wall_high(size.y as int))
        by (nonlinear_arith)
        requires
            size.x > 0,
            size.y > 0,
    ;
}

} // verus!
