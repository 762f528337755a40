use flock::{Boid, BoidFlock, Vec2, MAX_SPEED_FRAME, MAX_SPEED_SQ, WALL_ACC};

fn v(x: i64, y: i64) -> Vec2 {
    Vec2::new(x, y)
}

fn boid(px: i64, py: i64, vx: i64, vy: i64) -> Boid {
    Boid { pos: v(px, py), vel: v(vx, vy) }
}

const WORLD: i64 = 1_000_000;

#[test]
fn new_places_every_agent_inside_the_world() {
    let size = v(800_000, 600_000);
    let flock = BoidFlock::new(150, size, 42);
    let agents = flock.iter();
    assert_eq!(agents.len(), 150);
    for b in agents {
        assert!(0 <= b.pos.x && b.pos.x < size.x);
        assert!(0 <= b.pos.y && b.pos.y < size.y);
        // Spawned velocities are never negative: the initial heading is biased.
        assert!(0 <= b.vel.x && b.vel.x < MAX_SPEED_FRAME);
        assert!(0 <= b.vel.y && b.vel.y < MAX_SPEED_FRAME);
    }
    assert_eq!(flock.get_goal(), None);
}

#[test]
fn new_with_no_agents_is_empty() {
    let mut flock = BoidFlock::new(0, v(WORLD, WORLD), 7);
    assert_eq!(flock.iter().len(), 0);
    flock.update();
    assert_eq!(flock.iter().len(), 0);
}

#[test]
fn same_seed_gives_same_flock() {
    let a = BoidFlock::new(20, v(WORLD, WORLD), 99);
    let b = BoidFlock::new(20, v(WORLD, WORLD), 99);
    assert_eq!(a.iter(), b.iter());
    let positions: Vec<Vec2> = a.iter().iter().map(|b| b.pos).collect();
    assert!(positions.iter().any(|p| *p != positions[0]));
}

#[test]
fn spawn_scales_draws_into_the_world() {
    let space = v(1000, 2000);
    assert_eq!(Boid::from_draws(0, 0, 0, 0, &space), boid(0, 0, 0, 0));
    let half = 1u32 << 31;
    assert_eq!(Boid::from_draws(half, half, half, half, &space), boid(500, 1000, 4166, 4166));
    let top = Boid::from_draws(u32::MAX, u32::MAX, u32::MAX, u32::MAX, &space);
    assert_eq!(top, boid(999, 1999, 8332, 8332));
}

#[test]
fn update_keeps_population_and_bounds() {
    let mut flock = BoidFlock::new(60, v(WORLD, WORLD), 3);
    for _ in 0..100 {
        flock.update();
        assert_eq!(flock.iter().len(), 60);
    }
}

#[test]
fn speed_is_limited_away_from_walls() {
    let mut flock = BoidFlock::new(80, v(400_000, 400_000), 11);
    for _ in 0..50 {
        let before: Vec<Boid> = flock.iter().to_vec();
        flock.update();
        for (old, new) in before.iter().zip(flock.iter()) {
            let inside = |p: i64, e: i64| e * 10 / 100 <= p && p <= e * 90 / 100;
            if inside(old.pos.x, 400_000) && inside(old.pos.y, 400_000) {
                assert!(new.vel.x * new.vel.x + new.vel.y * new.vel.y <= MAX_SPEED_SQ);
            }
        }
    }
}

#[test]
fn speed_limit_keeps_direction() {
    let mut flock = BoidFlock::from_agents(vec![boid(500_000, 500_000, 30_000, 40_000)], v(WORLD, WORLD));
    flock.update();
    assert_eq!(flock.iter()[0], boid(504_999, 506_666, 4999, 6666));
}

#[test]
fn slow_agent_is_not_sped_up() {
    // The smallest speed is not enforced.
    let mut flock = BoidFlock::from_agents(vec![boid(500_000, 500_000, 1, 0)], v(WORLD, WORLD));
    flock.update();
    assert_eq!(flock.iter()[0], boid(500_001, 500_000, 1, 0));
}

#[test]
fn lone_agent_mid_field_keeps_its_velocity() {
    let mut flock = BoidFlock::from_agents(vec![boid(500_000, 500_000, 1000, 0)], v(WORLD, WORLD));
    flock.update();
    assert_eq!(flock.iter()[0], boid(501_000, 500_000, 1000, 0));
}

#[test]
fn lone_agent_in_margin_is_pushed_off_the_wall() {
    let mut flock = BoidFlock::from_agents(vec![boid(50_000, 500_000, 0, 0)], v(WORLD, WORLD));
    flock.update();
    assert_eq!(flock.iter()[0], boid(50_000 + WALL_ACC, 500_000, WALL_ACC, 0));
}

#[test]
fn distant_pair_does_not_interact() {
    let agents = vec![boid(400_000, 500_000, 100, 0), boid(500_000, 500_000, 0, 100)];
    let mut flock = BoidFlock::from_agents(agents, v(WORLD, WORLD));
    flock.update();
    assert_eq!(flock.iter()[0], boid(400_100, 500_000, 100, 0));
    assert_eq!(flock.iter()[1], boid(500_000, 500_100, 0, 100));
}

#[test]
fn close_pair_moves_apart() {
    let agents = vec![boid(500_000, 500_000, 0, 0), boid(510_000, 500_000, 0, 0)];
    let mut flock = BoidFlock::from_agents(agents, v(WORLD, WORLD));
    flock.update();
    let a = flock.iter()[0];
    let b = flock.iter()[1];
    assert_eq!(a, boid(499_572, 500_000, -428, 0));
    assert_eq!(b, boid(510_428, 500_000, 428, 0));
    assert!(b.pos.x - a.pos.x > 10_000);
}

#[test]
fn cohesion_and_alignment_exact_values() {
    let agents = vec![boid(500_000, 500_000, 1000, 0), boid(550_000, 500_000, 0, 0)];
    let mut flock = BoidFlock::from_agents(agents, v(WORLD, WORLD));
    flock.update();
    assert_eq!(flock.iter()[0], boid(501_188, 500_000, 1188, 0));
    assert_eq!(flock.iter()[1], boid(549_822, 500_000, -178, 0));
}

#[test]
fn goal_draws_stationary_agent_toward_it() {
    let size = v(2_000_000, 2_000_000);
    let mut flock = BoidFlock::from_agents(vec![boid(500_000, 1_000_000, 0, 0)], size);
    flock.set_goal(Some(v(1_500_000, 1_000_000)));
    assert_eq!(flock.get_goal(), Some(v(1_500_000, 1_000_000)));
    let mut speeds = Vec::new();
    for _ in 0..3 {
        flock.update();
        let b = flock.iter()[0];
        assert_eq!(b.vel.y, 0);
        speeds.push(b.vel.x);
    }
    assert_eq!(speeds[0], 5000);
    assert!(speeds[0] < speeds[1] && speeds[1] < speeds[2]);
    for _ in 0..20 {
        flock.update();
        assert!(flock.iter()[0].vel.x >= MAX_SPEED_FRAME);
    }
    flock.set_goal(None);
    assert_eq!(flock.get_goal(), None);
}

#[test]
fn agent_at_far_edge_bounces() {
    let mut flock = BoidFlock::from_agents(vec![boid(WORLD - 1, 500_000, 2000, 0)], v(WORLD, WORLD));
    flock.update();
    let b = flock.iter()[0];
    assert_eq!(b.vel, v(-1000 - WALL_ACC, 0));
    assert_eq!(b.pos, v(WORLD - 1 - 1000 - WALL_ACC, 500_000));
}

#[test]
fn agent_past_the_edge_turns_back() {
    let mut flock = BoidFlock::from_agents(vec![boid(WORLD + 50_000, 500_000, 1000, 0)], v(WORLD, WORLD));
    flock.update();
    let first = flock.iter()[0];
    assert_eq!(first.vel.x, -500 - WALL_ACC);
    flock.update();
    let second = flock.iter()[0];
    assert!(second.pos.x < first.pos.x);
}

#[test]
fn resize_moves_the_wall() {
    let agents = vec![boid(700_000, 500_000, 2000, 0)];
    let mut flock = BoidFlock::from_agents(agents.clone(), v(WORLD, WORLD));
    flock.update();
    assert_eq!(flock.iter()[0].vel.x, 2000);
    let mut flock = BoidFlock::from_agents(agents, v(WORLD, WORLD));
    flock.resize(v(701_000, WORLD));
    flock.update();
    assert_eq!(flock.iter()[0].vel.x, -1000 - WALL_ACC);
}

#[test]
fn pair_one_unit_apart_still_separates() {
    let agents = vec![boid(500_000, 500_000, 0, 0), boid(500_001, 500_000, 0, 0)];
    let mut flock = BoidFlock::from_agents(agents, v(WORLD, WORLD));
    flock.update();
    let a = flock.iter()[0];
    let b = flock.iter()[1];
    assert_eq!(a.vel, v(-1, 0));
    assert_eq!(b.vel, v(1, 0));
    assert_eq!(b.pos.x - a.pos.x, 3);
}

#[test]
fn goal_close_by_still_pulls() {
    let mut flock = BoidFlock::from_agents(vec![boid(500_000, 500_000, 0, 0)], v(WORLD, WORLD));
    flock.set_goal(Some(v(500_100, 499_900)));
    flock.update();
    assert_eq!(flock.iter()[0].vel, v(1, -1));
}
