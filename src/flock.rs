//! The double-buffered flock: every frame is computed from the current buffer
//! into the other one, which then becomes current.
use vstd::prelude::*;
use crate::geom::Vec2;
use crate::boid::{
    Boid, spawned_nth, MAX_SPEED, MIN_SPEED, FPS, MIN_SPEED_FRAME, all_in_range, goal_in_range, valid_extent, MAX_BOIDS, MAX_SPEED_FRAME, MAX_SPEED_SQ,
    MIN_SPEED_SQ,
};
use crate::rng::Generator;
use crate::rules::{step_all, step_boid, step_one};

verus! {

pub struct BoidFlock {
    front: Vec<Boid>,
    back: Vec<Boid>,
    len: usize,
    size: Vec2,
    cur: usize,
    goal: Option<Vec2>,
}

impl BoidFlock {
    /// The current buffer: the agents as callers see them.
    pub closed spec fn agents(&self) -> Seq<Boid> {
        if self.cur == 0 {
            self.front@
        } else {
            self.back@
        }
    }

    /// The other buffer, written by the next frame.
    pub closed spec fn spare(&self) -> Seq<Boid> {
        if self.cur == 0 {
            self.back@
        } else {
            self.front@
        }
    }

    /// The world's extent.
    pub closed spec fn extent(&self) -> Vec2 {
        self.size
    }

    /// The goal the agents are drawn to, if any.
    pub closed spec fn target(&self) -> Option<Vec2> {
        self.goal
    }

    /// Both buffers hold the fixed population, the extent is positive, and every
    /// value is small enough for the next frame to be computed exactly.
    pub closed spec fn wf(&self) -> bool {
        &&& self.front.len() == self.len
        &&& self.back.len() == self.len
        &&& self.len <= MAX_BOIDS
        &&& self.cur < 2
        &&& valid_extent(self.size)
        &&& goal_in_range(self.goal)
        &&& all_in_range(self.agents())
    }

    /// A flock of `count` agents placed by a generator seeded with `seed`: each
    /// position in `[0, size.x) x [0, size.y)`, each velocity component in
    /// `[0, MAX_SPEED_FRAME)`, both buffers equal, and no goal.
    pub fn new(count: usize, size: Vec2, seed: u64) -> (r: BoidFlock)
        requires
            count <= MAX_BOIDS,
            valid_extent(size),
        ensures
            r.wf(),
            r.agents().len() == count,
            r.spare() == r.agents(),
            r.extent() == size,
            r.target() is None,
            forall|i: int| 0 <= i < count ==> #[trigger] r.agents()[i] == spawned_nth(seed, i as nat, size),
            forall|i: int|
                0 <= i < count ==> {
                    let b = #[trigger] r.agents()[i];
                    &&& 0 <= b.pos.x < size.x
                    &&& 0 <= b.pos.y < size.y
                    &&& 0 <= b.vel.x < MAX_SPEED_FRAME
                    &&& 0 <= b.vel.y < MAX_SPEED_FRAME
                },
    {
        assert(MAX_SPEED_SQ > MIN_SPEED_SQ);
        assert(MAX_SPEED_FRAME == (MAX_SPEED as int) / (FPS as int) && MIN_SPEED_FRAME == (MIN_SPEED as int) / (FPS as int));
        let mut rng = Generator::new(seed);
        let mut front: Vec<Boid> = Vec::with_capacity(count);
        let mut back: Vec<Boid> = Vec::with_capacity(count);
        let mut k: usize = 0;
        while k < count
            invariant
                k <= count,
                valid_extent(size),
                front@.len() == k,
                back@ == front@,
                rng.seed() == seed,
                rng.drawn() == 4 * k,
                forall|i: int| 0 <= i < k ==> #[trigger] front@[i] == spawned_nth(seed, i as nat, size),
                forall|i: int|
                    0 <= i < k ==> {
                        let b = #[trigger] front@[i];
                        &&& 0 <= b.pos.x < size.x
                        &&& 0 <= b.pos.y < size.y
                        &&& 0 <= b.vel.x < MAX_SPEED_FRAME
                        &&& 0 <= b.vel.y < MAX_SPEED_FRAME
                    },
            decreases count - k,
        {
            let b = Boid::new(&mut rng, &size);
            assert(b == spawned_nth(seed, k as nat, size));
            front.push(b);
            back.push(b);
            k += 1;
        }
        let r = BoidFlock { front, back, len: count, size, cur: 0, goal: None };
        assert(all_in_range(r.agents())) by {
            assert forall|j: int| 0 <= j < r.agents().len() implies (#[trigger] r.agents()[j]).in_range() by {
                assert(0 <= r.agents()[j].pos.x < size.x);
            }
        }
        r
    }

    /// A flock holding exactly `agents`, with no goal.
    pub fn from_agents(agents: Vec<Boid>, size: Vec2) -> (r: BoidFlock)
        requires
            agents.len() <= MAX_BOIDS,
            all_in_range(agents@),
            valid_extent(size),
        ensures
            r.wf(),
            r.agents() == agents@,
            r.spare() == agents@,
            r.extent() == size,
            r.target() is None,
    {
        let mut back: Vec<Boid> = Vec::with_capacity(agents.len());
        let mut k: usize = 0;
        while k < agents.len()
            invariant
                k <= agents.len(),
                back@ == agents@.subrange(0, k as int),
            decreases agents.len() - k,
        {
            back.push(agents[k]);
            k += 1;
        }
        assert(back@ == agents@);
        let len = agents.len();
        BoidFlock { front: agents, back, len, size, cur: 0, goal: None }
    }

    /// The current agents, in index order.
    pub fn iter(&self) -> (r: &[Boid])
        ensures
            r@ == self.agents(),
    {
        if self.cur == 0 {
            self.front.as_slice()
        } else {
            self.back.as_slice()
        }
    }

    /// Replaces the world's extent; the next frame's bounds use it.
    pub fn resize(&mut self, new: Vec2)
        requires
            old(self).wf(),
            valid_extent(new),
        ensures
            final(self).wf(),
            final(self).extent() == new,
            final(self).agents() == old(self).agents(),
            final(self).spare() == old(self).spare(),
            final(self).target() == old(self).target(),
    {
        self.size = new;
    }

    pub fn set_goal(&mut self, new: Option<Vec2>)
        requires
            old(self).wf(),
            goal_in_range(new),
        ensures
            final(self).wf(),
            final(self).target() == new,
            final(self).agents() == old(self).agents(),
            final(self).spare() == old(self).spare(),
            final(self).extent() == old(self).extent(),
    {
        self.goal = new;
    }

    pub fn get_goal(&self) -> (r: Option<Vec2>)
        ensures
            r == self.target(),
    {
        self.goal
    }

    /// Writes the frame after `from` into `to`, slot by slot.
    fn step_into(from: &Vec<Boid>, to: &mut Vec<Boid>, size: Vec2, goal: Option<Vec2>)
        requires
            from.len() == old(to).len(),
            from.len() <= MAX_BOIDS,
            all_in_range(from@),
            valid_extent(size),
            goal_in_range(goal),
        ensures
            final(to)@ == step_all(from@, size, goal),
            all_in_range(final(to)@),
    {
        let mut i: usize = 0;
        while i < from.len()
            invariant
                from.len() == to.len(),
                from.len() <= MAX_BOIDS,
                all_in_range(from@),
                valid_extent(size),
                goal_in_range(goal),
                0 <= i <= from.len(),
                forall|j: int| 0 <= j < i ==> #[trigger] to@[j] == step_boid(from@, j, size, goal),
                forall|j: int| 0 <= j < i ==> (#[trigger] to@[j]).in_range(),
            decreases from.len() - i,
        {
            let b = step_one(from, i, size, goal);
            to.set(i, b);
            i += 1;
        }
        assert(to@ == step_all(from@, size, goal));
    }

    /// Advances the flock one frame: every agent is steered and moved from the
    /// current snapshot, then the written buffer becomes current.
    pub fn update(&mut self)
        requires
            old(self).wf(),
        ensures
            final(self).wf(),
            final(self).agents() == step_all(old(self).agents(), old(self).extent(), old(self).target()),
            final(self).agents().len() == old(self).agents().len(),
            final(self).spare() == old(self).agents(),
            final(self).extent() == old(self).extent(),
            final(self).target() == old(self).target(),
    {
        let size = self.size;
        let goal = self.goal;
        if self.cur == 0 {
            Self::step_into(&self.front, &mut self.back, size, goal);
        } else {
            Self::step_into(&self.back, &mut self.front, size, goal);
        }
        self.cur = 1 - self.cur;
    }
}

} // verus!
