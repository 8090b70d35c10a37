//! The Grid World, its Robots, and the fixed-timestep execution engine.
//!
//! A top-level loop accrues real elapsed time and drains however many whole
//! quanta are due in one call to [`update_robots`] (or [`World::step`]),
//! never skipping steps regardless of frame duration: simulation results are
//! a function of the starting state and the quantum count alone, independent
//! of frame rate.

use vstd::prelude::*;

use crate::brain::spec_can_place;
use crate::errors::EditError;
use crate::grid_world::Cell;
use crate::grid_world::GridWorld;
use crate::grid_world::GridWorldView;
use crate::instruction::Instruction;
use crate::robot::Robot;
use crate::robot::RobotView;
use crate::robot::spec_step_robot;

verus! {

/// The mathematical contents of a [`World`].
#[verifier::ext_equal]
pub struct WorldView {
    pub grid: GridWorldView,
    pub robots: Seq<RobotView>,
}

impl WorldView {
    /// Well-formedness: the grid and every Robot are well-formed.
    pub open spec fn wf(self) -> bool {
        &&& self.grid.wf()
        &&& forall|i: int| 0 <= i < self.robots.len() ==> (#[trigger] self.robots[i]).wf()
    }
}

/// One global tick: every Robot advances by one quantum, in robot order,
/// against the shared world grid.
pub open spec fn spec_step_world(w: WorldView) -> WorldView {
    WorldView {
        grid: w.grid,
        robots: Seq::new(w.robots.len(), |i: int| spec_step_robot(w.grid, w.robots[i])),
    }
}

/// `n` whole quanta of catch-up stepping: `n` global ticks in sequence.
pub open spec fn spec_steps(w: WorldView, n: nat) -> WorldView
    decreases n,
{
    if n == 0 {
        w
    } else {
        spec_step_world(spec_steps(w, (n - 1) as nat))
    }
}

/// Determinism: stepping is a function of the starting state alone. Given
/// identical Brain contents and Reader/Robot state, the same number of
/// quanta always produces the same resulting state.
pub proof fn lemma_step_deterministic(w1: WorldView, w2: WorldView, n: nat)
    requires
        w1 == w2,
    ensures
        spec_steps(w1, n) == spec_steps(w2, n),
{
}

/// Draining quanta in batches changes nothing: stepping `m` quanta and then
/// `n` more ends exactly where stepping `m + n` at once does.
pub proof fn lemma_steps_compose(w: WorldView, m: nat, n: nat)
    ensures
        spec_steps(spec_steps(w, m), n) == spec_steps(w, (m + n) as nat),
    decreases n,
{
    if n > 0 {
        lemma_steps_compose(w, m, (n - 1) as nat);
    }
}

/// The rectangular arena of cells, owning zero or more Robots.
pub struct World {
    pub(crate) robots: Vec<Robot>,
    pub(crate) map: GridWorld,
}

impl View for World {
    type V = WorldView;

    closed spec fn view(&self) -> WorldView {
        WorldView { grid: self.map@, robots: self.robots@.map_values(|r: Robot| r@) }
    }
}

impl World {
    /// See [`WorldView::wf`].
    pub open spec fn wf(&self) -> bool {
        self@.wf()
    }

    /// Create a world with an all-`Empty` grid of the given dimensions,
    /// owning the given Robots.
    pub fn new(map_width: usize, map_height: usize, robots: Vec<Robot>) -> (r: World)
        requires
            map_width <= i32::MAX,
            map_height <= i32::MAX,
            map_width * map_height <= usize::MAX,
            forall|i: int| 0 <= i < robots@.len() ==> (#[trigger] robots@[i]).wf(),
        ensures
            r.wf(),
            r@.grid == (GridWorldView {
                width: map_width as nat,
                height: map_height as nat,
                cells: Seq::new((map_width * map_height) as nat, |i: int| Cell::Empty),
            }),
            r@.robots == robots@.map_values(|rb: Robot| rb@),
    {
        let r = World { robots, map: GridWorld::new(map_width, map_height) };
        proof {
            assert forall|i: int| 0 <= i < r@.robots.len() implies (#[trigger] r@.robots[i]).wf() by {
                assert(r@.robots[i] == r.robots@[i]@);
            }
        }
        r
    }

    /// The world grid, for read-only terrain queries.
    pub fn grid(&self) -> (r: &GridWorld)
        ensures
            r@ == self@.grid,
    {
        &self.map
    }

    /// How many Robots the world owns.
    pub fn robot_count(&self) -> (r: usize)
        ensures
            r == self@.robots.len(),
    {
        self.robots.len()
    }

    /// The Robot at index `i`, for read-only queries.
    pub fn robot(&self, i: usize) -> (r: &Robot)
        requires
            i < self@.robots.len(),
        ensures
            r@ == self@.robots[i as int],
    {
        &self.robots[i]
    }

    /// Overwrite the terrain at (x, y), rejecting out-of-range coordinates
    /// and leaving the world unchanged on rejection.
    pub fn set_cell(&mut self, x: i32, y: i32, cell: Cell) -> (r: Result<(), EditError>)
        requires
            old(self).wf(),
        ensures
            final(self).wf(),
            final(self)@.robots == old(self)@.robots,
            final(self)@.grid.width == old(self)@.grid.width,
            final(self)@.grid.height == old(self)@.grid.height,
            match r {
                Ok(()) => old(self)@.grid.in_range(x as int, y as int) && final(self)@.grid.cells
                    == old(self)@.grid.cells.update(y * old(self)@.grid.width + x, cell),
                Err(e) => e == EditError::OutOfBounds && !old(self)@.grid.in_range(
                    x as int,
                    y as int,
                ) && final(self)@ == old(self)@,
            },
    {
        let r = self.map.set_cell(x, y, cell);
        proof {
            assert(self@.robots == old(self)@.robots);
            assert(self.wf());
        }
        r
    }

    /// Edit the Brain of the Robot at index `robot`: the sole authoring
    /// entry point, forwarding to [`crate::brain::Brain::set`] and leaving
    /// every other Robot and the grid untouched.
    pub fn edit_brain(&mut self, robot: usize, x: i32, y: i32, instruction: Instruction) -> (r:
        Result<(), EditError>)
        requires
            old(self).wf(),
            robot < old(self)@.robots.len(),
        ensures
            final(self).wf(),
            final(self)@.grid == old(self)@.grid,
            final(self)@.robots.len() == old(self)@.robots.len(),
            ({
                let pre = old(self)@.robots[robot as int];
                let post = final(self)@.robots[robot as int];
                &&& final(self)@.robots == old(self)@.robots.update(robot as int, post)
                &&& post.pos == pre.pos
                &&& post.rotation == pre.rotation
                &&& post.read_next == pre.read_next
                &&& post.brain.width == pre.brain.width
                &&& post.brain.height == pre.brain.height
                &&& post.brain.budgets == pre.brain.budgets
                &&& post.brain.reader_pos == pre.brain.reader_pos
                &&& post.brain.reader_rotation == pre.brain.reader_rotation
                &&& match r {
                    Ok(()) => pre.brain.in_bounds(x as int, y as int) && spec_can_place(
                        pre.brain,
                        x as int,
                        y as int,
                        instruction,
                    ) && post.brain.grid == pre.brain.grid.update(
                        y * pre.brain.width + x,
                        instruction,
                    ) && post.brain.spec_get(x as int, y as int) == instruction,
                    Err(EditError::OutOfBounds) => !pre.brain.in_bounds(x as int, y as int) && post
                        == pre,
                    Err(EditError::BudgetExceeded) => pre.brain.in_bounds(x as int, y as int)
                        && !spec_can_place(pre.brain, x as int, y as int, instruction) && post
                        == pre,
                }
            }),
    {
        let r = self.robots[robot].edit(x, y, instruction);
        proof {
            assert(self@.robots =~= old(self)@.robots.update(
                robot as int,
                self@.robots[robot as int],
            ));
        }
        r
    }

    /// Advance every Robot by `quanta` whole quanta (see [`update_robots`]),
    /// returning each Robot's read flag after the final tick.
    pub fn step(&mut self, quanta: u64) -> (status: Vec<bool>)
        requires
            old(self).wf(),
        ensures
            final(self).wf(),
            final(self)@ == spec_steps(old(self)@, quanta as nat),
            status@.len() == final(self)@.robots.len(),
            forall|i: int| 0 <= i < status@.len() ==> status@[i] == final(self)@.robots[i].read_next,
    {
        update_robots(self, quanta)
    }
}

/// One global tick: step the robots in order against the shared grid.
fn step_world_once(world: &mut World)
    requires
        old(world).wf(),
    ensures
        final(world).wf(),
        final(world)@ == spec_step_world(old(world)@),
{
    let n: usize = world.robots.len();
    proof {
        assert forall|j: int| 0 <= j < n implies (#[trigger] world.robots@[j]).wf() by {
            assert(world@.robots[j] == world.robots@[j]@);
        }
    }
    let mut i: usize = 0;
    while i < n
        invariant
            i <= n,
            n == world.robots@.len(),
            world.map == old(world).map,
            old(world).map.wf(),
            forall|j: int|
                0 <= j < i ==> (#[trigger] world.robots@[j])@ == spec_step_robot(
                    old(world).map@,
                    old(world).robots@[j]@,
                ),
            forall|j: int| i <= j < n ==> (#[trigger] world.robots@[j]) == old(world).robots@[j],
            forall|j: int| 0 <= j < n ==> (#[trigger] world.robots@[j]).wf(),
        decreases n - i,
    {
        step_robot_at(world, i);
        i = i + 1;
    }
    proof {
        assert forall|j: int| 0 <= j < n implies world@.robots[j] == spec_step_world(
            old(world)@,
        ).robots[j] by {
            assert(world@.robots[j] == world.robots@[j]@);
            assert(old(world)@.robots[j] == old(world).robots@[j]@);
        }
        assert(world@.robots =~= spec_step_world(old(world)@).robots);
        assert(world@ =~= spec_step_world(old(world)@));
    }
}

/// Step the Robot at index `i` of `world` by one quantum.
fn step_robot_at(world: &mut World, i: usize)
    requires
        i < old(world).robots@.len(),
        old(world).robots@[i as int].wf(),
        old(world).map.wf(),
    ensures
        final(world).map == old(world).map,
        final(world).robots@.len() == old(world).robots@.len(),
        final(world).robots@ == old(world).robots@.update(
            i as int,
            final(world).robots@[i as int],
        ),
        final(world).robots@[i as int].wf(),
        final(world).robots@[i as int]@ == spec_step_robot(
            old(world).map@,
            old(world).robots@[i as int]@,
        ),
{
    let robot = &mut world.robots[i];
    robot.step(&world.map);
    proof {
        assert(world.robots@ =~= old(world).robots@.update(i as int, world.robots@[i as int]));
    }
}

/// Advance every Robot in the world by `quanta` whole fixed-timestep quanta:
/// a catch-up loop draining one global tick per quantum. Returns each
/// Robot's read flag after the final tick.
pub fn update_robots(world: &mut World, quanta: u64) -> (status: Vec<bool>)
    requires
        old(world).wf(),
    ensures
        final(world).wf(),
        final(world)@ == spec_steps(old(world)@, quanta as nat),
        status@.len() == final(world)@.robots.len(),
        forall|i: int| 0 <= i < status@.len() ==> status@[i] == final(world)@.robots[i].read_next,
{
    let mut k: u64 = 0;
    while k < quanta
        invariant
            k <= quanta,
            world.wf(),
            world@ == spec_steps(old(world)@, k as nat),
        decreases quanta - k,
    {
        step_world_once(world);
        k = k + 1;
    }
    let n: usize = world.robots.len();
    let mut status: Vec<bool> = Vec::new();
    let mut i: usize = 0;
    while i < n
        invariant
            i <= n,
            n == world@.robots.len(),
            world.wf(),
            world@ == spec_steps(old(world)@, quanta as nat),
            status@.len() == i,
            forall|j: int| 0 <= j < i ==> status@[j] == world@.robots[j].read_next,
        decreases n - i,
    {
        proof {
            assert(world@.robots[i as int] == world.robots@[i as int]@);
        }
        let flag = world.robots[i].read_next();
        status.push(flag);
        i = i + 1;
    }
    status
}

} // verus!
