//! The world-space agent and the per-quantum Reader state machine.
//!
//! One step of one Robot is two phases. When the read flag is set, the cell
//! under the Reader is executed: `Move`/`Back` shift the Robot one world cell
//! along (or against) its facing if the target terrain is `Empty`, collisions
//! being silently absorbed; `Direction` rewrites the Reader's travel
//! direction; the rotate effects turn the Robot's facing along the cyclic
//! order. Then, always, the Reader probes the next brain cell in its travel
//! direction: it moves there and keeps the read flag only when that cell is
//! in bounds and not blank, and otherwise halts in place with the flag
//! cleared until the grid ahead of it changes.

use vstd::prelude::*;

use crate::brain::Brain;
use crate::brain::BrainView;
use crate::brain::Reader;
use crate::brain::budgets_wf;
use crate::grid_world::Cell;
use crate::grid_world::GridWorld;
use crate::grid_world::GridWorldView;
use crate::instruction::Instruction;
use crate::instruction::InstructionType;
use crate::rotation::Rotation;
use crate::rotation::fits_i32;
use crate::rotation::step_from;
use crate::rotation::step_target;

verus! {

/// The mathematical contents of a [`Robot`].
#[verifier::ext_equal]
pub struct RobotView {
    pub brain: BrainView,
    pub pos: (int, int),
    pub rotation: Rotation,
    pub read_next: bool,
}

impl RobotView {
    /// Well-formedness: the owned Brain is well-formed and the world
    /// position is representable.
    pub open spec fn wf(self) -> bool {
        &&& self.brain.wf()
        &&& fits_i32(self.pos)
    }
}

/// The Robot shifted one world cell in direction `dir`, if the target
/// terrain is `Empty`; a move into `Wall` or `Gap` (or off every
/// representable coordinate) is silently absorbed.
pub open spec fn spec_move(g: GridWorldView, r: RobotView, dir: Rotation) -> RobotView {
    let tgt = step_from(r.pos, dir);
    if g.spec_cell_at(tgt.0, tgt.1) is Empty {
        RobotView { pos: tgt, ..r }
    } else {
        r
    }
}

/// Phase one of a quantum: the effect of the instruction under the Reader.
pub open spec fn spec_apply_instruction(g: GridWorldView, r: RobotView) -> RobotView {
    let inst = r.brain.spec_get(r.brain.reader_pos.0, r.brain.reader_pos.1);
    match inst.instruction_type {
        InstructionType::Move => spec_move(g, r, r.rotation),
        InstructionType::Back => spec_move(g, r, r.rotation.spec_opposite()),
        InstructionType::Direction => RobotView {
            brain: BrainView { reader_rotation: inst.rotation, ..r.brain },
            ..r
        },
        InstructionType::RotateLeft => RobotView {
            rotation: r.rotation.spec_counter_clockwise(),
            ..r
        },
        InstructionType::RotateRight => RobotView { rotation: r.rotation.spec_clockwise(), ..r },
        InstructionType::Blank => r,
    }
}

/// Phase two of a quantum: the Reader moves to the next cell in its travel
/// direction and keeps the read flag only when that cell is in bounds and
/// not blank; otherwise it halts in place with the flag cleared.
pub open spec fn spec_advance_reader(r: RobotView) -> RobotView {
    let nxt = step_from(r.brain.reader_pos, r.brain.reader_rotation);
    if r.brain.in_bounds(nxt.0, nxt.1) && r.brain.spec_get(nxt.0, nxt.1).instruction_type
        != InstructionType::Blank {
        RobotView { brain: BrainView { reader_pos: nxt, ..r.brain }, read_next: true, ..r }
    } else {
        RobotView { read_next: false, ..r }
    }
}

/// One quantum for one Robot: execute the current instruction when the read
/// flag is set, then always try to advance the Reader.
pub open spec fn spec_step_robot(g: GridWorldView, r: RobotView) -> RobotView {
    spec_advance_reader(
        if r.read_next {
            spec_apply_instruction(g, r)
        } else {
            r
        },
    )
}

/// A coordinate that does not fit in `i32` lies outside every well-formed
/// world grid and therefore reads as `Wall`.
proof fn lemma_unrepresentable_is_wall(g: GridWorldView, p: (int, int))
    requires
        g.wf(),
        !fits_i32(p),
    ensures
        g.spec_cell_at(p.0, p.1) == Cell::Wall,
{
}

/// A world-space agent: position and facing in the Grid World, plus the
/// exclusively owned Brain that programs it. The read flag is the engine's
/// per-Robot state: whether the cell under the Reader is due for execution
/// on the next quantum.
pub struct Robot {
    pub(crate) brain: Brain,
    pub(crate) pos: (i32, i32),
    pub(crate) rotation: Rotation,
    pub(crate) read_next: bool,
}

impl View for Robot {
    type V = RobotView;

    closed spec fn view(&self) -> RobotView {
        RobotView {
            brain: self.brain@,
            pos: (self.pos.0 as int, self.pos.1 as int),
            rotation: self.rotation,
            read_next: self.read_next,
        }
    }
}

impl Robot {
    /// See [`RobotView::wf`].
    pub open spec fn wf(&self) -> bool {
        self@.wf()
    }

    /// Create a Robot at the given world position and facing, owning a fresh
    /// all-blank Brain of the given dimensions and budget table. The Reader
    /// starts at (0, 0) travelling in the Robot's initial facing, and the
    /// read flag starts set.
    pub fn new(
        pos: (i32, i32),
        rotation: Rotation,
        brain_width: usize,
        brain_height: usize,
        budgets: Vec<(usize, InstructionType)>,
    ) -> (r: Robot)
        requires
            1 <= brain_width <= i32::MAX,
            1 <= brain_height <= i32::MAX,
            brain_width * brain_height <= usize::MAX,
            budgets_wf(budgets@),
        ensures
            r.wf(),
            r@ == (RobotView {
                brain: BrainView {
                    width: brain_width as nat,
                    height: brain_height as nat,
                    grid: Seq::new(
                        (brain_width * brain_height) as nat,
                        |i: int| Instruction::spec_blank(),
                    ),
                    reader_pos: (0int, 0int),
                    reader_rotation: rotation,
                    budgets: budgets@,
                },
                pos: (pos.0 as int, pos.1 as int),
                rotation: rotation,
                read_next: true,
            }),
    {
        let mut brain = Brain::new(brain_width, brain_height, budgets);
        brain.set_reader(Reader { pos: (0, 0), rotation });
        Robot { brain, pos, rotation, read_next: true }
    }

    /// The owned Brain, for read-only queries.
    pub fn brain(&self) -> (r: &Brain)
        ensures
            r@ == self@.brain,
    {
        &self.brain
    }

    /// The world position.
    pub fn pos(&self) -> (r: (i32, i32))
        ensures
            (r.0 as int, r.1 as int) == self@.pos,
    {
        self.pos
    }

    /// The world facing.
    pub fn rotation(&self) -> (r: Rotation)
        ensures
            r == self@.rotation,
    {
        self.rotation
    }

    /// Whether the cell under the Reader is due for execution on the next
    /// quantum.
    pub fn read_next(&self) -> (r: bool)
        ensures
            r == self@.read_next,
    {
        self.read_next
    }

    /// Edit the owned Brain: forward to [`Brain::set`], leaving the world
    /// position, facing and read flag untouched.
    pub(crate) fn edit(&mut self, x: i32, y: i32, instruction: Instruction) -> (r: Result<
        (),
        crate::errors::EditError,
    >)
        requires
            old(self).wf(),
        ensures
            final(self).wf(),
            final(self)@.pos == old(self)@.pos,
            final(self)@.rotation == old(self)@.rotation,
            final(self)@.read_next == old(self)@.read_next,
            final(self)@.brain.width == old(self)@.brain.width,
            final(self)@.brain.height == old(self)@.brain.height,
            final(self)@.brain.budgets == old(self)@.brain.budgets,
            final(self)@.brain.reader_pos == old(self)@.brain.reader_pos,
            final(self)@.brain.reader_rotation == old(self)@.brain.reader_rotation,
            match r {
                Ok(()) => old(self)@.brain.in_bounds(x as int, y as int)
                    && crate::brain::spec_can_place(
                    old(self)@.brain,
                    x as int,
                    y as int,
                    instruction,
                ) && final(self)@.brain.grid == old(self)@.brain.grid.update(
                    y * old(self)@.brain.width + x,
                    instruction,
                ) && final(self)@.brain.spec_get(x as int, y as int) == instruction,
                Err(crate::errors::EditError::OutOfBounds) => !old(self)@.brain.in_bounds(
                    x as int,
                    y as int,
                ) && final(self)@ == old(self)@,
                Err(crate::errors::EditError::BudgetExceeded) => old(self)@.brain.in_bounds(
                    x as int,
                    y as int,
                ) && !crate::brain::spec_can_place(
                    old(self)@.brain,
                    x as int,
                    y as int,
                    instruction,
                ) && final(self)@ == old(self)@,
            },
    {
        self.brain.set(x, y, instruction)
    }

    /// Advance this Robot by one quantum against the world grid.
    pub(crate) fn step(&mut self, grid: &GridWorld)
        requires
            old(self).wf(),
            grid.wf(),
        ensures
            final(self).wf(),
            final(self)@ == spec_step_robot(grid@, old(self)@),
    {
        if self.read_next {
            let rd = self.brain.reader();
            let inst = self.brain.get(rd.pos.0, rd.pos.1);
            match inst.instruction_type {
                InstructionType::Move => {
                    match step_target(self.pos, self.rotation) {
                        Some(p) => {
                            if grid.cell_at(p.0, p.1) == Cell::Empty {
                                self.pos = p;
                            }
                        },
                        None => {
                            proof {
                                lemma_unrepresentable_is_wall(
                                    grid@,
                                    step_from(old(self)@.pos, old(self)@.rotation),
                                );
                            }
                        },
                    }
                },
                InstructionType::Back => {
                    match step_target(self.pos, self.rotation.opposite()) {
                        Some(p) => {
                            if grid.cell_at(p.0, p.1) == Cell::Empty {
                                self.pos = p;
                            }
                        },
                        None => {
                            proof {
                                lemma_unrepresentable_is_wall(
                                    grid@,
                                    step_from(old(self)@.pos, old(self)@.rotation.spec_opposite()),
                                );
                            }
                        },
                    }
                },
                InstructionType::Direction => {
                    self.brain.set_reader(Reader { pos: rd.pos, rotation: inst.rotation });
                },
                InstructionType::RotateLeft => {
                    self.rotation = self.rotation.counter_clockwise();
                },
                InstructionType::RotateRight => {
                    self.rotation = self.rotation.clockwise();
                },
                InstructionType::Blank => {},
            }
        }
        let ghost applied = if old(self)@.read_next {
            spec_apply_instruction(grid@, old(self)@)
        } else {
            old(self)@
        };
        proof {
            assert(self@ =~= applied);
        }
        let rd = self.brain.reader();
        let moved: bool = match step_target(rd.pos, rd.rotation) {
            Some(p) => {
                if self.brain.in_bounds(p.0, p.1) {
                    let nxt = self.brain.get(p.0, p.1);
                    if nxt.instruction_type == InstructionType::Blank {
                        false
                    } else {
                        self.brain.set_reader(Reader { pos: p, rotation: rd.rotation });
                        true
                    }
                } else {
                    false
                }
            },
            None => false,
        };
        self.read_next = moved;
        proof {
            assert(self@ =~= spec_advance_reader(applied));
        }
    }
}

} // verus!
