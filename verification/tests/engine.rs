use robotery::Cell;
use robotery::Instruction;
use robotery::InstructionType;
use robotery::Robot;
use robotery::Rotation;
use robotery::World;
use robotery::update_robots;

fn prog(t: InstructionType) -> Instruction {
    Instruction { instruction_type: t, rotation: Rotation::Up, edit: true }
}

fn dir(rotation: Rotation) -> Instruction {
    Instruction { instruction_type: InstructionType::Direction, rotation, edit: true }
}

fn all_budgets() -> Vec<(usize, InstructionType)> {
    vec![
        (5, InstructionType::Direction),
        (5, InstructionType::Move),
        (5, InstructionType::Back),
        (5, InstructionType::RotateLeft),
        (5, InstructionType::RotateRight),
    ]
}

#[test]
fn world_cell_at_out_of_range_is_wall() {
    let w = World::new(5, 5, vec![]);
    assert_eq!(w.grid().cell_at(-1, 0), Cell::Wall);
    assert_eq!(w.grid().cell_at(0, -1), Cell::Wall);
    assert_eq!(w.grid().cell_at(5, 0), Cell::Wall);
    assert_eq!(w.grid().cell_at(0, 5), Cell::Wall);
    assert_eq!(w.grid().cell_at(i32::MAX, i32::MAX), Cell::Wall);
    assert_eq!(w.grid().cell_at(2, 2), Cell::Empty);
}

#[test]
fn set_cell_rejects_out_of_range() {
    let mut w = World::new(3, 3, vec![]);
    assert!(w.set_cell(3, 0, Cell::Wall).is_err());
    assert!(w.set_cell(0, -1, Cell::Gap).is_err());
    assert_eq!(w.set_cell(1, 1, Cell::Wall), Ok(()));
    assert_eq!(w.grid().cell_at(1, 1), Cell::Wall);
}

#[test]
fn halt_example() {
    // A 3x1 Brain with a single Direction (facing Right) at (0, 0) and all
    // other cells blank: once the engine consumes it, the Reader halts in
    // place with the read flag cleared.
    let robot = Robot::new((0, 0), Rotation::Up, 3, 1, all_budgets());
    let mut w = World::new(5, 5, vec![robot]);
    assert_eq!(w.edit_brain(0, 0, 0, dir(Rotation::Right)), Ok(()));
    let status = w.step(1);
    assert_eq!(status, vec![false]);
    assert_eq!(w.robot(0).read_next(), false);
    assert_eq!(w.robot(0).brain().reader().pos, (0, 0));
    // The Direction value was written into the Reader's travel direction.
    assert_eq!(w.robot(0).brain().reader().rotation, Rotation::Right);
}

#[test]
fn move_example() {
    // A 3x1 Brain [Move, Move, blank]; the Robot starts at world (0, 0)
    // facing Right on an all-Empty 5x5 world. After 2 quanta both Move cells
    // have executed and the Reader has halted before the blank cell.
    let robot = Robot::new((0, 0), Rotation::Right, 3, 1, all_budgets());
    let mut w = World::new(5, 5, vec![robot]);
    assert_eq!(w.edit_brain(0, 0, 0, prog(InstructionType::Move)), Ok(()));
    assert_eq!(w.edit_brain(0, 1, 0, prog(InstructionType::Move)), Ok(()));
    let status = w.step(2);
    assert_eq!(w.robot(0).pos(), (2, 0));
    assert_eq!(status, vec![false]);
    assert_eq!(w.robot(0).read_next(), false);
    // The Reader halts in place on the last executed cell: the blank cell
    // ahead of it refuses the Reader.
    assert_eq!(w.robot(0).brain().reader().pos, (1, 0));
}

#[test]
fn collision_example() {
    // A Move into a Wall is silently absorbed: no error, position unchanged.
    let robot = Robot::new((0, 0), Rotation::Right, 1, 1, all_budgets());
    let mut w = World::new(5, 5, vec![robot]);
    assert_eq!(w.set_cell(1, 0, Cell::Wall), Ok(()));
    assert_eq!(w.edit_brain(0, 0, 0, prog(InstructionType::Move)), Ok(()));
    w.step(1);
    assert_eq!(w.robot(0).pos(), (0, 0));
}

#[test]
fn gap_is_impassable_like_wall() {
    let robot = Robot::new((0, 0), Rotation::Right, 1, 1, all_budgets());
    let mut w = World::new(5, 5, vec![robot]);
    assert_eq!(w.set_cell(1, 0, Cell::Gap), Ok(()));
    assert_eq!(w.edit_brain(0, 0, 0, prog(InstructionType::Move)), Ok(()));
    w.step(1);
    assert_eq!(w.robot(0).pos(), (0, 0));
}

#[test]
fn world_edge_blocks_movement() {
    // Out-of-range world coordinates behave as Wall.
    let robot = Robot::new((4, 0), Rotation::Right, 1, 1, all_budgets());
    let mut w = World::new(5, 5, vec![robot]);
    assert_eq!(w.edit_brain(0, 0, 0, prog(InstructionType::Move)), Ok(()));
    w.step(1);
    assert_eq!(w.robot(0).pos(), (4, 0));
}

#[test]
fn back_moves_against_the_facing() {
    let robot = Robot::new((2, 2), Rotation::Right, 1, 1, all_budgets());
    let mut w = World::new(5, 5, vec![robot]);
    assert_eq!(w.edit_brain(0, 0, 0, prog(InstructionType::Back)), Ok(()));
    w.step(1);
    assert_eq!(w.robot(0).pos(), (1, 2));
    assert_eq!(w.robot(0).rotation(), Rotation::Right);
}

#[test]
fn rotate_effects_follow_the_cyclic_order() {
    let robot = Robot::new((2, 2), Rotation::Up, 2, 1, all_budgets());
    let mut w = World::new(5, 5, vec![robot]);
    assert_eq!(w.edit_brain(0, 0, 0, prog(InstructionType::RotateRight)), Ok(()));
    w.step(1);
    assert_eq!(w.robot(0).rotation(), Rotation::Right);
    assert_eq!(w.robot(0).pos(), (2, 2));

    let robot2 = Robot::new((2, 2), Rotation::Up, 2, 1, all_budgets());
    let mut w2 = World::new(5, 5, vec![robot2]);
    assert_eq!(w2.edit_brain(0, 0, 0, prog(InstructionType::RotateLeft)), Ok(()));
    w2.step(1);
    assert_eq!(w2.robot(0).rotation(), Rotation::Left);
}

#[test]
fn direction_steers_the_reader_not_the_robot() {
    // Direction rewrites the Reader's travel direction; the Robot's facing
    // stays put and later Moves still follow the Robot's own facing.
    let robot = Robot::new((0, 0), Rotation::Right, 2, 2, all_budgets());
    let mut w = World::new(5, 5, vec![robot]);
    assert_eq!(w.edit_brain(0, 0, 0, dir(Rotation::Up)), Ok(()));
    assert_eq!(w.edit_brain(0, 0, 1, prog(InstructionType::Move)), Ok(()));
    w.step(1);
    // The Reader turned Up and travelled to (0, 1).
    assert_eq!(w.robot(0).brain().reader().pos, (0, 1));
    assert_eq!(w.robot(0).brain().reader().rotation, Rotation::Up);
    assert_eq!(w.robot(0).rotation(), Rotation::Right);
    w.step(1);
    // The Move executed along the Robot's facing, not the Reader's.
    assert_eq!(w.robot(0).pos(), (1, 0));
}

#[test]
fn halted_reader_resumes_when_grid_changes_ahead() {
    let robot = Robot::new((2, 2), Rotation::Right, 2, 1, all_budgets());
    let mut w = World::new(5, 5, vec![robot]);
    assert_eq!(w.edit_brain(0, 0, 0, prog(InstructionType::RotateRight)), Ok(()));
    w.step(1);
    // Executed once (Right -> Down), then halted before the blank (1, 0).
    assert_eq!(w.robot(0).rotation(), Rotation::Down);
    assert_eq!(w.robot(0).read_next(), false);
    w.step(1);
    // Halted: the cell under the Reader is not re-executed.
    assert_eq!(w.robot(0).rotation(), Rotation::Down);
    assert_eq!(w.robot(0).brain().reader().pos, (0, 0));
    // Author an instruction ahead of the halted Reader: it resumes.
    assert_eq!(w.edit_brain(0, 1, 0, prog(InstructionType::RotateRight)), Ok(()));
    w.step(1);
    assert_eq!(w.robot(0).brain().reader().pos, (1, 0));
    assert_eq!(w.robot(0).read_next(), true);
    assert_eq!(w.robot(0).rotation(), Rotation::Down);
    w.step(1);
    assert_eq!(w.robot(0).rotation(), Rotation::Left);
    assert_eq!(w.robot(0).read_next(), false);
}

fn looping_world() -> World {
    // A small program that keeps the Reader busy for several quanta.
    let robot = Robot::new((1, 1), Rotation::Right, 3, 1, all_budgets());
    let mut w = World::new(6, 6, vec![robot]);
    assert_eq!(w.set_cell(4, 1, Cell::Wall), Ok(()));
    assert_eq!(w.edit_brain(0, 0, 0, prog(InstructionType::Move)), Ok(()));
    assert_eq!(w.edit_brain(0, 1, 0, prog(InstructionType::RotateRight)), Ok(()));
    assert_eq!(w.edit_brain(0, 2, 0, prog(InstructionType::Move)), Ok(()));
    w
}

fn observe(w: &World) -> Vec<(i32, i32, Rotation, bool, (i32, i32), Rotation)> {
    let mut out = Vec::new();
    for i in 0..w.robot_count() {
        let r = w.robot(i);
        let rd = r.brain().reader();
        out.push((r.pos().0, r.pos().1, r.rotation(), r.read_next(), rd.pos, rd.rotation));
    }
    out
}

#[test]
fn determinism_repeated_runs_agree() {
    // Identical starting states stepped by the same quanta end identical.
    let mut w1 = looping_world();
    let mut w2 = looping_world();
    let s1 = w1.step(7);
    let s2 = w2.step(7);
    assert_eq!(s1, s2);
    assert_eq!(observe(&w1), observe(&w2));
}

#[test]
fn catch_up_batching_matches_single_steps() {
    // Draining 5 quanta at once equals draining 2 then 3.
    let mut batched = looping_world();
    let mut split = looping_world();
    batched.step(5);
    split.step(2);
    split.step(3);
    assert_eq!(observe(&batched), observe(&split));
}

#[test]
fn zero_quanta_changes_nothing() {
    let mut w = looping_world();
    let before = observe(&w);
    let status = w.step(0);
    assert_eq!(status, vec![true]);
    assert_eq!(observe(&w), before);
}

#[test]
fn every_robot_steps_each_tick() {
    let a = Robot::new((0, 0), Rotation::Right, 1, 1, all_budgets());
    let b = Robot::new((3, 3), Rotation::Up, 1, 1, all_budgets());
    let mut w = World::new(6, 6, vec![a, b]);
    assert_eq!(w.edit_brain(0, 0, 0, prog(InstructionType::Move)), Ok(()));
    assert_eq!(w.edit_brain(1, 0, 0, prog(InstructionType::Move)), Ok(()));
    let status = update_robots(&mut w, 1);
    assert_eq!(status.len(), 2);
    assert_eq!(w.robot(0).pos(), (1, 0));
    assert_eq!(w.robot(1).pos(), (3, 4));
}

#[test]
fn blank_cell_has_no_effect() {
    let robot = Robot::new((2, 2), Rotation::Down, 2, 1, all_budgets());
    let mut w = World::new(5, 5, vec![robot]);
    // The whole brain is blank: the first quantum executes the blank under
    // the Reader and halts.
    let status = w.step(3);
    assert_eq!(w.robot(0).pos(), (2, 2));
    assert_eq!(w.robot(0).rotation(), Rotation::Down);
    assert_eq!(status, vec![false]);
}
