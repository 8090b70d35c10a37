use robotery::Brain;
use robotery::EditError;
use robotery::Instruction;
use robotery::InstructionType;
use robotery::Rotation;

fn inst(t: InstructionType) -> Instruction {
    Instruction { instruction_type: t, rotation: Rotation::Up, edit: true }
}

#[test]
fn get_out_of_bounds_returns_sentinel() {
    let b = Brain::new(3, 2, vec![(5, InstructionType::Move)]);
    let outside = [
        (-1, 0),
        (0, -1),
        (3, 0),
        (0, 2),
        (100, 100),
        (i32::MIN, 0),
        (0, i32::MAX),
    ];
    for &(x, y) in outside.iter() {
        assert!(!b.in_bounds(x, y));
        let i = b.get(x, y);
        assert_eq!(i.instruction_type, InstructionType::Blank);
        assert_eq!(i.rotation, Rotation::Up);
        assert!(!i.edit);
    }
}

#[test]
fn fresh_brain_is_blank_and_editable() {
    let b = Brain::new(3, 2, vec![(5, InstructionType::Move)]);
    assert_eq!(b.width(), 3);
    assert_eq!(b.height(), 2);
    for x in 0..3 {
        for y in 0..2 {
            assert!(b.in_bounds(x, y));
            let i = b.get(x, y);
            assert_eq!(i.instruction_type, InstructionType::Blank);
            assert!(i.edit);
        }
    }
    assert_eq!(b.reader().pos, (0, 0));
    assert_eq!(b.reader().rotation, Rotation::Up);
}

#[test]
fn set_get_round_trip() {
    let mut b = Brain::new(3, 2, vec![
        (5, InstructionType::Move),
        (5, InstructionType::Direction),
        (5, InstructionType::RotateLeft),
    ]);
    let written = Instruction {
        instruction_type: InstructionType::Direction,
        rotation: Rotation::Left,
        edit: true,
    };
    assert_eq!(b.set(2, 1, written), Ok(()));
    assert_eq!(b.get(2, 1), written);
    let second = inst(InstructionType::Move);
    assert_eq!(b.set(0, 0, second), Ok(()));
    assert_eq!(b.get(0, 0), second);
    assert_eq!(b.get(2, 1), written);
    let erased = Instruction {
        instruction_type: InstructionType::Blank,
        rotation: Rotation::Down,
        edit: true,
    };
    assert_eq!(b.set(2, 1, erased), Ok(()));
    assert_eq!(b.get(2, 1), erased);
}

#[test]
fn set_out_of_bounds_rejected() {
    let mut b = Brain::new(3, 2, vec![(5, InstructionType::Move)]);
    assert_eq!(b.set(3, 0, inst(InstructionType::Move)), Err(EditError::OutOfBounds));
    assert_eq!(b.set(-1, 0, inst(InstructionType::Move)), Err(EditError::OutOfBounds));
    assert_eq!(b.set(0, 2, inst(InstructionType::Blank)), Err(EditError::OutOfBounds));
    for x in 0..3 {
        for y in 0..2 {
            assert_eq!(b.get(x, y).instruction_type, InstructionType::Blank);
        }
    }
}

#[test]
fn budget_example() {
    // Configured Move budget of 5, and a grid already holding 5 Move cells.
    let mut b = Brain::new(3, 2, vec![(5, InstructionType::Move)]);
    let spots = [(0, 0), (1, 0), (2, 0), (0, 1), (1, 1)];
    for &(x, y) in spots.iter() {
        assert_eq!(b.set(x, y, inst(InstructionType::Move)), Ok(()));
    }
    assert_eq!(b.remaining_count(InstructionType::Move), 0);
    // The palette excludes Move.
    let palette = b.available();
    assert!(palette.iter().all(|e| e.1 != InstructionType::Move));
    // A sixth Move cell is rejected and the target cell is unchanged.
    assert_eq!(b.set(2, 1, inst(InstructionType::Move)), Err(EditError::BudgetExceeded));
    assert_eq!(b.get(2, 1).instruction_type, InstructionType::Blank);
    // Replacing one of the existing five with Move again succeeds.
    assert_eq!(b.set(1, 0, inst(InstructionType::Move)), Ok(()));
    assert_eq!(b.get(1, 0).instruction_type, InstructionType::Move);
    assert_eq!(b.remaining_count(InstructionType::Move), 0);
}

#[test]
fn placed_count_never_exceeds_budget() {
    let mut b = Brain::new(3, 2, vec![(2, InstructionType::Back)]);
    let mut placed = 0;
    for x in 0..3 {
        for y in 0..2 {
            if b.set(x, y, inst(InstructionType::Back)) == Ok(()) {
                placed += 1;
            }
        }
    }
    assert_eq!(placed, 2);
    let mut held = 0;
    for x in 0..3 {
        for y in 0..2 {
            if b.get(x, y).instruction_type == InstructionType::Back {
                held += 1;
            }
        }
    }
    assert_eq!(held, 2);
    assert_eq!(b.remaining_count(InstructionType::Back), 0);
}

#[test]
fn available_palette_order_and_counts() {
    let mut b = Brain::new(3, 2, vec![
        (5, InstructionType::Direction),
        (5, InstructionType::Move),
        (2, InstructionType::RotateRight),
    ]);
    assert_eq!(b.set(0, 0, inst(InstructionType::Move)), Ok(()));
    assert_eq!(b.set(1, 0, inst(InstructionType::Move)), Ok(()));
    let palette = b.available();
    assert_eq!(palette, vec![
        (1, InstructionType::Blank),
        (5, InstructionType::Direction),
        (3, InstructionType::Move),
        (2, InstructionType::RotateRight),
    ]);
}

#[test]
fn exhausted_entry_leaves_palette() {
    let mut b = Brain::new(3, 2, vec![
        (1, InstructionType::RotateLeft),
        (5, InstructionType::Move),
    ]);
    assert_eq!(b.set(2, 1, inst(InstructionType::RotateLeft)), Ok(()));
    let palette = b.available();
    assert_eq!(palette, vec![(1, InstructionType::Blank), (5, InstructionType::Move)]);
}

#[test]
fn eraser_always_available_and_erase_frees_budget() {
    let mut b = Brain::new(2, 1, vec![(1, InstructionType::Move)]);
    assert_eq!(b.set(0, 0, inst(InstructionType::Move)), Ok(()));
    assert_eq!(b.remaining_count(InstructionType::Move), 0);
    assert_eq!(b.available()[0], (1, InstructionType::Blank));
    // Erasing is always legal, even with every budget consumed.
    assert_eq!(b.set(0, 0, inst(InstructionType::Blank)), Ok(()));
    assert_eq!(b.remaining_count(InstructionType::Move), 1);
}

#[test]
fn remaining_count_of_unbudgeted_type_is_zero() {
    let b = Brain::new(3, 2, vec![(5, InstructionType::Move)]);
    assert_eq!(b.remaining_count(InstructionType::Back), 0);
    assert_eq!(b.remaining_count(InstructionType::Blank), 0);
    assert_eq!(b.remaining_count(InstructionType::Move), 5);
}

#[test]
fn overwriting_other_type_restores_its_budget() {
    let mut b = Brain::new(3, 2, vec![
        (1, InstructionType::Move),
        (1, InstructionType::Back),
    ]);
    assert_eq!(b.set(0, 0, inst(InstructionType::Move)), Ok(()));
    assert_eq!(b.remaining_count(InstructionType::Move), 0);
    // Overwrite the Move cell with Back: Move budget is free again.
    assert_eq!(b.set(0, 0, inst(InstructionType::Back)), Ok(()));
    assert_eq!(b.remaining_count(InstructionType::Move), 1);
    assert_eq!(b.remaining_count(InstructionType::Back), 0);
}
