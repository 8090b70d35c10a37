use robotery::Rotation;

const ALL: [Rotation; 4] = [Rotation::Up, Rotation::Right, Rotation::Down, Rotation::Left];

#[test]
fn clockwise_follows_the_cyclic_order() {
    assert_eq!(Rotation::Up.clockwise(), Rotation::Right);
    assert_eq!(Rotation::Right.clockwise(), Rotation::Down);
    assert_eq!(Rotation::Down.clockwise(), Rotation::Left);
    assert_eq!(Rotation::Left.clockwise(), Rotation::Up);
}

#[test]
fn counter_clockwise_reverses_clockwise() {
    for r in ALL {
        assert_eq!(r.clockwise().counter_clockwise(), r);
        assert_eq!(r.counter_clockwise().clockwise(), r);
    }
}

#[test]
fn opposite_is_a_double_turn() {
    for r in ALL {
        assert_eq!(r.opposite(), r.clockwise().clockwise());
        assert_eq!(r.opposite().opposite(), r);
    }
}
