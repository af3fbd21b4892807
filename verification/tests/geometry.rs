use tetris::geometry::Pos;
use tetris::geometry::Size;

#[test]
fn term_pos_scales_columns_and_adds_margins() {
    assert_eq!(Pos(0, 0).term_pos(), Pos(5, 5));
    assert_eq!(Pos(3, 2).term_pos(), Pos(11, 7));
    assert_eq!(Pos(4, -4).term_pos(), Pos(13, 1));
    assert_eq!(Pos(10, 1).term_pos(), Pos(25, 6));
}

#[test]
fn term_pos_leaves_its_argument_alone() {
    let pos = Pos(7, 15);
    let _ = pos.term_pos();
    assert_eq!(pos, Pos(7, 15));
}

#[test]
fn term_value_doubles_the_width() {
    assert_eq!(Size(6, 6).term_value(), Size(12, 6));
    assert_eq!(Size(0, 3).term_value(), Size(0, 3));
    assert_eq!(Size(-2, 1).term_value(), Size(-4, 1));
}

#[test]
fn positions_add_by_coordinate() {
    assert_eq!(Pos(1, 2) + Pos(3, -4), Pos(4, -2));
    assert_eq!(Pos(0, 0) + Pos(-1, 0), Pos(-1, 0));
}

#[test]
fn positions_negate_by_coordinate() {
    assert_eq!(-Pos(4, -2), Pos(-4, 2));
    assert_eq!(-Pos(0, 0), Pos(0, 0));
}

#[test]
fn a_position_plus_its_opposite_is_the_origin() {
    let pos = Pos(-7, 12);
    assert_eq!(pos + (-pos), Pos(0, 0));
}

#[test]
fn sizes_add_by_coordinate() {
    assert_eq!(Size(6, 6) + Size(1, 2), Size(7, 8));
}

#[test]
fn default_position_and_size_are_zero() {
    assert_eq!(Pos::default(), Pos(0, 0));
    assert_eq!(Size::default(), Size(0, 0));
}
