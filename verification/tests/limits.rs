use gomoku::board::{
    Board, CAPACITY, DOWN, DOWN_LEFT, DOWN_RIGHT, LEFT, RIGHT, SIZE, UP, UP_LEFT, UP_RIGHT,
};

#[test]
fn board_is_nineteen_by_nineteen() {
    assert_eq!(SIZE, 19);
    assert_eq!(CAPACITY, 361);
}

#[test]
fn directions_are_index_deltas() {
    assert_eq!(LEFT, -1);
    assert_eq!(RIGHT, 1);
    assert_eq!(UP, -19);
    assert_eq!(DOWN, 19);
    assert_eq!(UP_LEFT, -20);
    assert_eq!(UP_RIGHT, -18);
    assert_eq!(DOWN_LEFT, 18);
    assert_eq!(DOWN_RIGHT, 20);
}

#[test]
fn horizontal_step_inside_a_row_is_accepted() {
    assert!(Board::within_limits(0, 1, RIGHT));
    assert!(Board::within_limits(1, 0, LEFT));
    assert!(Board::within_limits(180, 181, RIGHT));
    assert!(Board::within_limits(180, 179, LEFT));
    assert!(Board::within_limits(342, 360, RIGHT));
    assert!(Board::within_limits(360, 342, LEFT));
}

#[test]
fn right_step_from_last_column_is_rejected_in_every_row() {
    for row in 0..19i16 {
        let origin = row * 19 + 18;
        assert!(!Board::within_limits(origin, origin + RIGHT, RIGHT), "row {}", row);
    }
}

#[test]
fn left_step_from_first_column_is_rejected_in_every_row() {
    for row in 0..19i16 {
        let origin = row * 19;
        assert!(!Board::within_limits(origin, origin + LEFT, LEFT), "row {}", row);
    }
}

#[test]
fn horizontal_candidate_in_another_row_is_rejected() {
    assert!(!Board::within_limits(18, 19, RIGHT));
    assert!(!Board::within_limits(19, 18, LEFT));
    assert!(!Board::within_limits(5, 24, RIGHT));
    assert!(!Board::within_limits(200, 100, LEFT));
}

#[test]
fn horizontal_candidate_off_the_board_is_rejected() {
    assert!(!Board::within_limits(0, -1, LEFT));
    assert!(!Board::within_limits(360, 361, RIGHT));
    assert!(!Board::within_limits(-5, -4, RIGHT));
    assert!(!Board::within_limits(400, 399, LEFT));
}

#[test]
fn vertical_step_needs_only_a_cell_of_the_board() {
    assert!(Board::within_limits(19, 0, UP));
    assert!(Board::within_limits(0, 19, DOWN));
    assert!(Board::within_limits(341, 360, DOWN));
    assert!(Board::within_limits(360, 341, UP));
    assert!(!Board::within_limits(0, -19, UP));
    assert!(!Board::within_limits(18, -1, UP));
    assert!(!Board::within_limits(342, 361, DOWN));
    assert!(!Board::within_limits(360, 379, DOWN));
}

#[test]
fn vertical_candidate_beyond_capacity_is_rejected_both_ways() {
    assert!(!Board::within_limits(400, 381, UP));
    assert!(!Board::within_limits(-40, -21, DOWN));
}

#[test]
fn diagonal_steps_inside_the_board_are_accepted() {
    assert!(Board::within_limits(20, 0, UP_LEFT));
    assert!(Board::within_limits(19, 1, UP_RIGHT));
    assert!(Board::within_limits(1, 19, DOWN_LEFT));
    assert!(Board::within_limits(0, 20, DOWN_RIGHT));
    assert!(Board::within_limits(180, 160, UP_LEFT));
    assert!(Board::within_limits(180, 162, UP_RIGHT));
    assert!(Board::within_limits(180, 198, DOWN_LEFT));
    assert!(Board::within_limits(180, 200, DOWN_RIGHT));
}

#[test]
fn diagonal_steps_do_not_wrap_around_a_side_edge() {
    // From the first column a leftward diagonal would land in the last column.
    assert!(!Board::within_limits(38, 18, UP_LEFT));
    assert!(!Board::within_limits(19, 37, DOWN_LEFT));
    // From the last column a rightward diagonal would land in the first column.
    assert!(!Board::within_limits(37, 19, UP_RIGHT));
    assert!(!Board::within_limits(18, 38, DOWN_RIGHT));
}

#[test]
fn diagonal_steps_off_the_board_are_rejected() {
    assert!(!Board::within_limits(5, -15, UP_LEFT));
    assert!(!Board::within_limits(5, -13, UP_RIGHT));
    assert!(!Board::within_limits(350, 368, DOWN_LEFT));
    assert!(!Board::within_limits(350, 370, DOWN_RIGHT));
}

#[test]
fn unknown_direction_goes_nowhere() {
    assert!(!Board::within_limits(180, 180, 0));
    assert!(!Board::within_limits(180, 182, 2));
    assert!(!Board::within_limits(180, 218, 38));
    assert!(!Board::within_limits(180, 177, -3));
}

#[test]
fn origin_just_before_the_first_cell_counts_as_first_row() {
    assert!(Board::within_limits(-1, 0, RIGHT));
    assert!(Board::within_limits(-19, 0, DOWN));
    assert!(!Board::within_limits(-19, 0, RIGHT));
}

#[test]
fn extreme_arguments_are_answered() {
    assert!(!Board::within_limits(i16::MAX, i16::MIN, LEFT));
    assert!(!Board::within_limits(i16::MIN, i16::MAX, RIGHT));
    assert!(!Board::within_limits(i16::MIN, 0, UP_LEFT));
    assert!(Board::within_limits(i16::MAX, 0, UP));
}
