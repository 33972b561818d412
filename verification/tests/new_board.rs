use gomoku::board::{Board, Rule};
use gomoku::moves::Move;

#[test]
fn new_board_is_empty() {
    let board = Board::new("standard");
    assert!(board.cells.iter().all(|&cell| cell == 0));
    assert_eq!(board.cells.len(), 361);
    assert!(board.indexes[0].is_empty());
    assert!(board.indexes[1].is_empty());
    assert_eq!(board.captures, [0, 0]);
    assert!(board.history.is_empty());
    assert!(board.threats[0].is_empty());
    assert!(board.threats[1].is_empty());
}

#[test]
fn rule_names_are_recognised() {
    assert_eq!(Board::new("standard").rule, Rule::Standard);
    assert_eq!(Board::new("restricted").rule, Rule::Restricted);
    assert_eq!(Board::new("connect5").rule, Rule::Connect5);
}

#[test]
fn unknown_rule_names_fall_back_to_standard() {
    for name in ["", "Standard", "RESTRICTED", "restricted ", " connect5", "connect", "connect55", "renju", "r\u{e9}stricted", "restricte\u{0301}d"] {
        assert_eq!(Board::new(name).rule, Rule::Standard, "name {:?}", name);
    }
}

#[test]
fn cell_values_are_distances_to_the_nearest_edge() {
    let values = Board::cells_value();
    assert_eq!(values.len(), 361);
    assert_eq!(values[0], 0);
    assert_eq!(values[18], 0);
    assert_eq!(values[342], 0);
    assert_eq!(values[360], 0);
    assert_eq!(values[9], 0);
    assert_eq!(values[20], 1);
    assert_eq!(values[21], 1);
    assert_eq!(values[40], 2);
    assert_eq!(values[180], 9);
    assert_eq!(values[179], 8);
    assert_eq!(values[181], 8);
    assert_eq!(values[161], 8);
    assert_eq!(values[199], 8);
    assert_eq!(values[160], 8);
    assert_eq!(values[9 * 19 + 3], 3);
    assert_eq!(values[3 * 19 + 9], 3);
    assert_eq!(values[15 * 19 + 9], 3);
    assert_eq!(values[9 * 19 + 15], 3);
    assert_eq!(values[17 * 19 + 5], 1);
}

#[test]
fn cell_values_follow_the_formula_everywhere() {
    let values = Board::cells_value();
    for row in 0..19usize {
        for column in 0..19usize {
            let expected = row.min(column).min(18 - row).min(18 - column);
            assert_eq!(values[row * 19 + column] as usize, expected);
        }
    }
}

#[test]
fn cell_values_are_symmetric_under_reflection() {
    let values = Board::cells_value();
    for row in 0..19usize {
        for column in 0..19usize {
            let value = values[row * 19 + column];
            assert_eq!(value, values[row * 19 + (18 - column)]);
            assert_eq!(value, values[(18 - row) * 19 + column]);
            assert_eq!(value, values[(18 - row) * 19 + (18 - column)]);
            assert_eq!(value, values[column * 19 + row]);
        }
    }
}

#[test]
fn new_board_carries_the_cell_values() {
    let board = Board::new("connect5");
    assert_eq!(board.cells_value, Board::cells_value());
    assert_eq!(board.cells_value[180], 9);
}

#[test]
fn threats_of_a_board_can_be_filled_and_drained() {
    let mut board = Board::new("standard");
    board.threats[0].push(Move { index: 3, player: 1, captured: vec![], score: 500, threat_level: 1, order: 0 });
    board.threats[0].push(Move { index: 4, player: 1, captured: vec![], score: 300, threat_level: 2, order: 1 });
    assert_eq!(board.threats[0].len(), 2);
    assert!(board.threats[1].is_empty());
    assert_eq!(board.threats[0].peek().map(|m| m.index), Some(4));
    assert_eq!(board.threats[0].pop().map(|m| m.index), Some(4));
    assert_eq!(board.threats[0].pop().map(|m| m.index), Some(3));
}
