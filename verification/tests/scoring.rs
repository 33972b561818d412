use gomoku::board::Rule;
use gomoku::sequence::{Sequence, WINNING_SCORE};

fn run(size: u8, space: u8, hole: bool, blocks: usize) -> Sequence {
    let mut sequence = Sequence::new(1);
    sequence.size = size;
    sequence.space = space;
    sequence.player = 1;
    sequence.hole_index = if hole { Some(7) } else { None };
    for _ in 0..blocks {
        sequence.block.push(1);
    }
    sequence
}

const RULES: [Rule; 3] = [Rule::Standard, Rule::Restricted, Rule::Connect5];

#[test]
fn new_sequence_is_empty() {
    let sequence = Sequence::new(-19);
    assert_eq!(sequence.size, 0);
    assert_eq!(sequence.direction, -19);
    assert_eq!(sequence.space, 0);
    assert_eq!(sequence.bound, [0, 0]);
    assert_eq!(sequence.player, 0);
    assert_eq!(sequence.hole_index, None);
    assert_eq!(sequence.dist_start, 0);
    assert!(sequence.block.is_empty());
    assert!(sequence.counters.is_empty());
}

#[test]
fn new_sequence_scores_nothing() {
    for rule in RULES {
        assert_eq!(Sequence::new(1).evaluate(rule), 0);
    }
}

#[test]
fn winning_score_is_a_million_millions() {
    assert_eq!(WINNING_SCORE, 1_000_000_000_000);
}

#[test]
fn fewer_than_two_stones_score_nothing() {
    for rule in RULES {
        for size in 0..2 {
            for blocks in 0..3 {
                assert_eq!(run(size, 18, false, blocks).evaluate(rule), 0);
                assert_eq!(run(size, 18, true, blocks).evaluate(rule), 0);
            }
        }
    }
}

#[test]
fn less_than_five_cells_of_space_score_nothing() {
    for rule in RULES {
        for size in 0..=20 {
            for space in 0..5 {
                for blocks in 0..3 {
                    assert_eq!(run(size, space, false, blocks).evaluate(rule), 0);
                    assert_eq!(run(size, space, true, blocks).evaluate(rule), 0);
                }
            }
        }
    }
}

#[test]
fn two_blocks_score_nothing() {
    for rule in RULES {
        for size in 0..=20 {
            assert_eq!(run(size, 18, false, 2).evaluate(rule), 0);
            assert_eq!(run(size, 18, true, 2).evaluate(rule), 0);
            assert_eq!(run(size, 18, true, 3).evaluate(rule), 0);
        }
    }
}

#[test]
fn open_pair_scores_fifteen_hundred_under_every_rule() {
    for rule in RULES {
        assert_eq!(run(2, 5, false, 0).evaluate(rule), 1500);
        assert_eq!(run(2, 18, false, 0).evaluate(rule), 1500);
        assert_eq!(run(2, 5, true, 0).evaluate(rule), 1500);
    }
}

#[test]
fn flanked_unbroken_pair_depends_on_the_rule() {
    assert_eq!(run(2, 5, false, 1).evaluate(Rule::Standard), 500);
    assert_eq!(run(2, 5, false, 1).evaluate(Rule::Connect5), 500);
    assert_eq!(run(2, 5, false, 1).evaluate(Rule::Restricted), -2000);
}

#[test]
fn flanked_pair_with_a_hole_scores_three_hundred() {
    for rule in RULES {
        assert_eq!(run(2, 6, true, 1).evaluate(rule), 300);
    }
}

#[test]
fn three_stones_score_by_their_open_sides() {
    for rule in RULES {
        assert_eq!(run(3, 5, false, 0).evaluate(rule), 5000);
        assert_eq!(run(3, 5, true, 0).evaluate(rule), 5000);
        assert_eq!(run(3, 5, false, 1).evaluate(rule), 1700);
        assert_eq!(run(3, 5, true, 1).evaluate(rule), 1700);
    }
}

#[test]
fn four_stones_score_ten_thousand_only_when_open_and_unbroken() {
    for rule in RULES {
        assert_eq!(run(4, 5, false, 0).evaluate(rule), 10_000);
        assert_eq!(run(4, 5, true, 0).evaluate(rule), 1000);
        assert_eq!(run(4, 5, false, 1).evaluate(rule), 1000);
        assert_eq!(run(4, 5, true, 1).evaluate(rule), 1000);
    }
}

#[test]
fn five_stones_or_more_win() {
    for rule in RULES {
        for size in [5u8, 6, 9, 19, 255] {
            for blocks in 0..2 {
                assert_eq!(run(size, 5, false, blocks).evaluate(rule), 1_000_000_000_000);
                assert_eq!(run(size, 255, true, blocks).evaluate(rule), 1_000_000_000_000);
            }
        }
    }
}

#[test]
fn exactly_five_open_stones_win_regardless_of_rule() {
    for rule in RULES {
        assert_eq!(run(5, 5, false, 0).evaluate(rule), WINNING_SCORE);
    }
}

#[test]
fn score_ignores_direction_player_and_bounds() {
    let mut sequence = run(3, 9, false, 0);
    sequence.direction = -20;
    sequence.player = 2;
    sequence.bound = [40, 100];
    sequence.dist_start = 3;
    sequence.counters.push(12);
    assert_eq!(sequence.evaluate(Rule::Standard), 5000);
}
