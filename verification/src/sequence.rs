use crate::board::Rule;
use vstd::prelude::*;

verus! {

/// Score of a line that holds five stones or more.
pub const WINNING_SCORE: i64 = 1_000_000_000_000;

/// A run of one player's stones along one direction, as a scan found it.
pub struct Sequence {
    /// Number of stones in the run.
    pub size: u8,
    /// Step along which the run was scanned.
    pub direction: i16,
    /// Number of cells, stones and empty ones, that the run could grow into.
    pub space: u8,
    /// Where the run ends: slot 0 for a scan along a negative direction,
    /// slot 1 for a scan along a positive one.
    pub bound: [i16; 2],
    /// Owner of the run, 0 when the scan met no stone.
    pub player: u8,
    /// The one empty cell inside the run, if it has one.
    pub hole_index: Option<u16>,
    /// Number of empty cells between the start of the scan and the first stone.
    pub dist_start: u8,
    /// Directions in which an opponent's stone flanks the run.
    pub block: Vec<i16>,
    /// Cells where an opponent's stone would stop the run from growing.
    pub counters: Vec<u16>,
}

/// What a [`Sequence`] holds, as mathematical values.
pub struct SequenceView {
    pub size: nat,
    pub direction: int,
    pub space: nat,
    pub bound_backward: int,
    pub bound_forward: int,
    pub player: u8,
    pub hole_index: Option<int>,
    pub dist_start: nat,
    pub block: Seq<int>,
    pub counters: Seq<int>,
}

impl View for Sequence {
    type V = SequenceView;

    open spec fn view(&self) -> SequenceView {
        SequenceView {
            size: self.size as nat,
            direction: self.direction as int,
            space: self.space as nat,
            bound_backward: self.bound[0] as int,
            bound_forward: self.bound[1] as int,
            player: self.player,
            hole_index: match self.hole_index {
                Some(i) => Some(i as int),
                None => None,
            },
            dist_start: self.dist_start as nat,
            block: self.block@.map_values(|d: i16| d as int),
            counters: self.counters@.map_values(|c: u16| c as int),
        }
    }
}

/// The run that a scan along `direction` holds before it has seen any cell.
pub open spec fn empty_run(direction: int) -> SequenceView {
    SequenceView {
        size: 0,
        direction,
        space: 0,
        bound_backward: 0,
        bound_forward: 0,
        player: 0,
        hole_index: None,
        dist_start: 0,
        block: Seq::empty(),
        counters: Seq::empty(),
    }
}

/// Heuristic value of a run of `size` stones in `space` cells, flanked by
/// `blocks` opponent stones, under `rule`.
///
/// A run of fewer than two stones, one that cannot grow to five cells, and
/// one that is flanked on both sides are worth nothing. Five stones or more
/// win. In between the value depends on the size, on whether the run has a
/// hole and on whether one side is flanked; the restricted rule penalises an
/// unbroken pair with one side flanked, which the opponent can capture.
pub open spec fn score(size: nat, space: nat, hole: bool, blocks: nat, rule: Rule) -> int {
    if size < 2 || space < 5 || blocks > 1 {
        0
    } else if size == 2 {
        if blocks == 0 {
            1500
        } else if hole {
            300
        } else if rule == Rule::Restricted {
            -2000
        } else {
            500
        }
    } else if size == 3 {
        if blocks == 0 {
            5000
        } else {
            1700
        }
    } else if size == 4 {
        if blocks == 0 && !hole {
            10000
        } else {
            1000
        }
    } else {
        WINNING_SCORE as int
    }
}

/// The player who faces `player`: 2 for player 1 and 1 for player 2.
pub open spec fn opponent(player: u8) -> u8 {
    player ^ 3
}

impl SequenceView {
    /// Heuristic value of this run under `rule`.
    pub open spec fn score(self, rule: Rule) -> int {
        score(self.size, self.space, self.hole_index is Some, self.block.len(), rule)
    }

    /// Whether the cell between this run and `other`, which holds `sep`,
    /// flanks this run: both runs belong to one player, the cell holds a
    /// stone of that player's opponent and touches this run, and the run has
    /// room for one more blocked direction.
    pub open spec fn flanked_across(self, other: SequenceView, sep: u8) -> bool {
        &&& self.player == other.player
        &&& sep == opponent(self.player)
        &&& self.block.len() < 2
        &&& self.dist_start == 0
    }

    /// This run after it has been held against `other`, which lies on the
    /// same line beyond one cell that holds `sep` (0 when it is empty).
    ///
    /// If that cell is empty or holds a stone of this run's owner, the run
    /// gains as space the cell and the empty cells that lead from it to the
    /// stones of `other`. If the cell flanks the run, the run notes the
    /// direction that points back to it as blocked.
    pub open spec fn held_against(self, other: SequenceView, sep: u8) -> SequenceView {
        SequenceView {
            space: if sep == 0 || sep == self.player {
                self.space + other.dist_start + 1
            } else {
                self.space
            },
            block: if self.flanked_across(other, sep) {
                self.block.push(-self.direction)
            } else {
                self.block
            },
            ..self
        }
    }

    /// Whether the fields of a run can hold [`Self::held_against`].
    pub open spec fn can_hold_against(self, other: SequenceView, sep: u8) -> bool {
        &&& self.held_against(other, sep).space <= u8::MAX
        &&& self.flanked_across(other, sep) ==> -self.direction <= i16::MAX
    }

    /// Whether this run and `other`, one cell apart on one line, form a
    /// single threat: they belong to one player, the cell between them does
    /// not hold a stone of the opponent, and at most one empty cell lies
    /// between their stones.
    pub open spec fn combines_with(self, other: SequenceView, sep: u8) -> bool {
        &&& self.player == other.player
        &&& sep != opponent(self.player)
        &&& self.dist_start + other.dist_start + (if sep == 0 { 1nat } else { 0nat }) <= 1
    }
}

/// Whether a run can be the result of a scan or of holding such a result
/// against another: its owner is a player or nobody, and at most two
/// directions are blocked.
pub open spec fn plausible(run: SequenceView) -> bool {
    run.player <= 2 && run.block.len() <= 2
}

/// Five stones with room for five and no opponent's stone next to them are
/// worth the winning score under every rule.
pub proof fn lemma_open_five_wins(space: nat, hole: bool, rule: Rule)
    requires
        space >= 5,
    ensures
        score(5, space, hole, 0, rule) == WINNING_SCORE,
{
}

/// An unbroken pair with room for five is worth 1500 under every rule when
/// no side is flanked. With one side flanked it is worth 500, but under the
/// restricted rule it costs 2000.
pub proof fn lemma_unbroken_pair(space: nat, rule: Rule)
    requires
        space >= 5,
    ensures
        score(2, space, false, 0, rule) == 1500,
        rule != Rule::Restricted ==> score(2, space, false, 1, rule) == 500,
        rule == Rule::Restricted ==> score(2, space, false, 1, rule) == -2000,
{
}

/// A run with room for fewer than five cells is worth nothing.
pub proof fn lemma_cramped_run_is_worthless(
    size: nat,
    space: nat,
    hole: bool,
    blocks: nat,
    rule: Rule,
)
    requires
        space < 5,
    ensures
        score(size, space, hole, blocks, rule) == 0,
{
}

/// The opponents of the two players are each other; nobody and any other
/// value have no player as opponent.
pub proof fn lemma_opponent(player: u8)
    ensures
        opponent(1) == 2,
        opponent(2) == 1,
        player <= 2 ==> opponent(player) != 0,
        opponent(player) != player,
        opponent(opponent(player)) == player,
{
    assert(1u8 ^ 3 == 2) by (bit_vector);
    assert(2u8 ^ 3 == 1) by (bit_vector);
    assert(player <= 2 ==> player ^ 3 != 0) by (bit_vector);
    assert(player ^ 3 != player) by (bit_vector);
    assert((player ^ 3) ^ 3 == player) by (bit_vector);
}

/// Two runs of one player with an empty cell between them, whose stones both
/// touch that cell, form a single threat.
pub proof fn lemma_adjacent_runs_combine(a: SequenceView, b: SequenceView)
    requires
        plausible(a),
        plausible(b),
        a.player == b.player,
        a.dist_start + b.dist_start == 0,
    ensures
        a.combines_with(b, 0),
{
    lemma_opponent(a.player);
}

/// Two runs of one player with a stone of the opponent between them never
/// form a single threat. Each run whose stones touch that stone notes the
/// direction that faces it as blocked, unless two directions are blocked
/// already; no run gains space.
pub proof fn lemma_opponent_between_blocks(a: SequenceView, b: SequenceView, sep: u8)
    requires
        a.player == b.player,
        1 <= a.player <= 2,
        sep == opponent(a.player),
    ensures
        !a.combines_with(b, sep),
        !b.combines_with(a, sep),
        a.held_against(b, sep).space == a.space,
        b.held_against(a, sep).space == b.space,
        a.dist_start == 0 && a.block.len() < 2 ==> a.held_against(b, sep).block == a.block.push(
            -a.direction,
        ),
        b.dist_start == 0 && b.block.len() < 2 ==> b.held_against(a, sep).block == b.block.push(
            -b.direction,
        ),
        a.dist_start != 0 || a.block.len() >= 2 ==> a.held_against(b, sep).block == a.block,
        b.dist_start != 0 || b.block.len() >= 2 ==> b.held_against(a, sep).block == b.block,
{
    lemma_opponent(a.player);
}

/// Runs of different players never form a single threat, but each still
/// gains the space that the cell between them opens to it.
pub proof fn lemma_strangers_never_combine(a: SequenceView, b: SequenceView, sep: u8)
    requires
        a.player != b.player,
    ensures
        !a.combines_with(b, sep),
        a.held_against(b, sep).block == a.block,
        sep == 0 || sep == a.player ==> a.held_against(b, sep).space == a.space + b.dist_start
            + 1,
        sep != 0 && sep != a.player ==> a.held_against(b, sep).space == a.space,
{
}

/// Two runs with more than one empty cell between their stones are too far
/// apart to form a single threat. This holds of a run on each side of an
/// empty cell when either has an empty cell before its first stone.
pub proof fn lemma_loose_runs_stay_apart(a: SequenceView, b: SequenceView, sep: u8)
    requires
        a.dist_start + b.dist_start + (if sep == 0 {
            1nat
        } else {
            0nat
        }) > 1,
    ensures
        !a.combines_with(b, sep),
{
}

impl Sequence {
    /// A run along `direction` with no stone in it.
    pub fn new(direction: i16) -> (sequence: Sequence)
        ensures
            sequence@ == empty_run(direction as int),
    {
        let sequence = Sequence {
            size: 0,
            direction,
            space: 0,
            bound: [0, 0],
            player: 0,
            hole_index: None,
            dist_start: 0,
            block: Vec::new(),
            counters: Vec::new(),
        };
        assert(sequence@.block =~= Seq::empty());
        assert(sequence@.counters =~= Seq::empty());
        sequence
    }

    /// Heuristic value of the run under `rule`.
    pub fn evaluate(&self, rule: Rule) -> (value: i64)
        ensures
            value == self@.score(rule),
    {
        if self.size < 2 || self.space < 5 || self.block.len() > 1 {
            return 0;
        }
        let hole = self.hole_index.is_some();
        let blocked = self.block.len() == 1;
        if self.size == 2 {
            if !blocked {
                1500
            } else if hole {
                300
            } else if rule == Rule::Restricted {
                -2000
            } else {
                500
            }
        } else if self.size == 3 {
            if blocked {
                1700
            } else {
                5000
            }
        } else if self.size == 4 {
            if !blocked && !hole {
                10_000
            } else {
                1000
            }
        } else {
            WINNING_SCORE
        }
    }

    /// Holds two runs of one line against each other. `sep` is what the one
    /// cell between them holds, 0 when it is empty.
    ///
    /// Both runs are updated as [`SequenceView::held_against`] says, whatever
    /// the answer is. The answer is whether they form a single threat.
    pub fn can_combine(s1: &mut Sequence, s2: &mut Sequence, sep: u8, _sep_index: i16) -> (ok:
        bool)
        requires
            old(s1)@.can_hold_against(old(s2)@, sep),
            old(s2)@.can_hold_against(old(s1)@, sep),
        ensures
            final(s1)@ == old(s1)@.held_against(old(s2)@, sep),
            final(s2)@ == old(s2)@.held_against(old(s1)@, sep),
            ok == old(s1)@.combines_with(old(s2)@, sep),
    {
        if sep == 0 || sep == s1.player {
            s1.space += s2.dist_start + 1;
        }
        if sep == 0 || sep == s2.player {
            s2.space += s1.dist_start + 1;
        }
        if s1.player != s2.player {
            return false;
        }
        if sep == s1.player ^ 3 {
            if s1.block.len() < 2 && s1.dist_start == 0 {
                s1.block.push(-s1.direction);
            }
            if s2.block.len() < 2 && s2.dist_start == 0 {
                s2.block.push(-s2.direction);
            }
            assert(s1@.block =~= old(s1)@.held_against(old(s2)@, sep).block);
            assert(s2@.block =~= old(s2)@.held_against(old(s1)@, sep).block);
            return false;
        }
        let gap: u16 = if sep == 0 { 1 } else { 0 };
        s1.dist_start as u16 + s2.dist_start as u16 + gap <= 1
    }
}

} // verus!
