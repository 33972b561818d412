use std::cmp::Ordering;
use vstd::prelude::*;
use vstd::std_specs::cmp::PartialOrdSpecImpl;

verus! {

/// A stone placed on the board, or one that a player considers placing.
#[derive(Clone, Debug, PartialEq, Eq)]
pub struct Move {
    /// Cell of the stone.
    pub index: u16,
    /// Player who places it.
    pub player: u8,
    /// Cells whose stones the move takes off the board.
    pub captured: Vec<u16>,
    /// Heuristic value of the move.
    pub score: i64,
    /// How urgent the move is; the first key of the ranking.
    pub threat_level: u8,
    /// Counter that tells apart moves of equal rank.
    pub order: u16,
}

/// What a [`Move`] holds, as mathematical values.
pub struct MoveView {
    pub index: int,
    pub player: u8,
    pub captured: Seq<int>,
    pub score: int,
    pub threat_level: nat,
    pub order: nat,
}

impl View for Move {
    type V = MoveView;

    open spec fn view(&self) -> MoveView {
        MoveView {
            index: self.index as int,
            player: self.player,
            captured: self.captured@.map_values(|c: u16| c as int),
            score: self.score as int,
            threat_level: self.threat_level as nat,
            order: self.order as nat,
        }
    }
}

impl MoveView {
    /// Whether this move ranks above `other`: its threat level is higher, or
    /// the threat levels are equal and its score is higher.
    pub open spec fn ranks_above(self, other: MoveView) -> bool {
        self.threat_level > other.threat_level || (self.threat_level == other.threat_level
            && self.score > other.score)
    }

    /// Whether this move and `other` have the same rank.
    pub open spec fn ranks_with(self, other: MoveView) -> bool {
        self.threat_level == other.threat_level && self.score == other.score
    }
}

impl MoveView {
    /// How this move compares with `other` by rank.
    pub open spec fn compare(self, other: MoveView) -> Ordering {
        if self.ranks_above(other) {
            Ordering::Greater
        } else if other.ranks_above(self) {
            Ordering::Less
        } else {
            Ordering::Equal
        }
    }
}

/// The threat level decides the rank whatever the scores are.
pub proof fn lemma_threat_level_decides(a: MoveView, b: MoveView)
    requires
        a.threat_level > b.threat_level,
    ensures
        a.ranks_above(b),
        !b.ranks_above(a),
        a.compare(b) == Ordering::Greater,
        b.compare(a) == Ordering::Less,
{
}

/// Between moves of one threat level the score decides the rank.
pub proof fn lemma_score_breaks_ties(a: MoveView, b: MoveView)
    requires
        a.threat_level == b.threat_level,
        a.score > b.score,
    ensures
        a.ranks_above(b),
        !b.ranks_above(a),
        a.compare(b) == Ordering::Greater,
        b.compare(a) == Ordering::Less,
{
}

/// The ranking is a strict order of the pairs of threat level and score: no
/// move ranks above itself, of two moves of different rank exactly one ranks
/// above the other, and ranking above carries over a chain.
pub proof fn lemma_ranking_is_an_order(a: MoveView, b: MoveView, c: MoveView)
    ensures
        !a.ranks_above(a),
        !(a.ranks_above(b) && b.ranks_above(a)),
        a.ranks_above(b) || b.ranks_above(a) || a.ranks_with(b),
        a.ranks_above(b) && b.ranks_above(c) ==> a.ranks_above(c),
        !a.ranks_above(b) && !b.ranks_above(c) ==> !a.ranks_above(c),
{
}

impl Move {
    /// Whether this move ranks above `other`.
    pub fn outranks(&self, other: &Move) -> (above: bool)
        ensures
            above == self@.ranks_above(other@),
    {
        self.threat_level > other.threat_level || (self.threat_level == other.threat_level
            && self.score > other.score)
    }

    /// Compares two moves by rank: by threat level, then by score.
    pub fn cmp(&self, other: &Move) -> (ordering: Ordering)
        ensures
            ordering == self@.compare(other@),
    {
        if self.outranks(other) {
            Ordering::Greater
        } else if other.outranks(self) {
            Ordering::Less
        } else {
            Ordering::Equal
        }
    }
}

impl PartialOrd for Move {
    fn partial_cmp(&self, other: &Move) -> (ordering: Option<Ordering>) {
        Some(self.cmp(other))
    }
}

impl PartialOrdSpecImpl for Move {
    open spec fn obeys_partial_cmp_spec() -> bool {
        true
    }

    open spec fn partial_cmp_spec(&self, other: &Move) -> Option<Ordering> {
        Some(self@.compare(other@))
    }
}

} // verus!
