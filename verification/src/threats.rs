use crate::moves::{Move, MoveView};
use vstd::multiset::{lemma_multiset_empty_len, Multiset};
use vstd::prelude::*;
use vstd::seq_lib::{to_multiset_build, to_multiset_contains, to_multiset_len, to_multiset_remove, to_multiset_update};

verus! {

/// Position above `i` in the tree that a list lays out level by level: the
/// positions below `p` are `2p + 1` and `2p + 2`.
pub open spec fn parent(i: int) -> int {
    (i - 1) / 2
}

/// The moves of a list, in any order.
pub open spec fn contents(moves: Seq<Move>) -> Multiset<MoveView> {
    moves.map_values(|m: Move| m@).to_multiset()
}

/// No move of the list ranks above the move at its parent position.
pub open spec fn heap_ordered(moves: Seq<Move>) -> bool {
    forall|i: int| 1 <= i < moves.len() ==> !(#[trigger] moves[i])@.ranks_above(moves[parent(i)]@)
}

/// The list is heap-ordered but for the move at `pos`, which may rank above
/// the moves on its way to the root. The moves below `pos` already respect
/// the move above it.
spec fn ordered_but_rising(moves: Seq<Move>, pos: int) -> bool {
    &&& forall|i: int|
        1 <= i < moves.len() && i != pos ==> !(#[trigger] moves[i])@.ranks_above(
            moves[parent(i)]@,
        )
    &&& forall|i: int|
        1 <= i < moves.len() && parent(i) == pos && pos >= 1 ==> !(#[trigger] moves[i])@.ranks_above(
            moves[parent(pos)]@,
        )
}

/// The list is heap-ordered but for the move at `pos`, which the moves below
/// it may rank above. Those moves already respect the move above `pos`.
spec fn ordered_but_sinking(moves: Seq<Move>, pos: int) -> bool {
    &&& forall|i: int|
        1 <= i < moves.len() && parent(i) != pos ==> !(#[trigger] moves[i])@.ranks_above(
            moves[parent(i)]@,
        )
    &&& forall|i: int|
        1 <= i < moves.len() && parent(i) == pos && pos >= 1 ==> !(#[trigger] moves[i])@.ranks_above(
            moves[parent(pos)]@,
        )
}

/// Whether `top` is one of `moves` and none of them ranks above it.
pub open spec fn ranks_first(moves: Multiset<MoveView>, top: MoveView) -> bool {
    &&& moves.contains(top)
    &&& forall|other: MoveView| moves.contains(other) ==> !other.ranks_above(top)
}

/// In a heap-ordered list no move ranks above the first.
proof fn lemma_first_ranks_first(moves: Seq<Move>, i: int)
    requires
        heap_ordered(moves),
        0 <= i < moves.len(),
    ensures
        !moves[i]@.ranks_above(moves[0]@),
    decreases i,
{
    if i > 0 {
        lemma_first_ranks_first(moves, parent(i));
    }
}

/// The first move of a heap-ordered list ranks first among its contents.
proof fn lemma_heap_top(moves: Seq<Move>)
    requires
        heap_ordered(moves),
        moves.len() > 0,
    ensures
        ranks_first(contents(moves), moves[0]@),
{
    let views = moves.map_values(|m: Move| m@);
    assert(views[0] == moves[0]@);
    to_multiset_contains(views, moves[0]@);
    assert forall|other: MoveView| contents(moves).contains(other) implies !other.ranks_above(
        moves[0]@,
    ) by {
        to_multiset_contains(views, other);
        let i = choose|i: int| 0 <= i < views.len() && views[i] == other;
        lemma_first_ranks_first(moves, i);
    }
}

/// Exchanging two moves of a list keeps its contents.
proof fn lemma_exchange_keeps_contents(moves: Seq<Move>, i: int, j: int)
    requires
        0 <= i < moves.len(),
        0 <= j < moves.len(),
    ensures
        contents(moves.update(i, moves[j]).update(j, moves[i])) == contents(moves),
{
    let views = moves.map_values(|m: Move| m@);
    let after = moves.update(i, moves[j]).update(j, moves[i]);
    assert(after.map_values(|m: Move| m@) =~= views.update(i, views[j]).update(j, views[i]));
    to_multiset_update(views, i, views[j]);
    to_multiset_update(views.update(i, views[j]), j, views[i]);
    to_multiset_contains(views, views[i]);
    to_multiset_contains(views, views[j]);
    assert(contents(after) =~= contents(moves));
}

/// Exchanges two moves of a list.
fn exchange(moves: &mut Vec<Move>, i: usize, j: usize)
    requires
        i < old(moves).len(),
        j < old(moves).len(),
    ensures
        final(moves)@ == old(moves)@.update(i as int, old(moves)@[j as int]).update(
            j as int,
            old(moves)@[i as int],
        ),
        contents(final(moves)@) == contents(old(moves)@),
{
    proof {
        lemma_exchange_keeps_contents(moves@, i as int, j as int);
    }
    if i == j {
        assert(moves@ == moves@.update(i as int, moves@[j as int]).update(
            j as int,
            moves@[i as int],
        ));
        return ;
    }
    let mut held = Move {
        index: 0,
        player: 0,
        captured: Vec::new(),
        score: 0,
        threat_level: 0,
        order: 0,
    };
    core::mem::swap(&mut held, &mut moves[i]);
    core::mem::swap(&mut held, &mut moves[j]);
    core::mem::swap(&mut held, &mut moves[i]);
    assert(moves@ == old(moves)@.update(i as int, old(moves)@[j as int]).update(
        j as int,
        old(moves)@[i as int],
    ));
}

/// Lets the move at `start` rise until no move below the root ranks above
/// its parent.
fn sift_up(moves: &mut Vec<Move>, start: usize)
    requires
        start < old(moves).len(),
        ordered_but_rising(old(moves)@, start as int),
    ensures
        heap_ordered(final(moves)@),
        contents(final(moves)@) == contents(old(moves)@),
{
    let mut pos = start;
    while pos > 0 && moves[pos].outranks(&moves[(pos - 1) / 2])
        invariant
            pos < moves.len(),
            ordered_but_rising(moves@, pos as int),
            contents(moves@) == contents(old(moves)@),
        decreases pos,
    {
        let up = (pos - 1) / 2;
        exchange(moves, pos, up);
        pos = up;
    }
}

/// Lets the move at `start` sink until it ranks above no move below it.
fn sift_down(moves: &mut Vec<Move>, start: usize)
    requires
        start < old(moves).len(),
        ordered_but_sinking(old(moves)@, start as int),
    ensures
        heap_ordered(final(moves)@),
        contents(final(moves)@) == contents(old(moves)@),
{
    let count = moves.len();
    let mut pos = start;
    while pos < count / 2
        invariant
            pos < count,
            count == moves.len(),
            ordered_but_sinking(moves@, pos as int),
            contents(moves@) == contents(old(moves)@),
        ensures
            heap_ordered(moves@),
            contents(moves@) == contents(old(moves)@),
        decreases count - pos,
    {
        let left = 2 * pos + 1;
        let right = left + 1;
        let mut child = left;
        if right < count && moves[right].outranks(&moves[left]) {
            child = right;
        }
        if !moves[child].outranks(&moves[pos]) {
            break ;
        }
        exchange(moves, pos, child);
        pos = child;
    }
}

/// The candidate moves of one player, kept so that one of the highest rank
/// is at hand: a binary max-heap by [`MoveView::ranks_above`].
pub struct ThreatHeap {
    moves: Vec<Move>,
}

impl View for ThreatHeap {
    type V = Multiset<MoveView>;

    /// The moves in the heap, each as often as it was pushed.
    closed spec fn view(&self) -> Multiset<MoveView> {
        contents(self.moves@)
    }
}

impl ThreatHeap {
    #[verifier::type_invariant]
    spec fn ordered(self) -> bool {
        heap_ordered(self.moves@)
    }

    /// A heap with no move in it.
    pub fn new() -> (heap: ThreatHeap)
        ensures
            heap@ == Multiset::<MoveView>::empty(),
    {
        let heap = ThreatHeap { moves: Vec::new() };
        proof {
            to_multiset_len(heap.moves@.map_values(|m: Move| m@));
            lemma_multiset_empty_len(heap@);
        }
        heap
    }

    /// Number of moves in the heap.
    pub fn len(&self) -> (count: usize)
        ensures
            count == self@.len(),
    {
        proof {
            to_multiset_len(self.moves@.map_values(|m: Move| m@));
        }
        self.moves.len()
    }

    /// Whether the heap holds no move.
    pub fn is_empty(&self) -> (empty: bool)
        ensures
            empty == (self@.len() == 0),
    {
        self.len() == 0
    }

    /// Adds a move to the heap.
    pub fn push(&mut self, item: Move)
        ensures
            final(self)@ == old(self)@.insert(item@),
    {
        proof {
            use_type_invariant(&*self);
            let views = self.moves@.map_values(|m: Move| m@);
            to_multiset_build(views, item@);
            assert(self.moves@.push(item).map_values(|m: Move| m@) =~= views.push(item@));
        }
        let mut moves: Vec<Move> = Vec::new();
        core::mem::swap(&mut moves, &mut self.moves);
        moves.push(item);
        let last = moves.len() - 1;
        sift_up(&mut moves, last);
        self.moves = moves;
    }

    /// A move of the highest rank in the heap, if the heap holds any.
    pub fn peek(&self) -> (top: Option<&Move>)
        ensures
            match top {
                Some(m) => ranks_first(self@, m@),
                None => self@.len() == 0,
            },
    {
        proof {
            use_type_invariant(self);
            to_multiset_len(self.moves@.map_values(|m: Move| m@));
        }
        if self.moves.len() == 0 {
            None
        } else {
            proof {
                lemma_heap_top(self.moves@);
            }
            Some(&self.moves[0])
        }
    }

    /// Takes a move of the highest rank out of the heap, if the heap holds
    /// any.
    pub fn pop(&mut self) -> (top: Option<Move>)
        ensures
            match top {
                Some(m) => ranks_first(old(self)@, m@) && final(self)@ == old(self)@.remove(m@),
                None => old(self)@.len() == 0 && final(self)@ == old(self)@,
            },
    {
        proof {
            use_type_invariant(&*self);
            to_multiset_len(self.moves@.map_values(|m: Move| m@));
        }
        let count = self.moves.len();
        if count == 0 {
            return None;
        }
        proof {
            lemma_heap_top(self.moves@);
        }
        let mut moves: Vec<Move> = Vec::new();
        core::mem::swap(&mut moves, &mut self.moves);
        exchange(&mut moves, 0, count - 1);
        let ghost exchanged = moves@;
        let top = moves.pop();
        proof {
            let views = exchanged.map_values(|m: Move| m@);
            to_multiset_remove(views, count - 1);
            assert(moves@.map_values(|m: Move| m@) =~= views.remove(count - 1));
        }
        if count > 1 {
            sift_down(&mut moves, 0);
        }
        self.moves = moves;
        top
    }
}

} // verus!
