use crate::moves::{Move, MoveView};
use crate::sequence::{empty_run, Sequence, SequenceView, WINNING_SCORE};
use crate::threats::ThreatHeap;
use vstd::multiset::Multiset;
use vstd::prelude::*;
use vstd::string::StrSliceExecFns;

verus! {

/// Side of the square board.
pub const SIZE: usize = 19;

/// Number of cells on the board.
pub const CAPACITY: usize = 361;

pub const LEFT: i16 = -1;

pub const RIGHT: i16 = 1;

pub const UP: i16 = -19;

pub const DOWN: i16 = 19;

pub const UP_LEFT: i16 = -20;

pub const UP_RIGHT: i16 = -18;

pub const DOWN_LEFT: i16 = 18;

pub const DOWN_RIGHT: i16 = 20;

/// The variant of the game that is being played.
#[derive(Clone, Copy, Debug, PartialEq, Eq, Structural)]
pub enum Rule {
    Standard,
    Restricted,
    Connect5,
}

/// Whether `index` addresses a cell of the board.
pub open spec fn on_board(index: int) -> bool {
    0 <= index < 361
}

/// Row of an index. The quotient is rounded toward zero, as the machine does,
/// so the indices `-18..=-1` count as row 0.
pub open spec fn row_of(index: int) -> int {
    if index >= 0 {
        index / 19
    } else {
        -((-index) / 19)
    }
}

/// Column of an index. The remainder has the sign of the index, as the
/// machine's has; on the board it is the distance from the left edge.
pub open spec fn column_of(index: int) -> int {
    if index >= 0 {
        index % 19
    } else {
        -((-index) % 19)
    }
}

/// Whether `direction` is one of the eight steps between neighbouring cells.
pub open spec fn is_direction(direction: int) -> bool {
    direction == LEFT || direction == RIGHT || direction == UP || direction == DOWN
        || direction == UP_LEFT || direction == UP_RIGHT || direction == DOWN_LEFT
        || direction == DOWN_RIGHT
}

/// Whether a walk that began at `start` and moves along `direction` may stand
/// on `index`: the index is a cell of the board, and the walk did not wrap
/// around a side edge to get there.
///
/// A horizontal walk stays in the row of `start`. A vertical walk only has to
/// stay on the board. A diagonal walk may not cross to the far side of the
/// column of `start`: leftward diagonals stay at or left of it, rightward
/// diagonals at or right of it. Anything that is not one of the eight
/// directions goes nowhere.
pub open spec fn within_limits_spec(start: int, index: int, direction: int) -> bool {
    on_board(index) && if direction == LEFT || direction == RIGHT {
        row_of(start) == row_of(index)
    } else if direction == UP || direction == DOWN {
        true
    } else if direction == UP_LEFT || direction == DOWN_LEFT {
        column_of(start) >= column_of(index)
    } else if direction == UP_RIGHT || direction == DOWN_RIGHT {
        column_of(start) <= column_of(index)
    } else {
        false
    }
}

/// State of a scan between two cells.
pub struct ScanState {
    /// What the scan has gathered.
    pub run: SequenceView,
    /// The run is over: further cells only count as space.
    pub ended: bool,
    /// The scan met an opponent's stone and stopped there.
    pub blocked: bool,
}

/// State of a scan along `direction` that has seen no cell yet.
pub open spec fn scan_start(direction: int) -> ScanState {
    ScanState { run: empty_run(direction), ended: false, blocked: false }
}

/// `run` with `index` recorded as the end that a scan along `direction`
/// reaches: slot 0 for a negative direction, slot 1 for a positive one.
pub open spec fn with_bound(run: SequenceView, direction: int, index: int) -> SequenceView {
    if direction < 0 {
        SequenceView { bound_backward: index, ..run }
    } else {
        SequenceView { bound_forward: index, ..run }
    }
}

/// What one cell does to a scan. `index` is a cell within the limits of the
/// walk from `start` along `direction`.
///
/// - Before the first stone, an empty cell adds to the distance from the
///   start, and a stone opens the run: it gives the run its owner, its first
///   stone and a bound.
/// - After that, an empty cell becomes the hole of the run if the run has
///   none yet and the next cell of the walk holds a stone of the owner;
///   otherwise it ends the run and becomes its bound.
/// - A stone of the owner adds to the size while the run has not ended and
///   either has no hole or holds fewer than four stones; else it ends the run.
/// - Each of these cells adds one to the space of the run.
/// - Any other stone is an opponent's: it becomes the bound, the direction is
///   noted as blocked, the scan stops, and the cell adds no space.
pub open spec fn scan_step(
    cells: Seq<u8>,
    start: int,
    direction: int,
    index: int,
    st: ScanState,
) -> ScanState {
    let run = st.run;
    let cell = cells[index];
    let seen = SequenceView { space: run.space + 1, ..run };
    if run.player == 0 {
        if cell == 0 {
            ScanState { run: SequenceView { dist_start: run.dist_start + 1, ..seen }, ..st }
        } else {
            ScanState {
                run: with_bound(
                    SequenceView { player: cell, size: run.size + 1, ..seen },
                    direction,
                    index,
                ),
                ..st
            }
        }
    } else if cell == 0 {
        let next = index + direction;
        if run.hole_index is None && within_limits_spec(start, next, direction) && cells[next]
            == run.player {
            ScanState { run: SequenceView { hole_index: Some(index), ..seen }, ..st }
        } else {
            ScanState { run: with_bound(seen, direction, index), ended: true, ..st }
        }
    } else if cell == run.player {
        if st.ended {
            ScanState { run: seen, ..st }
        } else if run.hole_index is None || run.size < 4 {
            ScanState { run: SequenceView { size: run.size + 1, ..seen }, ..st }
        } else {
            ScanState { run: seen, ended: true, ..st }
        }
    } else {
        ScanState {
            run: SequenceView {
                block: run.block.push(direction),
                ..with_bound(run, direction, index)
            },
            blocked: true,
            ..st
        }
    }
}

/// Number of cells between `index` and the edge that a walk along
/// `direction` is heading for, `index` included; 0 off the board.
pub open spec fn walk_room(direction: int, index: int) -> nat {
    if !on_board(index) {
        0
    } else if direction > 0 {
        (361 - index) as nat
    } else {
        (index + 1) as nat
    }
}

/// The scan that is in state `st` and about to look at `index`, carried to
/// its end: it takes one cell after the other until the walk leaves its
/// limits or an opponent's stone has stopped it.
pub open spec fn scan_from(
    cells: Seq<u8>,
    start: int,
    direction: int,
    index: int,
    st: ScanState,
) -> ScanState
    decreases walk_room(direction, index),
{
    if !st.blocked && within_limits_spec(start, index, direction) {
        scan_from(
            cells,
            start,
            direction,
            index + direction,
            scan_step(cells, start, direction, index, st),
        )
    } else {
        st
    }
}

/// The run that a scan of `cells` finds when it walks from `start` along
/// `direction`. The first cell it looks at is the neighbour of `start`.
pub open spec fn scan(cells: Seq<u8>, start: int, direction: int) -> SequenceView {
    scan_from(cells, start, direction, start + direction, scan_start(direction)).run
}

/// No walk takes more than 21 steps: if its first step and its `steps`-th
/// step are both within limits, `steps` is at most 21.
pub proof fn lemma_walk_is_short(start: int, direction: int, steps: int)
    requires
        steps >= 1,
        within_limits_spec(start, start + direction, direction),
        within_limits_spec(start, start + steps * direction, direction),
    ensures
        steps <= 21,
{
    assert(is_direction(direction));
    lemma_multiple_of_direction(direction, steps);
}

/// The product of a count and a direction, written out for each of the eight
/// directions.
pub proof fn lemma_multiple_of_direction(direction: int, count: int)
    requires
        is_direction(direction),
    ensures
        direction == LEFT ==> count * direction == -count,
        direction == RIGHT ==> count * direction == count,
        direction == UP ==> count * direction == -19 * count,
        direction == DOWN ==> count * direction == 19 * count,
        direction == UP_LEFT ==> count * direction == -20 * count,
        direction == UP_RIGHT ==> count * direction == -18 * count,
        direction == DOWN_LEFT ==> count * direction == 18 * count,
        direction == DOWN_RIGHT ==> count * direction == 20 * count,
{
    assert(direction == -1 ==> count * direction == -count) by (nonlinear_arith);
    assert(direction == 1 ==> count * direction == count) by (nonlinear_arith);
    assert(direction == -19 ==> count * direction == -19 * count) by (nonlinear_arith);
    assert(direction == 19 ==> count * direction == 19 * count) by (nonlinear_arith);
    assert(direction == -20 ==> count * direction == -20 * count) by (nonlinear_arith);
    assert(direction == -18 ==> count * direction == -18 * count) by (nonlinear_arith);
    assert(direction == 18 ==> count * direction == 18 * count) by (nonlinear_arith);
    assert(direction == 20 ==> count * direction == 20 * count) by (nonlinear_arith);
}

/// Number of cells that a walk passes from `index` on: it goes on to the
/// limits of the walk or to the first stone that does not belong to `owner`.
/// While `owner` is 0 the walk has met no stone, and the first stone that it
/// meets gives it its owner.
pub open spec fn walk_length(
    cells: Seq<u8>,
    start: int,
    direction: int,
    index: int,
    owner: u8,
) -> nat
    decreases walk_room(direction, index),
{
    if !within_limits_spec(start, index, direction) {
        0
    } else if owner != 0 && cells[index] != 0 && cells[index] != owner {
        0
    } else {
        1 + walk_length(
            cells,
            start,
            direction,
            index + direction,
            if owner == 0 {
                cells[index]
            } else {
                owner
            },
        )
    }
}

/// What a scan adds to the space of its run from `index` on is the number
/// of cells that the walk passes, and the scan stops on an opponent's stone
/// exactly if the walk does not end at its limits.
pub proof fn lemma_scan_from_counts_cells(
    cells: Seq<u8>,
    start: int,
    direction: int,
    index: int,
    st: ScanState,
)
    requires
        !st.blocked,
        st.run.block.len() == 0,
    ensures
        ({
            let end = scan_from(cells, start, direction, index, st);
            let passed = walk_length(cells, start, direction, index, st.run.player);
            &&& end.run.space == st.run.space + passed
            &&& end.run.block.len() == (if end.blocked {
                1nat
            } else {
                0nat
            })
            &&& end.blocked == within_limits_spec(start, index + passed * direction, direction)
        }),
    decreases walk_room(direction, index),
{
    if within_limits_spec(start, index, direction) {
        let next = scan_step(cells, start, direction, index, st);
        if next.blocked {
            assert(scan_from(cells, start, direction, index + direction, next) == next);
            assert(0 * direction == 0) by (nonlinear_arith);
        } else {
            lemma_scan_from_counts_cells(cells, start, direction, index + direction, next);
            let rest = walk_length(cells, start, direction, index + direction, next.run.player);
            assert(index + direction + rest * direction == index + (1 + rest) * direction)
                by (nonlinear_arith);
        }
    } else {
        assert(0 * direction == 0) by (nonlinear_arith);
    }
}

/// Every cell that a walk passes is within its limits.
pub proof fn lemma_walk_within_limits(
    cells: Seq<u8>,
    start: int,
    direction: int,
    index: int,
    owner: u8,
    k: int,
)
    requires
        0 <= k < walk_length(cells, start, direction, index, owner),
    ensures
        within_limits_spec(start, index + k * direction, direction),
    decreases k,
{
    if k == 0 {
        assert(0 * direction == 0) by (nonlinear_arith);
    } else {
        let owner_then = if owner == 0 {
            cells[index]
        } else {
            owner
        };
        lemma_walk_within_limits(cells, start, direction, index + direction, owner_then, k - 1);
        assert(index + direction + (k - 1) * direction == index + k * direction)
            by (nonlinear_arith);
    }
}

/// The `k`-th cell of the walk from `start` along `direction`; the walk
/// begins on the first cell, the neighbour of `start`.
pub open spec fn walk_cell(start: int, direction: int, k: int) -> int {
    start + k * direction
}

/// A scan only looks at cells within the limits of its walk, and the space
/// of the run that it returns is the number of steps that it took.
///
/// The scan passes the first `space` cells of the walk. If it stops on an
/// opponent's stone, that stone is on the next cell, and the run has one
/// blocked direction. Each of these cells is within limits. If no stone
/// stopped the scan, the cell after the last one passed is outside the
/// limits.
pub proof fn lemma_scan_stays_within_limits(cells: Seq<u8>, start: int, direction: int)
    ensures
        ({
            let run = scan(cells, start, direction);
            &&& run.space == walk_length(cells, start, direction, start + direction, 0)
            &&& run.block.len() <= 1
            &&& forall|k: int|
                1 <= k <= run.space + run.block.len() ==> within_limits_spec(
                    start,
                    #[trigger] walk_cell(start, direction, k),
                    direction,
                )
            &&& run.block.len() == 0 ==> !within_limits_spec(
                start,
                walk_cell(start, direction, run.space as int + 1),
                direction,
            )
        }),
{
    let run = scan(cells, start, direction);
    let first = start + direction;
    let passed = walk_length(cells, start, direction, first, 0);
    lemma_scan_from_counts_cells(cells, start, direction, first, scan_start(direction));
    assert(first + passed * direction == start + (passed + 1) * direction) by (nonlinear_arith)
        requires
            first == start + direction,
    ;
    assert forall|k: int| 1 <= k <= run.space + run.block.len() implies within_limits_spec(
        start,
        #[trigger] walk_cell(start, direction, k),
        direction,
    ) by {
        assert(first + (k - 1) * direction == start + k * direction) by (nonlinear_arith)
            requires
                first == start + direction,
        ;
        if k <= passed {
            lemma_walk_within_limits(cells, start, direction, first, 0, k - 1);
        }
    }
}

/// What holds of the run of a scan along `direction` from its first cell to
/// its last: the run remembers its direction, its stones and the empty cells
/// before them lie within its space, it has an owner exactly if it has a
/// stone, only a run with an owner has a hole, no cell is known to counter
/// it, and the only direction that may be blocked is that of the scan.
pub open spec fn scan_shaped(run: SequenceView, direction: int) -> bool {
    &&& run.direction == direction
    &&& run.size <= run.space
    &&& run.dist_start <= run.space
    &&& (run.player == 0 <==> run.size == 0)
    &&& run.player == 0 ==> run.hole_index is None
    &&& run.counters.len() == 0
    &&& forall|i: int| 0 <= i < run.block.len() ==> run.block[i] == direction
}

/// A scan keeps its run in shape.
pub proof fn lemma_scan_from_keeps_shape(
    cells: Seq<u8>,
    start: int,
    direction: int,
    index: int,
    st: ScanState,
)
    requires
        scan_shaped(st.run, direction),
    ensures
        scan_shaped(scan_from(cells, start, direction, index, st).run, direction),
    decreases walk_room(direction, index),
{
    if !st.blocked && within_limits_spec(start, index, direction) {
        lemma_scan_from_keeps_shape(
            cells,
            start,
            direction,
            index + direction,
            scan_step(cells, start, direction, index, st),
        );
    }
}

/// The run that a scan returns is in shape, spans at most 21 cells, and has
/// at most one blocked direction.
pub proof fn lemma_scan_shape(cells: Seq<u8>, start: int, direction: int)
    ensures
        scan_shaped(scan(cells, start, direction), direction),
        scan(cells, start, direction).space <= 21,
        scan(cells, start, direction).block.len() <= 1,
{
    let first = start + direction;
    let passed = walk_length(cells, start, direction, first, 0);
    lemma_scan_from_keeps_shape(cells, start, direction, first, scan_start(direction));
    lemma_scan_from_counts_cells(cells, start, direction, first, scan_start(direction));
    if passed >= 1 {
        lemma_walk_within_limits(cells, start, direction, first, 0, 0);
        lemma_walk_within_limits(cells, start, direction, first, 0, passed - 1);
        assert(first + 0 * direction == start + direction) by (nonlinear_arith)
            requires
                first == start + direction,
        ;
        assert(first + (passed - 1) * direction == start + passed * direction)
            by (nonlinear_arith)
            requires
                first == start + direction,
        ;
        lemma_walk_is_short(start, direction, passed as int);
    }
}

/// A run of exactly five stones that a scan found with no opponent's stone
/// next to it is worth the winning score under every rule.
pub proof fn lemma_scanned_five_wins(cells: Seq<u8>, start: int, direction: int, rule: Rule)
    requires
        scan(cells, start, direction).size == 5,
        scan(cells, start, direction).block.len() == 0,
    ensures
        scan(cells, start, direction).score(rule) == WINNING_SCORE,
{
    lemma_scan_shape(cells, start, direction);
}

/// A horizontal step never leaves the row of its origin: `within_limits`
/// refuses every candidate in another row.
pub proof fn lemma_horizontal_step_keeps_row(start: int, index: int, direction: int)
    requires
        direction == LEFT || direction == RIGHT,
        row_of(index) != row_of(start),
    ensures
        !within_limits_spec(start, index, direction),
{
}

/// The side edges are closed: from the last cell of a row no step leads
/// right, and from the first cell of a row no step leads left.
pub proof fn lemma_rows_do_not_wrap(row: int)
    requires
        0 <= row < 19,
    ensures
        !within_limits_spec(19 * row + 18, 19 * row + 18 + RIGHT, RIGHT as int),
        !within_limits_spec(19 * row, 19 * row + LEFT, LEFT as int),
{
}

/// The rule that a name stands for. Any name but those of the restricted
/// rule and of connect-five stands for the standard rule.
pub open spec fn rule_named(name: Seq<char>) -> Rule {
    if name == "restricted"@ {
        Rule::Restricted
    } else if name == "connect5"@ {
        Rule::Connect5
    } else {
        Rule::Standard
    }
}

/// Positional weight of a cell: its distance to the nearest edge of the
/// board, 0 on the rim and 9 in the centre.
pub open spec fn edge_distance(index: int) -> int {
    let row = index / 19;
    let column = index % 19;
    let vertical = if row <= 18 - row {
        row
    } else {
        18 - row
    };
    let horizontal = if column <= 18 - column {
        column
    } else {
        18 - column
    };
    if vertical <= horizontal {
        vertical
    } else {
        horizontal
    }
}

/// The weights are the same in the four quarters of the board: the weight
/// of a cell is that of its mirror images across the middle row and the
/// middle column.
pub proof fn lemma_edge_distance_is_symmetric(row: int, column: int)
    requires
        0 <= row < 19,
        0 <= column < 19,
    ensures
        edge_distance(19 * row + column) == edge_distance(19 * row + (18 - column)),
        edge_distance(19 * row + column) == edge_distance(19 * (18 - row) + column),
        edge_distance(19 * row + column) == edge_distance(19 * (18 - row) + (18 - column)),
        0 <= edge_distance(19 * row + column) <= 9,
{
}

/// The state of a game.
pub struct Board {
    /// For each player the cells that hold a stone of theirs, in the order
    /// in which the stones were placed.
    pub indexes: [Vec<u16>; 2],
    /// For each player the moves that they consider, most urgent first.
    pub threats: [ThreatHeap; 2],
    /// For each player the number of opponent stones that they captured.
    pub captures: [u8; 2],
    /// Every move played, in order.
    pub history: Vec<Move>,
    /// What each cell holds: 0 when empty, else the player (1 or 2).
    pub cells: [u8; CAPACITY],
    /// Positional weight of each cell.
    pub cells_value: [u8; CAPACITY],
    /// The rule of the game.
    pub rule: Rule,
}

/// What a [`Board`] holds, as mathematical values.
pub struct BoardView {
    pub indexes: Seq<Seq<u16>>,
    pub threats: Seq<Multiset<MoveView>>,
    pub captures: Seq<u8>,
    pub history: Seq<MoveView>,
    pub cells: Seq<u8>,
    pub cells_value: Seq<u8>,
    pub rule: Rule,
}

impl View for Board {
    type V = BoardView;

    open spec fn view(&self) -> BoardView {
        BoardView {
            indexes: Seq::new(2, |p: int| self.indexes[p]@),
            threats: Seq::new(2, |p: int| self.threats[p]@),
            captures: self.captures@,
            history: self.history@.map_values(|m: Move| m@),
            cells: self.cells@,
            cells_value: self.cells_value@,
            rule: self.rule,
        }
    }
}

/// The board before the first move of a game under `rule`.
pub open spec fn empty_board(rule: Rule) -> BoardView {
    BoardView {
        indexes: Seq::new(2, |p: int| Seq::empty()),
        threats: Seq::new(2, |p: int| Multiset::empty()),
        captures: Seq::new(2, |p: int| 0u8),
        history: Seq::empty(),
        cells: Seq::new(361, |i: int| 0u8),
        cells_value: Seq::new(361, |i: int| edge_distance(i) as u8),
        rule,
    }
}

impl BoardView {
    /// Whether the parts of the board agree with each other.
    ///
    /// - Each cell is empty or holds a stone of player 1 or 2.
    /// - A cell holds a stone of a player exactly if the player's list of
    ///   cells names it, and no list names a cell twice.
    /// - The history holds one move for each stone placed: those on the board
    ///   and those that were captured.
    /// - The weight of a cell is its distance to the nearest edge.
    pub open spec fn wf(self) -> bool {
        &&& self.indexes.len() == 2
        &&& self.threats.len() == 2
        &&& self.captures.len() == 2
        &&& self.cells.len() == 361
        &&& self.cells_value.len() == 361
        &&& forall|p: int| 0 <= p < 2 ==> (#[trigger] self.indexes[p]).no_duplicates()
        &&& forall|p: int, k: int|
            0 <= p < 2 && 0 <= k < self.indexes[p].len() ==> on_board(
                #[trigger] self.indexes[p][k] as int,
            )
        &&& forall|i: int|
            0 <= i < 361 ==> {
                &&& #[trigger] self.cells[i] <= 2
                &&& self.cells[i] == 1 <==> self.indexes[0].contains(i as u16)
                &&& self.cells[i] == 2 <==> self.indexes[1].contains(i as u16)
            }
        &&& self.history.len() == self.indexes[0].len() + self.indexes[1].len() + self.captures[0]
            + self.captures[1]
        &&& forall|i: int| 0 <= i < 361 ==> #[trigger] self.cells_value[i] == edge_distance(i)
    }
}

/// Whether two texts are the same.
fn same_text(a: &str, b: &str) -> (same: bool)
    ensures
        same == (a@ == b@),
{
    let length = a.unicode_len();
    if length != b.unicode_len() {
        return false;
    }
    let mut i: usize = 0;
    while i < length
        invariant
            i <= length,
            length == a@.len(),
            length == b@.len(),
            forall|k: int| 0 <= k < i ==> a@[k] == b@[k],
        decreases length - i,
    {
        if a.get_char(i) != b.get_char(i) {
            return false;
        }
        i += 1;
    }
    assert(a@ =~= b@);
    true
}

impl Board {
    /// A board with no stone on it, for a game under the rule that `rule`
    /// names: `"restricted"`, `"connect5"`, or the standard rule for any
    /// other name.
    pub fn new(rule: &str) -> (board: Board)
        ensures
            board@ == empty_board(rule_named(rule@)),
            board@.wf(),
    {
        let rule = if same_text(rule, "restricted") {
            Rule::Restricted
        } else if same_text(rule, "connect5") {
            Rule::Connect5
        } else {
            Rule::Standard
        };
        let board = Board {
            cells: [0; CAPACITY],
            indexes: [Vec::new(), Vec::new()],
            captures: [0; 2],
            history: Vec::new(),
            cells_value: Board::cells_value(),
            threats: [ThreatHeap::new(), ThreatHeap::new()],
            rule,
        };
        proof {
            let view = board@;
            let empty = empty_board(rule);
            assert(view.indexes =~~= empty.indexes);
            assert(view.threats =~~= empty.threats);
            assert(view.captures =~= empty.captures);
            assert(view.history =~= empty.history);
            assert(view.cells =~= empty.cells);
            assert(view.cells_value =~= empty.cells_value);
        }
        board
    }

    /// The positional weight of every cell: its distance to the nearest edge.
    pub fn cells_value() -> (values: [u8; CAPACITY])
        ensures
            forall|i: int| 0 <= i < 361 ==> #[trigger] values[i] == edge_distance(i),
    {
        let mut values = [0u8; CAPACITY];
        let mut index: usize = 0;
        while index < CAPACITY
            invariant
                index <= 361,
                forall|i: int| 0 <= i < index ==> #[trigger] values[i] == edge_distance(i),
            decreases 361 - index,
        {
            let row = index / SIZE;
            let column = index % SIZE;
            let vertical = if row <= SIZE - 1 - row {
                row
            } else {
                SIZE - 1 - row
            };
            let horizontal = if column <= SIZE - 1 - column {
                column
            } else {
                SIZE - 1 - column
            };
            let nearest = if vertical <= horizontal {
                vertical
            } else {
                horizontal
            };
            values[index] = nearest as u8;
            index += 1;
        }
        values
    }

    /// Decides whether a walk from `start` along `direction` may stand on
    /// `index`.
    pub fn within_limits(start: i16, index: i16, direction: i16) -> (ok: bool)
        ensures
            ok == within_limits_spec(start as int, index as int, direction as int),
    {
        if index < 0 || index >= 361 {
            return false;
        }
        if direction == LEFT || direction == RIGHT {
            start / 19 == index / 19
        } else if direction == UP || direction == DOWN {
            true
        } else if direction == UP_LEFT || direction == DOWN_LEFT {
            start % 19 >= index % 19
        } else if direction == UP_RIGHT || direction == DOWN_RIGHT {
            start % 19 <= index % 19
        } else {
            false
        }
    }

    /// [`Board::within_limits`] for an index that may lie far off the board.
    fn reaches(start: i16, index: i32, direction: i16) -> (ok: bool)
        ensures
            ok == within_limits_spec(start as int, index as int, direction as int),
    {
        0 <= index && index < 361 && Board::within_limits(start, index as i16, direction)
    }

    /// Scans the board from `start` along `direction` and returns the run of
    /// stones that it finds. The scan looks at the neighbour of `start` first
    /// and goes on until the walk leaves its limits or meets a stone of the
    /// run's opponent.
    pub fn get_sequence(&self, start: i16, direction: i16) -> (sequence: Sequence)
        ensures
            sequence@ == scan(self.cells@, start as int, direction as int),
    {
        let mut sequence = Sequence::new(direction);
        let mut ended = false;
        let slot: usize = if direction < 0 { 0 } else { 1 };
        let mut index: i32 = start as i32 + direction as i32;
        let ghost mut steps: int = 1;
        assert(steps * direction == direction) by (nonlinear_arith)
            requires
                steps == 1,
        ;
        while Board::reaches(start, index, direction)
            invariant
                steps >= 1,
                index == start + steps * direction,
                steps > 1 ==> within_limits_spec(
                    start as int,
                    start + direction,
                    direction as int,
                ),
                sequence.space == steps - 1,
                sequence.size <= sequence.space,
                sequence.dist_start <= sequence.space,
                sequence@.block.len() == 0,
                slot == (if direction < 0 { 0usize } else { 1usize }),
                scan_from(
                    self.cells@,
                    start as int,
                    direction as int,
                    index as int,
                    ScanState { run: sequence@, ended, blocked: false },
                ) == scan_from(
                    self.cells@,
                    start as int,
                    direction as int,
                    start + direction,
                    scan_start(direction as int),
                ),
            decreases walk_room(direction as int, index as int),
        {
            proof {
                assert(steps == 1 ==> steps * direction == direction) by (nonlinear_arith);
                lemma_walk_is_short(start as int, direction as int, steps);
                assert((steps + 1) * direction == steps * direction + direction)
                    by (nonlinear_arith);
            }
            let ghost before = ScanState { run: sequence@, ended, blocked: false };
            let cell = self.cells[index as usize];
            if sequence.player == 0 {
                if cell == 0 {
                    sequence.dist_start += 1;
                } else {
                    sequence.player = cell;
                    sequence.size += 1;
                    sequence.bound[slot] = index as i16;
                }
            } else if cell == 0 {
                let next = index + direction as i32;
                if sequence.hole_index.is_none() && Board::reaches(start, next, direction)
                    && self.cells[next as usize] == sequence.player {
                    sequence.hole_index = Some(index as u16);
                } else {
                    sequence.bound[slot] = index as i16;
                    ended = true;
                }
            } else if cell == sequence.player {
                if !ended {
                    if sequence.hole_index.is_none() || sequence.size < 4 {
                        sequence.size += 1;
                    } else {
                        ended = true;
                    }
                }
            } else {
                sequence.bound[slot] = index as i16;
                sequence.block.push(direction);
                proof {
                    let after = scan_step(
                        self.cells@,
                        start as int,
                        direction as int,
                        index as int,
                        before,
                    );
                    assert(sequence@.block =~= after.run.block);
                    assert(sequence@ == after.run);
                    assert(scan_from(
                        self.cells@,
                        start as int,
                        direction as int,
                        index + direction,
                        after,
                    ) == after);
                }
                return sequence;
            }
            sequence.space += 1;
            proof {
                let after = scan_step(
                    self.cells@,
                    start as int,
                    direction as int,
                    index as int,
                    before,
                );
                assert(sequence@.block =~= after.run.block);
                assert(sequence@.counters =~= after.run.counters);
                assert(ScanState { run: sequence@, ended, blocked: false } == after);
                steps = steps + 1;
            }
            index += direction as i32;
        }
        sequence
    }
}

} // verus!
