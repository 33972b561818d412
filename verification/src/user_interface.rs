use vstd::prelude::*;

verus! {

/// Side of the board that the window shows.
pub const BOARD_SIZE: usize = 19;

/// Number of cells that the window shows.
pub const BOARD_CAPACITY: usize = 361;

/// Distance in pixels between two neighbouring lines of the board.
pub const CELL_PIXELS: i32 = 35;

/// Distance in pixels from a line of the board to the near side of the
/// stone that sits on it.
pub const STONE_MARGIN: i32 = 5;

/// Width and height of a stone in pixels.
pub const STONE_PIXELS: u32 = 25;

/// Mode of a player that the engine moves for.
pub const AI: bool = false;

/// Mode of a player who moves with the mouse.
pub const HUMAN: bool = true;

pub const PLAYING: u8 = 0;

pub const SEQUENCE_WIN: u8 = 1;

pub const CAPTURE_WIN: u8 = 3;

pub const DRAW: u8 = 5;

/// A line number just off the board, pulled back onto it; any other number
/// as it is.
pub open spec fn snapped(line: int) -> int {
    if line == 19 {
        18
    } else if line == -1 {
        0
    } else {
        line
    }
}

/// Pulls a position that lies one line off the board back onto the nearest
/// line of the board.
pub fn snap_position(x: i32, y: i32) -> (position: (i32, i32))
    ensures
        position.0 == snapped(x as int),
        position.1 == snapped(y as int),
{
    let column = if x == 19 {
        18
    } else if x == -1 {
        0
    } else {
        x
    };
    let row = if y == 19 {
        18
    } else if y == -1 {
        0
    } else {
        y
    };
    (column, row)
}

/// Index of the cell in column `x` of row `y`.
pub fn pos_to_index(x: i32, y: i32) -> (index: usize)
    requires
        x >= 0,
        y >= 0,
        y * 19 + x <= usize::MAX,
    ensures
        index == y * 19 + x,
{
    y as usize * BOARD_SIZE + x as usize
}

/// Column and row of the cell at `index`.
pub fn index_to_pos(index: usize) -> (position: (i32, i32))
    requires
        index / 19 <= i32::MAX,
    ensures
        position.0 == index % 19,
        position.1 == index / 19,
{
    ((index % BOARD_SIZE) as i32, (index / BOARD_SIZE) as i32)
}

/// A cell's index leads to its column and row, and they lead back to it.
pub proof fn lemma_position_round_trip(index: int)
    requires
        0 <= index,
    ensures
        (index / 19) * 19 + index % 19 == index,
        0 <= index % 19 < 19,
{
}

/// The square of the window that a stone covers.
#[derive(Clone, Copy, Debug, PartialEq, Eq, Structural)]
pub struct TextRect {
    pub x: i32,
    pub y: i32,
    pub w: u32,
    pub h: u32,
}

/// The square that the stone in column `x` of row `y` covers.
pub fn get_text_rect(x: i32, y: i32) -> (rect: TextRect)
    requires
        i32::MIN <= (x + 1) * CELL_PIXELS + STONE_MARGIN <= i32::MAX,
        i32::MIN <= (y + 1) * CELL_PIXELS + STONE_MARGIN <= i32::MAX,
    ensures
        rect.x == (x + 1) * CELL_PIXELS + STONE_MARGIN,
        rect.y == (y + 1) * CELL_PIXELS + STONE_MARGIN,
        rect.w == STONE_PIXELS,
        rect.h == STONE_PIXELS,
{
    TextRect {
        x: (x + 1) * CELL_PIXELS + STONE_MARGIN,
        y: (y + 1) * CELL_PIXELS + STONE_MARGIN,
        w: STONE_PIXELS,
        h: STONE_PIXELS,
    }
}

/// What the window shows of a game: the stones, whose turn it is, and
/// whether the game goes on.
pub struct Game {
    /// What each cell holds: 0 when empty, else 1 or 2.
    pub board: [u8; BOARD_CAPACITY],
    /// The player to move, 0 or 1. Their stones are `player + 1`.
    pub player: u8,
    /// [`PLAYING`] while the game goes on, else how it ended.
    pub status: u8,
}

/// What happened since the last step of the game.
#[derive(Clone, Copy, Debug, PartialEq, Eq, Structural)]
pub enum Event {
    /// The player to move is the engine's: it moves now.
    EngineTurn,
    /// The window was closed or the escape key pressed.
    Quit,
    /// The left mouse button went down on column `x` of row `y`.
    Click { x: i32, y: i32 },
    /// The backspace key was pressed.
    Undo,
    /// Anything else.
    Other,
}

/// What the window has to do after a step of the game.
#[derive(Clone, Copy, Debug, PartialEq, Eq, Structural)]
pub enum Action {
    /// Leave the game.
    Quit,
    /// Draw the board anew: a stone was placed and the turn passed.
    Render,
    /// Tell the player that the cell in column `x` of row `y` is taken.
    Refuse { x: i32, y: i32 },
    /// Tell the player that undoing was asked for.
    Undo,
    /// Nothing.
    Wait,
}

/// What a [`Game`] holds, as mathematical values.
pub struct GameView {
    pub board: Seq<u8>,
    pub player: u8,
    pub status: u8,
}

impl View for Game {
    type V = GameView;

    open spec fn view(&self) -> GameView {
        GameView { board: self.board@, player: self.player, status: self.status }
    }
}

/// Whether `index` is the first empty cell of `board`.
pub open spec fn is_first_empty(board: Seq<u8>, index: int) -> bool {
    &&& 0 <= index < board.len()
    &&& board[index] == 0
    &&& forall|j: int| 0 <= j < index ==> board[j] != 0
}

/// Whether `board` has no empty cell.
pub open spec fn is_full(board: Seq<u8>) -> bool {
    forall|j: int| 0 <= j < board.len() ==> board[j] != 0
}

impl GameView {
    /// Whether the game is one that [`Game::new`] and [`Game::step`] lead to.
    pub open spec fn wf(self) -> bool {
        self.board.len() == 361 && self.player <= 1
    }

    /// Whether `event` names a cell of the board, if it names one at all.
    pub open spec fn accepts(self, event: Event) -> bool {
        event matches Event::Click { x, y } ==> x >= 0 && y >= 0 && y * 19 + x < 361
    }

    /// The game after the player to move has put a stone on `index`: the
    /// cell holds their stone and the turn has passed to the other player.
    pub open spec fn placed(self, index: int) -> GameView {
        GameView {
            board: self.board.update(index, (self.player + 1) as u8),
            player: (1 - self.player) as u8,
            ..self
        }
    }

    /// Whether a step on `event` leads from this game to `next` and asks the
    /// window for `action`.
    ///
    /// - Quitting and undoing leave the game as it is and hand the request
    ///   on to the window.
    /// - The engine takes the first empty cell; on a full board it waits.
    /// - A click takes the cell it names if that cell is empty; if not, the
    ///   game stays as it is and the window is told to refuse.
    /// - Where a stone was placed, the turn passes and the window draws.
    pub open spec fn steps_to(self, event: Event, next: GameView, action: Action) -> bool {
        match event {
            Event::Quit => next == self && action == Action::Quit,
            Event::Undo => next == self && action == Action::Undo,
            Event::Other => next == self && action == Action::Wait,
            Event::EngineTurn => if is_full(self.board) {
                next == self && action == Action::Wait
            } else {
                exists|index: int|
                    is_first_empty(self.board, index) && next == self.placed(index) && action
                        == Action::Render
            },
            Event::Click { x, y } => if self.board[y * 19 + x] == 0 {
                next == self.placed(y * 19 + x) && action == Action::Render
            } else {
                next == self && action == (Action::Refuse { x, y })
            },
        }
    }
}

impl Game {
    /// A game on an empty board, with player 0 to move.
    pub fn new() -> (game: Game)
        ensures
            game@.wf(),
            game@.board == Seq::new(361, |i: int| 0u8),
            game@.player == 0,
            game@.status == PLAYING,
    {
        let game = Game { board: [0u8; BOARD_CAPACITY], player: 0, status: PLAYING };
        assert(game@.board =~= Seq::new(361, |i: int| 0u8));
        game
    }

    /// The first empty cell of the board, if there is one.
    pub fn first_empty(&self) -> (found: Option<usize>)
        ensures
            match found {
                Some(index) => is_first_empty(self@.board, index as int),
                None => is_full(self@.board),
            },
    {
        let mut index: usize = 0;
        while index < BOARD_CAPACITY
            invariant
                index <= 361,
                forall|j: int| 0 <= j < index ==> self.board@[j] != 0,
            decreases 361 - index,
        {
            if self.board[index] == 0 {
                return Some(index);
            }
            index += 1;
        }
        None
    }

    /// Puts a stone of the player to move on `index` and passes the turn.
    fn place(&mut self, index: usize)
        requires
            old(self)@.wf(),
            index < 361,
        ensures
            final(self)@ == old(self)@.placed(index as int),
            final(self)@.wf(),
    {
        self.board[index] = self.player + 1;
        self.player = 1 - self.player;
    }

    /// Takes the game one step further on `event` and says what the window
    /// has to do.
    pub fn step(&mut self, event: Event) -> (action: Action)
        requires
            old(self)@.wf(),
            old(self)@.accepts(event),
        ensures
            old(self)@.steps_to(event, final(self)@, action),
            final(self)@.wf(),
    {
        match event {
            Event::Quit => Action::Quit,
            Event::Undo => Action::Undo,
            Event::Other => Action::Wait,
            Event::EngineTurn => {
                match self.first_empty() {
                    Some(index) => {
                        self.place(index);
                        Action::Render
                    },
                    None => Action::Wait,
                }
            },
            Event::Click { x, y } => {
                let index = pos_to_index(x, y);
                if self.board[index] == 0 {
                    self.place(index);
                    Action::Render
                } else {
                    Action::Refuse { x, y }
                }
            },
        }
    }
}

} // verus!
