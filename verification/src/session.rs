//! The authoritative game state: the board, the move counter and the time
//! that the engine may spend on a move.

use crate::board::{side_after, code_is_valid, start_cells, starting_position, Side, CELLS, EMPTY};
use vstd::prelude::*;

verus! {

/// Time per move of a new session, in milliseconds.
pub const DEFAULT_MILLIS_PER_MOVE: u32 = 2000;

/// Shortest time per move that can be set, in milliseconds.
pub const MIN_MILLIS_PER_MOVE: u32 = 300;

/// Longest time per move that can be set, in milliseconds.
pub const MAX_MILLIS_PER_MOVE: u32 = 5000;

/// Amount by which one adjustment changes the time per move, in
/// milliseconds.
pub const MILLIS_STEP: u32 = 50;

/// What a move did to the cell it went to.
#[derive(Clone, Copy, Debug, PartialEq, Eq, Structural)]
pub enum MoveOutcome {
    /// The destination was empty.
    Plain,
    /// The destination held a piece, which left the board.
    Capture,
}

/// The session as a mathematical value.
pub struct SessionModel {
    /// The 64 cell codes, by cell.
    pub cells: Seq<i8>,
    /// Number of moves committed since the start or the last reset.
    pub move_counter: nat,
    /// Time that the engine may spend on a move, in milliseconds.
    pub millis_per_move: nat,
}

impl SessionModel {
    /// A session is well formed when it has 64 cells with valid codes and a
    /// time per move within the limits.
    pub open spec fn wf(self) -> bool {
        &&& self.cells.len() == CELLS
        &&& forall|c: int| 0 <= c < CELLS ==> code_is_valid(#[trigger] self.cells[c])
        &&& MIN_MILLIS_PER_MOVE <= self.millis_per_move <= MAX_MILLIS_PER_MOVE
    }

    /// The session of a new game with the default time per move.
    pub open spec fn initial() -> SessionModel {
        SessionModel {
            cells: start_cells(),
            move_counter: 0,
            millis_per_move: DEFAULT_MILLIS_PER_MOVE as nat,
        }
    }

    /// The side to move: white when the move counter is even.
    pub open spec fn side_to_move(self) -> Side {
        side_after(self.move_counter)
    }

    /// Whether the given cell holds a piece.
    pub open spec fn occupied(self, cell: int) -> bool {
        self.cells[cell] != EMPTY
    }

    /// The session after a reset: the starting position and no move made;
    /// the time per move stays.
    pub open spec fn reset(self) -> SessionModel {
        SessionModel { cells: start_cells(), move_counter: 0, ..self }
    }

    /// What a move from `source` to `destination` does to the destination.
    pub open spec fn outcome(self, source: int, destination: int) -> MoveOutcome {
        if self.occupied(destination) {
            MoveOutcome::Capture
        } else {
            MoveOutcome::Plain
        }
    }

    /// The session after a move: what stood on `source` stands on
    /// `destination`, `source` is empty, and one more move is counted.
    pub open spec fn applied(self, source: int, destination: int) -> SessionModel {
        SessionModel {
            cells: self.cells.update(destination, self.cells[source]).update(source, EMPTY),
            move_counter: (self.move_counter + 1) as nat,
            ..self
        }
    }

    /// The time per move after one adjustment: a step more for `longer`, a
    /// step less for `shorter`, brought back within the limits. Both at
    /// once, or none, change nothing.
    pub open spec fn adjusted_millis(self, longer: bool, shorter: bool) -> nat {
        if longer == shorter {
            self.millis_per_move
        } else if longer {
            if self.millis_per_move + MILLIS_STEP > MAX_MILLIS_PER_MOVE {
                MAX_MILLIS_PER_MOVE as nat
            } else {
                (self.millis_per_move + MILLIS_STEP) as nat
            }
        } else {
            if self.millis_per_move < MIN_MILLIS_PER_MOVE + MILLIS_STEP {
                MIN_MILLIS_PER_MOVE as nat
            } else {
                (self.millis_per_move - MILLIS_STEP) as nat
            }
        }
    }

    /// The session after one adjustment of the time per move.
    pub open spec fn adjusted(self, longer: bool, shorter: bool) -> SessionModel {
        SessionModel { millis_per_move: self.adjusted_millis(longer, shorter), ..self }
    }

    /// The session after the moves of `moves`, each a pair of source and
    /// destination, applied in order.
    pub open spec fn applied_all(self, moves: Seq<(int, int)>) -> SessionModel
        decreases moves.len(),
    {
        if moves.len() == 0 {
            self
        } else {
            self.applied_all(moves.drop_last()).applied(moves.last().0, moves.last().1)
        }
    }
}

/// The game session. Its fields are private: a session is always well
/// formed.
#[derive(Clone, Copy, Debug, PartialEq, Eq)]
pub struct GameSession {
    cells: [i8; 64],
    move_counter: u64,
    millis_per_move: u32,
}

impl View for GameSession {
    type V = SessionModel;

    closed spec fn view(&self) -> SessionModel {
        SessionModel {
            cells: self.cells@,
            move_counter: self.move_counter as nat,
            millis_per_move: self.millis_per_move as nat,
        }
    }
}

impl GameSession {
    /// Every session is well formed, and its counter is one that the
    /// machine can hold.
    #[verifier::type_invariant]
    pub open spec fn inv(self) -> bool {
        self@.wf() && self@.move_counter <= u64::MAX
    }

    /// A session in the starting position, with white to move and the
    /// default time per move.
    pub fn new() -> (session: GameSession)
        ensures
            session@ == SessionModel::initial(),
    {
        GameSession {
            cells: starting_position(),
            move_counter: 0,
            millis_per_move: DEFAULT_MILLIS_PER_MOVE,
        }
    }

    /// A session with the given cells and move counter and the default time
    /// per move; none when a cell holds a code that is not valid.
    pub fn from_cells(cells: [i8; 64], move_counter: u64) -> (session: Option<GameSession>)
        ensures
            session.is_some() <==> forall|c: int| 0 <= c < CELLS ==> code_is_valid(#[trigger] cells@[c]),
            session matches Some(s) ==> s@ == (SessionModel {
                cells: cells@,
                move_counter: move_counter as nat,
                millis_per_move: DEFAULT_MILLIS_PER_MOVE as nat,
            }),
    {
        let mut c: usize = 0;
        while c < 64
            invariant
                c <= 64,
                forall|k: int| 0 <= k < c ==> code_is_valid(#[trigger] cells@[k]),
            decreases 64 - c,
        {
            if cells[c] < -6 || cells[c] > 6 {
                return None;
            }
            c = c + 1;
        }
        Some(GameSession { cells, move_counter, millis_per_move: DEFAULT_MILLIS_PER_MOVE })
    }

    /// Restores the starting position and sets the move counter to zero.
    pub fn reset(&mut self)
        ensures
            final(self)@ == old(self)@.reset(),
    {
        proof {
            use_type_invariant(&*self);
        }
        self.cells = starting_position();
        self.move_counter = 0;
    }

    /// A snapshot of the board.
    pub fn query(&self) -> (cells: [i8; 64])
        ensures
            cells@ == self@.cells,
    {
        self.cells
    }

    /// The code of one cell; `EMPTY` for a number that is no cell.
    pub fn cell(&self, cell: u8) -> (code: i8)
        ensures
            cell < CELLS ==> code == self@.cells[cell as int],
            cell >= CELLS ==> code == EMPTY,
            code_is_valid(code),
    {
        proof {
            use_type_invariant(self);
        }
        if cell < 64 {
            self.cells[cell as usize]
        } else {
            EMPTY
        }
    }

    /// Number of moves committed since the start or the last reset.
    pub fn move_counter(&self) -> (count: u64)
        ensures
            count == self@.move_counter,
    {
        self.move_counter
    }

    /// Time that the engine may spend on a move, in milliseconds.
    pub fn millis_per_move(&self) -> (millis: u32)
        ensures
            millis == self@.millis_per_move,
            MIN_MILLIS_PER_MOVE <= millis <= MAX_MILLIS_PER_MOVE,
    {
        proof {
            use_type_invariant(self);
        }
        self.millis_per_move
    }

    /// The side whose turn it is.
    pub fn side_to_move(&self) -> (side: Side)
        ensures
            side == self@.side_to_move(),
    {
        if self.move_counter % 2 == 0 {
            Side::White
        } else {
            Side::Black
        }
    }

    /// Applies a move: the piece on `source`, if any, goes to `destination`
    /// and what stood there leaves the board. Whether the move is legal is
    /// not asked here.
    pub fn apply(&mut self, source: u8, destination: u8) -> (outcome: MoveOutcome)
        requires
            source < CELLS,
            destination < CELLS,
            old(self)@.move_counter < u64::MAX,
        ensures
            final(self)@ == old(self)@.applied(source as int, destination as int),
            outcome == old(self)@.outcome(source as int, destination as int),
    {
        proof {
            use_type_invariant(&*self);
        }
        let outcome = if self.cells[destination as usize] != EMPTY {
            MoveOutcome::Capture
        } else {
            MoveOutcome::Plain
        };
        let piece: i8 = self.cells[source as usize];
        self.cells[destination as usize] = piece;
        self.cells[source as usize] = EMPTY;
        self.move_counter = self.move_counter + 1;
        outcome
    }

    /// Adjusts the time per move by one step up or down, within the limits.
    pub fn adjust_time(&mut self, longer: bool, shorter: bool)
        ensures
            final(self)@ == old(self)@.adjusted(longer, shorter),
    {
        proof {
            use_type_invariant(&*self);
        }
        if longer && !shorter {
            if self.millis_per_move + MILLIS_STEP > MAX_MILLIS_PER_MOVE {
                self.millis_per_move = MAX_MILLIS_PER_MOVE;
            } else {
                self.millis_per_move = self.millis_per_move + MILLIS_STEP;
            }
        } else if shorter && !longer {
            if self.millis_per_move < MIN_MILLIS_PER_MOVE + MILLIS_STEP {
                self.millis_per_move = MIN_MILLIS_PER_MOVE;
            } else {
                self.millis_per_move = self.millis_per_move - MILLIS_STEP;
            }
        }
    }
}

/// The starting position is a well-formed session with white to move.
pub proof fn lemma_initial_wf()
    ensures
        SessionModel::initial().wf(),
        SessionModel::initial().side_to_move() == Side::White,
{
}

/// A move keeps a session well formed, counts as exactly one move and
/// passes the turn to the other side.
pub proof fn lemma_apply_alternates(s: SessionModel, source: int, destination: int)
    requires
        s.wf(),
        0 <= source < CELLS,
        0 <= destination < CELLS,
    ensures
        s.applied(source, destination).wf(),
        s.applied(source, destination).move_counter == s.move_counter + 1,
        s.applied(source, destination).side_to_move() == s.side_to_move().spec_opponent(),
{
}

/// After any sequence of moves the counter has grown by the number of moves,
/// and the side to move is the one it was when that number is even, the
/// other one when it is odd.
pub proof fn lemma_moves_counted(s: SessionModel, moves: Seq<(int, int)>)
    requires
        s.wf(),
        forall|k: int| 0 <= k < moves.len() ==> 0 <= (#[trigger] moves[k]).0 < CELLS && 0 <= moves[k].1 < CELLS,
    ensures
        s.applied_all(moves).wf(),
        s.applied_all(moves).move_counter == s.move_counter + moves.len(),
        s.applied_all(moves).side_to_move() == (if moves.len() % 2 == 0 {
            s.side_to_move()
        } else {
            s.side_to_move().spec_opponent()
        }),
    decreases moves.len(),
{
    if moves.len() > 0 {
        let before = moves.drop_last();
        lemma_moves_counted(s, before);
        lemma_apply_alternates(s.applied_all(before), moves.last().0, moves.last().1);
    }
}

} // verus!
