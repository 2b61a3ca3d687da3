//! Cells, piece codes, the two sides, the starting position and the mapping
//! between board cells and the places where the presentation shows them.

use vstd::prelude::*;

verus! {

/// Number of cells on the board.
pub const CELLS: usize = 64;

/// Code of a cell that holds no piece.
pub const EMPTY: i8 = 0;

/// One of the two players. White moves first.
#[derive(Clone, Copy, Debug, PartialEq, Eq, Structural)]
pub enum Side {
    White,
    Black,
}

impl Side {
    /// The side that moves after `self`.
    pub open spec fn spec_opponent(self) -> Side {
        match self {
            Side::White => Side::Black,
            Side::Black => Side::White,
        }
    }

    #[verifier::when_used_as_spec(spec_opponent)]
    pub fn opponent(self) -> (other: Side)
        ensures
            other == self.spec_opponent(),
    {
        match self {
            Side::White => Side::Black,
            Side::Black => Side::White,
        }
    }
}

/// The side whose turn it is after `moves` committed moves: the parity of
/// the move counter decides.
pub open spec fn side_after(moves: nat) -> Side {
    if moves % 2 == 0 {
        Side::White
    } else {
        Side::Black
    }
}

/// What a piece is, whatever its colour.
#[derive(Clone, Copy, Debug, PartialEq, Eq, Structural)]
pub enum PieceKind {
    Pawn,
    Knight,
    Bishop,
    Rook,
    Queen,
    King,
}

impl PieceKind {
    /// Magnitude of the cell code of this kind, from 1 (pawn) to 6 (king).
    pub open spec fn spec_rank(self) -> i8 {
        match self {
            PieceKind::Pawn => 1,
            PieceKind::Knight => 2,
            PieceKind::Bishop => 3,
            PieceKind::Rook => 4,
            PieceKind::Queen => 5,
            PieceKind::King => 6,
        }
    }

    #[verifier::when_used_as_spec(spec_rank)]
    pub fn rank(self) -> (r: i8)
        ensures
            r == self.spec_rank(),
            1 <= r <= 6,
    {
        match self {
            PieceKind::Pawn => 1,
            PieceKind::Knight => 2,
            PieceKind::Bishop => 3,
            PieceKind::Rook => 4,
            PieceKind::Queen => 5,
            PieceKind::King => 6,
        }
    }

    /// The kind with the given code magnitude, if there is one.
    pub open spec fn spec_from_rank(rank: int) -> Option<PieceKind> {
        if rank == 1 {
            Some(PieceKind::Pawn)
        } else if rank == 2 {
            Some(PieceKind::Knight)
        } else if rank == 3 {
            Some(PieceKind::Bishop)
        } else if rank == 4 {
            Some(PieceKind::Rook)
        } else if rank == 5 {
            Some(PieceKind::Queen)
        } else if rank == 6 {
            Some(PieceKind::King)
        } else {
            None
        }
    }

    /// Position of the kind in the alphabetical list of kinds, which is the
    /// order in which the presentation keeps its piece models.
    pub open spec fn spec_model_slot(self) -> usize {
        match self {
            PieceKind::Bishop => 0,
            PieceKind::King => 1,
            PieceKind::Knight => 2,
            PieceKind::Pawn => 3,
            PieceKind::Queen => 4,
            PieceKind::Rook => 5,
        }
    }

    #[verifier::when_used_as_spec(spec_model_slot)]
    pub fn model_slot(self) -> (slot: usize)
        ensures
            slot == self.spec_model_slot(),
            slot < 6,
    {
        match self {
            PieceKind::Bishop => 0,
            PieceKind::King => 1,
            PieceKind::Knight => 2,
            PieceKind::Pawn => 3,
            PieceKind::Queen => 4,
            PieceKind::Rook => 5,
        }
    }
}

/// A piece: its colour and its kind.
#[derive(Clone, Copy, Debug, PartialEq, Eq, Structural)]
pub struct Piece {
    pub side: Side,
    pub kind: PieceKind,
}

/// Number of piece models that the presentation keeps: six kinds in two
/// colours.
pub const MODELS: usize = 12;

impl Piece {
    /// The cell code of the piece: the rank of its kind, positive for white
    /// and negative for black.
    pub open spec fn spec_code(self) -> i8 {
        match self.side {
            Side::White => self.kind.spec_rank(),
            Side::Black => (-self.kind.spec_rank()) as i8,
        }
    }

    #[verifier::when_used_as_spec(spec_code)]
    pub fn code(self) -> (code: i8)
        ensures
            code == self.spec_code(),
            code != EMPTY,
            code_is_valid(code),
    {
        let rank: i8 = self.kind.rank();
        match self.side {
            Side::White => rank,
            Side::Black => -rank,
        }
    }

    /// Index of the model that shows the piece, below `MODELS`: the slot of
    /// the kind for black, six more for white.
    pub open spec fn spec_model_index(self) -> usize {
        match self.side {
            Side::Black => self.kind.spec_model_slot(),
            Side::White => (self.kind.spec_model_slot() + 6) as usize,
        }
    }

    #[verifier::when_used_as_spec(spec_model_index)]
    pub fn model_index(self) -> (index: usize)
        ensures
            index == self.spec_model_index(),
            index < MODELS,
    {
        let slot: usize = self.kind.model_slot();
        match self.side {
            Side::Black => slot,
            Side::White => slot + 6,
        }
    }

    /// Number of the mesh, in the asset file of the board, that holds the
    /// model of the piece.
    pub open spec fn spec_mesh_number(self) -> usize {
        let base: usize = match self.kind {
            PieceKind::Bishop => 0,
            PieceKind::King => 2,
            PieceKind::Knight => 3,
            PieceKind::Pawn => 5,
            PieceKind::Queen => 13,
            PieceKind::Rook => 14,
        };
        match self.side {
            Side::Black => base,
            Side::White => (base + 18) as usize,
        }
    }

    #[verifier::when_used_as_spec(spec_mesh_number)]
    pub fn mesh_number(self) -> (mesh: usize)
        ensures
            mesh == self.spec_mesh_number(),
    {
        let base: usize = match self.kind {
            PieceKind::Bishop => 0,
            PieceKind::King => 2,
            PieceKind::Knight => 3,
            PieceKind::Pawn => 5,
            PieceKind::Queen => 13,
            PieceKind::Rook => 14,
        };
        match self.side {
            Side::Black => base,
            Side::White => base + 18,
        }
    }
}

/// A cell code is valid when it is `EMPTY` or the code of a piece.
pub open spec fn code_is_valid(code: i8) -> bool {
    -6 <= code <= 6
}

/// The piece that a cell code stands for: none for `EMPTY` and for codes
/// outside the valid range.
pub open spec fn piece_of_code(code: i8) -> Option<Piece> {
    if 1 <= code <= 6 {
        Some(Piece { side: Side::White, kind: PieceKind::spec_from_rank(code as int).unwrap() })
    } else if -6 <= code <= -1 {
        Some(Piece { side: Side::Black, kind: PieceKind::spec_from_rank(-code).unwrap() })
    } else {
        None
    }
}

/// The side that owns the piece with the given code, if the code is one of
/// a piece.
pub open spec fn side_of_code(code: i8) -> Option<Side> {
    match piece_of_code(code) {
        Some(piece) => Some(piece.side),
        None => None,
    }
}

fn kind_of_rank(rank: i8) -> (kind: Option<PieceKind>)
    ensures
        kind == PieceKind::spec_from_rank(rank as int),
{
    if rank == 1 {
        Some(PieceKind::Pawn)
    } else if rank == 2 {
        Some(PieceKind::Knight)
    } else if rank == 3 {
        Some(PieceKind::Bishop)
    } else if rank == 4 {
        Some(PieceKind::Rook)
    } else if rank == 5 {
        Some(PieceKind::Queen)
    } else if rank == 6 {
        Some(PieceKind::King)
    } else {
        None
    }
}

/// Reads a cell code.
pub fn decode(code: i8) -> (piece: Option<Piece>)
    ensures
        piece == piece_of_code(code),
{
    if 1 <= code && code <= 6 {
        match kind_of_rank(code) {
            Some(kind) => Some(Piece { side: Side::White, kind }),
            None => None,
        }
    } else if -6 <= code && code <= -1 {
        match kind_of_rank(-code) {
            Some(kind) => Some(Piece { side: Side::Black, kind }),
            None => None,
        }
    } else {
        None
    }
}

/// Tells whose piece a cell code stands for.
pub fn owner(code: i8) -> (side: Option<Side>)
    ensures
        side == side_of_code(code),
{
    if 1 <= code && code <= 6 {
        Some(Side::White)
    } else if -6 <= code && code <= -1 {
        Some(Side::Black)
    } else {
        None
    }
}

/// Reading the code of a piece gives the piece back.
pub proof fn lemma_decode_of_code(piece: Piece)
    ensures
        piece_of_code(piece.spec_code()) == Some(piece),
{
}

/// Every valid code but `EMPTY` is the code of the piece it is read as, and
/// no other code is read as a piece.
pub proof fn lemma_code_of_decode(code: i8)
    ensures
        code_is_valid(code) && code != EMPTY ==> piece_of_code(code).is_some()
            && piece_of_code(code).unwrap().spec_code() == code,
        !code_is_valid(code) || code == EMPTY ==> piece_of_code(code).is_none(),
{
}

/// The table of models is total and one to one: every piece has a model
/// below `MODELS`, and two pieces share a model, or a mesh, only when they
/// are the same piece.
pub proof fn lemma_models_distinct(a: Piece, b: Piece)
    ensures
        a.spec_model_index() < MODELS,
        a.spec_model_index() == b.spec_model_index() ==> a == b,
        a.spec_mesh_number() == b.spec_mesh_number() ==> a == b,
{
}

/// Kind of the piece that starts on the given file of a back rank.
pub open spec fn back_rank_kind(file: int) -> PieceKind {
    if file == 0 || file == 7 {
        PieceKind::Rook
    } else if file == 1 || file == 6 {
        PieceKind::Knight
    } else if file == 2 || file == 5 {
        PieceKind::Bishop
    } else if file == 3 {
        PieceKind::King
    } else {
        PieceKind::Queen
    }
}

/// Code of the given cell in the starting position: white's pieces on the
/// first row and pawns on the second, black's pawns on the seventh row and
/// pieces on the eighth, nothing between.
pub open spec fn start_code(cell: int) -> i8 {
    let row = cell / 8;
    let file = cell % 8;
    if row == 0 {
        back_rank_kind(file).spec_rank()
    } else if row == 1 {
        1
    } else if row == 6 {
        (-1) as i8
    } else if row == 7 {
        (-back_rank_kind(file).spec_rank()) as i8
    } else {
        EMPTY
    }
}

/// The starting position as a sequence of 64 cell codes.
pub open spec fn start_cells() -> Seq<i8> {
    Seq::new(CELLS as nat, |cell: int| start_code(cell))
}

fn back_rank_rank(file: usize) -> (rank: i8)
    requires
        file < 8,
    ensures
        rank == back_rank_kind(file as int).spec_rank(),
        1 <= rank <= 6,
{
    if file == 0 || file == 7 {
        4
    } else if file == 1 || file == 6 {
        2
    } else if file == 2 || file == 5 {
        3
    } else if file == 3 {
        6
    } else {
        5
    }
}

/// Builds the starting position.
pub fn starting_position() -> (cells: [i8; 64])
    ensures
        cells@ == start_cells(),
{
    let mut cells: [i8; 64] = [EMPTY;64];
    let mut file: usize = 0;
    while file < 8
        invariant
            file <= 8,
            forall|c: int| 0 <= c < 64 && c % 8 < file ==> cells@[c] == start_code(c),
            forall|c: int| 0 <= c < 64 && c % 8 >= file ==> cells@[c] == EMPTY,
        decreases 8 - file,
    {
        let rank: i8 = back_rank_rank(file);
        cells[file] = rank;
        cells[file + 8] = 1;
        cells[file + 48] = -1;
        cells[file + 56] = -rank;
        file = file + 1;
    }
    assert(cells@ =~= start_cells());
    cells
}

/// A place on the table where a cell is shown: `x` runs against the rows of
/// the board and `z` along its files, both from 0 to 7.
#[derive(Clone, Copy, Debug, PartialEq, Eq, Structural)]
pub struct Place {
    pub x: u8,
    pub z: u8,
}

/// The place where the given cell is shown, for a cell on the board.
pub open spec fn place_of_cell(cell: u8) -> Place {
    Place { x: (7 - cell / 8) as u8, z: cell % 8 }
}

/// The cell that is shown at the given place, for a place on the table.
pub open spec fn cell_of_place(place: Place) -> u8 {
    ((7 - place.x) * 8 + place.z) as u8
}

/// Gives the place of a cell; none for a number that is no cell.
pub fn place_of(cell: u8) -> (place: Option<Place>)
    ensures
        cell < CELLS ==> place == Some(place_of_cell(cell)),
        cell >= CELLS ==> place.is_none(),
{
    if cell < 64 {
        Some(Place { x: 7 - cell / 8, z: cell % 8 })
    } else {
        None
    }
}

/// Gives the cell at a place; none for a place off the table.
pub fn cell_at(place: Place) -> (cell: Option<u8>)
    ensures
        place.x < 8 && place.z < 8 ==> cell == Some(cell_of_place(place)),
        place.x >= 8 || place.z >= 8 ==> cell.is_none(),
        cell matches Some(c) ==> c < CELLS,
{
    if place.x < 8 && place.z < 8 {
        Some((7 - place.x) * 8 + place.z)
    } else {
        None
    }
}

/// Cells and places correspond one to one: going from a cell to its place
/// and back gives the cell, and the other way round.
pub proof fn lemma_place_round_trip(cell: u8, place: Place)
    ensures
        cell < CELLS ==> place_of_cell(cell).x < 8 && place_of_cell(cell).z < 8 && cell_of_place(
            place_of_cell(cell),
        ) == cell,
        place.x < 8 && place.z < 8 ==> cell_of_place(place) < CELLS && place_of_cell(
            cell_of_place(place),
        ) == place,
{
}

} // verus!
