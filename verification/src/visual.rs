//! The piece records that the presentation draws: one per piece on the
//! board, each with the cell it belongs to and the place where it is drawn
//! at the moment.

use crate::animator::{advance, advanced, lemma_advanced_wf};
use crate::board::{CELLS, EMPTY};
use crate::session::GameSession;
use vstd::prelude::*;

verus! {

/// Length of a cell's side, in the unit of rendered positions: positions,
/// lifts and speeds are counted in thousandths of a cell.
pub const UNIT: i64 = 1000;

/// Rendered positions stay within this distance of the origin on both axes.
pub const POSITION_LIMIT: i64 = 100_000_000;

/// Highest speed of a piece, in thousandths of a cell per second.
pub const MAX_SPEED: u32 = 3000;

/// Where a piece that belongs to `cell` comes to rest, against the rows.
pub open spec fn target_x(cell: u8) -> int {
    UNIT * (7 - cell / 8)
}

/// Where a piece that belongs to `cell` comes to rest, along the files.
pub open spec fn target_z(cell: u8) -> int {
    UNIT * (cell % 8)
}

/// The record of one piece for the presentation.
#[derive(Clone, Copy, Debug, PartialEq, Eq, Structural)]
pub struct PieceVisual {
    /// Name of the record: the cell on which the piece stood when the board
    /// was populated. It never changes.
    pub id: u8,
    /// The cell to which the piece belongs now.
    pub cell: u8,
    /// Rendered position against the rows.
    pub x: i64,
    /// Rendered position along the files.
    pub z: i64,
    /// Height above the board at which the piece is drawn.
    pub lift: u32,
    /// Speed at which the piece travels to its cell.
    pub speed: u32,
}

impl PieceVisual {
    /// A record is well formed when its cell is on the board, its position
    /// within the limit and its speed not above the highest.
    pub open spec fn wf(self) -> bool {
        &&& self.cell < CELLS
        &&& -POSITION_LIMIT <= self.x <= POSITION_LIMIT
        &&& -POSITION_LIMIT <= self.z <= POSITION_LIMIT
        &&& self.speed <= MAX_SPEED
    }

    /// Tells whether the record is well formed.
    pub fn is_valid(&self) -> (valid: bool)
        ensures
            valid == self.wf(),
    {
        self.cell < 64 && -POSITION_LIMIT <= self.x && self.x <= POSITION_LIMIT
            && -POSITION_LIMIT <= self.z && self.z <= POSITION_LIMIT && self.speed
            <= MAX_SPEED
    }

    /// The record of a piece that stands still on `cell` and is named after
    /// it.
    pub open spec fn resting(cell: u8) -> PieceVisual {
        PieceVisual {
            id: cell,
            cell,
            x: target_x(cell) as i64,
            z: target_z(cell) as i64,
            lift: 0,
            speed: 0,
        }
    }

    /// The same record with another cell: the rendered position stays, so
    /// that the piece can travel to the new cell.
    pub open spec fn moved_to(self, cell: u8) -> PieceVisual {
        PieceVisual { cell, ..self }
    }

    /// Makes the record of a piece that stands still on `cell`.
    pub fn at_rest(cell: u8) -> (visual: PieceVisual)
        requires
            cell < CELLS,
        ensures
            visual == PieceVisual::resting(cell),
            visual.wf(),
    {
        let row: i64 = (7 - cell / 8) as i64;
        let file: i64 = (cell % 8) as i64;
        PieceVisual { id: cell, cell, x: UNIT * row, z: UNIT * file, lift: 0, speed: 0 }
    }
}

/// Whether every record of the sequence is well formed.
pub open spec fn all_wf(s: Seq<PieceVisual>) -> bool {
    forall|i: int| 0 <= i < s.len() ==> (#[trigger] s[i]).wf()
}

/// Number of records that belong to `cell`.
pub open spec fn count_at(s: Seq<PieceVisual>, cell: int) -> nat
    decreases s.len(),
{
    if s.len() == 0 {
        0
    } else {
        count_at(s.drop_last(), cell) + if s.last().cell == cell {
            1nat
        } else {
            0nat
        }
    }
}

/// Number of records with the name `id`.
pub open spec fn count_named(s: Seq<PieceVisual>, id: int) -> nat
    decreases s.len(),
{
    if s.len() == 0 {
        0
    } else {
        count_named(s.drop_last(), id) + if s.last().id == id {
            1nat
        } else {
            0nat
        }
    }
}

/// The record that belongs to `cell`: the last of them, should several
/// share the cell.
pub open spec fn holder(s: Seq<PieceVisual>, cell: u8) -> Option<PieceVisual>
    decreases s.len(),
{
    if s.len() == 0 {
        None
    } else if s.last().cell == cell {
        Some(s.last())
    } else {
        holder(s.drop_last(), cell)
    }
}

/// The records mirror the board when every occupied cell has exactly one
/// record and every empty cell has none.
pub open spec fn mirrors(s: Seq<PieceVisual>, cells: Seq<i8>) -> bool {
    forall|c: int|
        0 <= c < CELLS ==> #[trigger] count_at(s, c) == if cells[c] != EMPTY {
            1nat
        } else {
            0nat
        }
}

/// No two records share a name.
pub open spec fn names_distinct(s: Seq<PieceVisual>) -> bool {
    forall|id: int| 0 <= id < 256 ==> #[trigger] count_named(s, id) <= 1
}

/// The numbers of the cells, in order.
pub open spec fn cell_numbers() -> Seq<u8> {
    Seq::new(CELLS as nat, |c: int| c as u8)
}

/// What populating makes of a cell: the record of a resting piece where the
/// cell is occupied, nothing where it is empty.
pub open spec fn placement(cells: Seq<i8>) -> spec_fn(u8) -> Option<PieceVisual> {
    |c: u8|
        if cells[c as int] != EMPTY {
            Some(PieceVisual::resting(c))
        } else {
            None
        }
}

/// The records of a freshly populated board: one resting piece for each
/// occupied cell, in the order of the cells.
pub open spec fn populated(cells: Seq<i8>) -> Seq<PieceVisual> {
    cell_numbers().filter_map(placement(cells))
}

/// What a move does to a record: the one on the destination goes, the one
/// on the source belongs to the destination from now on, the others stay as
/// they are.
pub open spec fn relocation(source: u8, destination: u8) -> spec_fn(PieceVisual) -> Option<
    PieceVisual,
> {
    |v: PieceVisual|
        if v.cell == destination {
            None
        } else if v.cell == source {
            Some(v.moved_to(destination))
        } else {
            Some(v)
        }
}

/// The records after a move from `source` to `destination`.
pub open spec fn relocated(s: Seq<PieceVisual>, source: u8, destination: u8) -> Seq<PieceVisual> {
    s.filter_map(relocation(source, destination))
}

/// The records after a tick of `millis` milliseconds: each one advanced on
/// its own.
pub open spec fn animated(s: Seq<PieceVisual>, millis: nat) -> Seq<PieceVisual> {
    s.map_values(|v: PieceVisual| advanced(v, millis))
}

/// The set of piece records. Its records are always well formed.
#[derive(Debug, PartialEq, Eq)]
pub struct VisualSet {
    pieces: Vec<PieceVisual>,
}

impl View for VisualSet {
    type V = Seq<PieceVisual>;

    closed spec fn view(&self) -> Seq<PieceVisual> {
        self.pieces@
    }
}

impl VisualSet {
    #[verifier::type_invariant]
    pub open spec fn inv(self) -> bool {
        all_wf(self@)
    }

    /// The records for the board of `session`: one resting piece for each
    /// occupied cell.
    pub fn populate(session: &GameSession) -> (set: VisualSet)
        ensures
            set@ == populated(session@.cells),
    {
        let cells: [i8; 64] = session.query();
        let ghost numbers = cell_numbers();
        let ghost place = placement(cells@);
        let mut pieces: Vec<PieceVisual> = Vec::new();
        let mut c: u8 = 0;
        assert(numbers.take(0).filter_map(place) =~= Seq::<PieceVisual>::empty());
        while c < 64
            invariant
                c <= 64,
                numbers == cell_numbers(),
                place == placement(cells@),
                pieces@ == numbers.take(c as int).filter_map(place),
                all_wf(pieces@),
            decreases 64 - c,
        {
            proof {
                numbers.lemma_filter_map_take_succ(place, c as int);
            }
            if cells[c as usize] != EMPTY {
                pieces.push(PieceVisual::at_rest(c));
            }
            c = c + 1;
        }
        assert(numbers.take(64) =~= numbers);
        VisualSet { pieces }
    }

    /// Number of records.
    pub fn len(&self) -> (n: usize)
        ensures
            n == self@.len(),
    {
        self.pieces.len()
    }

    /// The records, in order.
    pub fn pieces(&self) -> (pieces: &Vec<PieceVisual>)
        ensures
            pieces@ == self@,
            all_wf(pieces@),
    {
        proof {
            use_type_invariant(self);
        }
        &self.pieces
    }

    /// The record that belongs to `cell`, if there is one.
    pub fn at_cell(&self, cell: u8) -> (found: Option<PieceVisual>)
        ensures
            found == holder(self@, cell),
    {
        let mut found: Option<PieceVisual> = None;
        let mut i: usize = 0;
        assert(self.pieces@.take(0) =~= Seq::<PieceVisual>::empty());
        while i < self.pieces.len()
            invariant
                i <= self.pieces.len(),
                found == holder(self.pieces@.take(i as int), cell),
            decreases self.pieces.len() - i,
        {
            assert(self.pieces@.take(i + 1).drop_last() =~= self.pieces@.take(i as int));
            if self.pieces[i].cell == cell {
                found = Some(self.pieces[i]);
            }
            i = i + 1;
        }
        assert(self.pieces@.take(i as int) =~= self.pieces@);
        found
    }

    /// Advances every record by one tick of `millis` milliseconds.
    pub fn animate(&mut self, millis: u32)
        ensures
            final(self)@ == animated(old(self)@, millis as nat),
    {
        proof {
            use_type_invariant(&*self);
        }
        let ghost before = self.pieces@;
        let mut moved: Vec<PieceVisual> = Vec::new();
        let mut i: usize = 0;
        while i < self.pieces.len()
            invariant
                i <= self.pieces.len(),
                before == self.pieces@,
                all_wf(before),
                moved@.len() == i,
                forall|k: int| 0 <= k < i ==> moved@[k] == advanced(before[k], millis as nat),
                all_wf(moved@),
            decreases self.pieces.len() - i,
        {
            moved.push(advance(self.pieces[i], millis));
            i = i + 1;
        }
        assert(moved@ =~= animated(before, millis as nat));
        self.pieces = moved;
    }

    /// Carries a committed move over to the records: the record on
    /// `destination` is removed, the record on `source` belongs to
    /// `destination` from now on and keeps its rendered position. Returns
    /// the name of the removed record, if there was one.
    pub fn relocate(&mut self, source: u8, destination: u8) -> (removed: Option<u8>)
        requires
            source < CELLS,
            destination < CELLS,
        ensures
            final(self)@ == relocated(old(self)@, source, destination),
            removed == match holder(old(self)@, destination) {
                Some(v) => Some(v.id),
                None => None,
            },
    {
        proof {
            use_type_invariant(&*self);
        }
        let ghost before = self.pieces@;
        let ghost change = relocation(source, destination);
        let mut kept: Vec<PieceVisual> = Vec::new();
        let mut removed: Option<u8> = None;
        let mut i: usize = 0;
        assert(before.take(0) =~= Seq::<PieceVisual>::empty());
        assert(before.take(0).filter_map(change) =~= Seq::<PieceVisual>::empty());
        while i < self.pieces.len()
            invariant
                i <= self.pieces.len(),
                before == self.pieces@,
                all_wf(before),
                change == relocation(source, destination),
                destination < CELLS,
                kept@ == before.take(i as int).filter_map(change),
                all_wf(kept@),
                removed == match holder(before.take(i as int), destination) {
                    Some(v) => Some(v.id),
                    None => None,
                },
            decreases self.pieces.len() - i,
        {
            proof {
                before.lemma_filter_map_take_succ(change, i as int);
                assert(before.take(i + 1).drop_last() =~= before.take(i as int));
            }
            let visual: PieceVisual = self.pieces[i];
            if visual.cell == destination {
                removed = Some(visual.id);
            } else if visual.cell == source {
                kept.push(PieceVisual { cell: destination, ..visual });
            } else {
                kept.push(visual);
            }
            i = i + 1;
        }
        assert(before.take(i as int) =~= before);
        self.pieces = kept;
        removed
    }
}

/// A cell has a holder exactly when some record belongs to it, and the
/// holder is such a record.
pub proof fn lemma_holder_counts(s: Seq<PieceVisual>, cell: u8)
    ensures
        holder(s, cell).is_some() <==> count_at(s, cell as int) > 0,
        holder(s, cell) matches Some(v) ==> v.cell == cell,
    decreases s.len(),
{
    if s.len() > 0 {
        lemma_holder_counts(s.drop_last(), cell);
    }
}

/// How many records belong to a cell after a move: the destination has
/// those that were on the source, the source has none, and nothing changes
/// elsewhere.
pub proof fn lemma_relocated_counts(s: Seq<PieceVisual>, source: u8, destination: u8, cell: int)
    ensures
        count_at(relocated(s, source, destination), cell) == (if cell == source {
            0nat
        } else if cell == destination {
            count_at(s, source as int)
        } else {
            count_at(s, cell)
        }),
    decreases s.len(),
{
    let change = relocation(source, destination);
    if s.len() > 0 {
        let rest = s.drop_last();
        lemma_relocated_counts(rest, source, destination, cell);
        if source != destination {
            lemma_relocated_counts(rest, source, destination, source as int);
        }
        match change(s.last()) {
            Some(v) => {
                let r = rest.filter_map(change) + seq![v];
                assert(r.drop_last() =~= rest.filter_map(change));
                assert(r.last() == v);
            },
            None => {},
        }
    }
}

/// A move changes no name and makes no new record: after it no name occurs
/// more often than before.
pub proof fn lemma_relocated_names(s: Seq<PieceVisual>, source: u8, destination: u8, id: int)
    ensures
        count_named(relocated(s, source, destination), id) <= count_named(s, id),
    decreases s.len(),
{
    let change = relocation(source, destination);
    if s.len() > 0 {
        let rest = s.drop_last();
        lemma_relocated_names(rest, source, destination, id);
        match change(s.last()) {
            Some(v) => {
                let r = rest.filter_map(change) + seq![v];
                assert(r.drop_last() =~= rest.filter_map(change));
                assert(r.last() == v);
            },
            None => {},
        }
    }
}

/// A move keeps the records well formed.
pub proof fn lemma_relocated_wf(s: Seq<PieceVisual>, source: u8, destination: u8)
    requires
        all_wf(s),
        destination < CELLS,
    ensures
        all_wf(relocated(s, source, destination)),
    decreases s.len(),
{
    let change = relocation(source, destination);
    if s.len() > 0 {
        let rest = s.drop_last();
        assert(all_wf(rest));
        lemma_relocated_wf(rest, source, destination);
        assert(s.last().wf());
    }
}

/// A tick keeps the records well formed and moves no record to another
/// cell or name: the counts of every cell and of every name stay.
pub proof fn lemma_animated_counts(s: Seq<PieceVisual>, millis: nat, cell: int)
    requires
        all_wf(s),
    ensures
        all_wf(animated(s, millis)),
        count_at(animated(s, millis), cell) == count_at(s, cell),
        count_named(animated(s, millis), cell) == count_named(s, cell),
    decreases s.len(),
{
    assert forall|i: int| 0 <= i < s.len() implies (#[trigger] animated(s, millis)[i]).wf() by {
        lemma_advanced_wf(s[i], millis);
    }
    if s.len() > 0 {
        let rest = s.drop_last();
        assert(all_wf(rest));
        lemma_animated_counts(rest, millis, cell);
        lemma_advanced_wf(s.last(), millis);
        assert(animated(s, millis).drop_last() =~= animated(rest, millis));
    }
}

proof fn lemma_populated_prefix(cells: Seq<i8>, k: int, cell: int)
    requires
        cells.len() == CELLS,
        0 <= k <= CELLS,
    ensures
        all_wf(cell_numbers().take(k).filter_map(placement(cells))),
        count_at(cell_numbers().take(k).filter_map(placement(cells)), cell) == (if 0 <= cell < k
            && cells[cell] != EMPTY {
            1nat
        } else {
            0nat
        }),
        count_named(cell_numbers().take(k).filter_map(placement(cells)), cell) == (if 0 <= cell
            < k && cells[cell] != EMPTY {
            1nat
        } else {
            0nat
        }),
    decreases k,
{
    let numbers = cell_numbers();
    let place = placement(cells);
    if k == 0 {
        assert(numbers.take(0).filter_map(place) =~= Seq::<PieceVisual>::empty());
    } else {
        lemma_populated_prefix(cells, k - 1, cell);
        numbers.lemma_filter_map_take_succ(place, k - 1);
        let before = numbers.take(k - 1).filter_map(place);
        match place(numbers[k - 1]) {
            Some(v) => {
                let r = before + seq![v];
                assert(r.drop_last() =~= before);
                assert(r.last() == v);
                assert(v == PieceVisual::resting((k - 1) as u8));
                assert(v.wf());
            },
            None => {},
        }
    }
}

/// A freshly populated board is mirrored by its records: they are well
/// formed, each occupied cell has exactly one, each empty cell none, and no
/// two share a name.
pub proof fn lemma_populated_mirrors(cells: Seq<i8>)
    requires
        cells.len() == CELLS,
    ensures
        all_wf(populated(cells)),
        mirrors(populated(cells), cells),
        names_distinct(populated(cells)),
{
    assert(cell_numbers().take(CELLS as int) =~= cell_numbers());
    lemma_populated_prefix(cells, CELLS as int, 0);
    assert forall|c: int| 0 <= c < CELLS implies #[trigger] count_at(populated(cells), c) == if cells[c]
        != EMPTY {
        1nat
    } else {
        0nat
    } by {
        lemma_populated_prefix(cells, CELLS as int, c);
    }
    assert forall|id: int| 0 <= id < 256 implies #[trigger] count_named(populated(cells), id)
        <= 1 by {
        lemma_populated_prefix(cells, CELLS as int, id);
    }
}

/// Board and records stay in step: when the records mirror the board before
/// a move, the relocated records mirror the board after it, stay well
/// formed and keep their names distinct.
pub proof fn lemma_relocated_mirrors(
    s: Seq<PieceVisual>,
    cells: Seq<i8>,
    source: u8,
    destination: u8,
)
    requires
        cells.len() == CELLS,
        source < CELLS,
        destination < CELLS,
        all_wf(s),
        mirrors(s, cells),
        names_distinct(s),
    ensures
        all_wf(relocated(s, source, destination)),
        mirrors(
            relocated(s, source, destination),
            cells.update(destination as int, cells[source as int]).update(source as int, EMPTY),
        ),
        names_distinct(relocated(s, source, destination)),
{
    lemma_relocated_wf(s, source, destination);
    let after = cells.update(destination as int, cells[source as int]).update(source as int, EMPTY);
    assert forall|c: int| 0 <= c < CELLS implies #[trigger] count_at(
        relocated(s, source, destination),
        c,
    ) == if after[c] != EMPTY {
        1nat
    } else {
        0nat
    } by {
        lemma_relocated_counts(s, source, destination, c);
        assert(count_at(s, c) == if cells[c] != EMPTY { 1nat } else { 0nat });
        assert(count_at(s, source as int) == if cells[source as int] != EMPTY { 1nat } else { 0nat });
    }
    assert forall|id: int| 0 <= id < 256 implies #[trigger] count_named(
        relocated(s, source, destination),
        id,
    ) <= 1 by {
        lemma_relocated_names(s, source, destination, id);
        assert(count_named(s, id) <= 1);
    }
}

} // verus!
