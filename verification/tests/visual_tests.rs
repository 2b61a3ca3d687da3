use chess_front::board::EMPTY;
use chess_front::session::GameSession;
use chess_front::visual::{PieceVisual, VisualSet, MAX_SPEED, POSITION_LIMIT, UNIT};

fn resting(cell: u8) -> PieceVisual {
    PieceVisual {
        id: cell,
        cell,
        x: 1000 * (7 - (cell / 8) as i64),
        z: 1000 * (cell % 8) as i64,
        lift: 0,
        speed: 0,
    }
}

#[test]
fn a_resting_piece_stands_on_its_cell() {
    assert_eq!(PieceVisual::at_rest(0), resting(0));
    assert_eq!(
        PieceVisual::at_rest(12),
        PieceVisual { id: 12, cell: 12, x: 6000, z: 4000, lift: 0, speed: 0 }
    );
    assert_eq!(
        PieceVisual::at_rest(63),
        PieceVisual { id: 63, cell: 63, x: 0, z: 7000, lift: 0, speed: 0 }
    );
    assert_eq!(UNIT, 1000);
}

#[test]
fn validity_of_records() {
    assert!(resting(5).is_valid());
    assert!(!PieceVisual { cell: 64, ..resting(5) }.is_valid());
    assert!(!PieceVisual { x: POSITION_LIMIT + 1, ..resting(5) }.is_valid());
    assert!(!PieceVisual { z: -POSITION_LIMIT - 1, ..resting(5) }.is_valid());
    assert!(!PieceVisual { speed: MAX_SPEED + 1, ..resting(5) }.is_valid());
    assert!(PieceVisual { x: -POSITION_LIMIT, z: POSITION_LIMIT, speed: MAX_SPEED, ..resting(5) }
        .is_valid());
}

#[test]
fn populate_makes_one_record_per_piece() {
    let session = GameSession::new();
    let set = VisualSet::populate(&session);
    assert_eq!(set.len(), 32);
    let mut expected: Vec<PieceVisual> = Vec::new();
    for cell in 0u8..16 {
        expected.push(resting(cell));
    }
    for cell in 48u8..64 {
        expected.push(resting(cell));
    }
    assert_eq!(set.pieces(), &expected);
}

#[test]
fn populate_of_an_empty_board_is_empty() {
    let session = GameSession::from_cells([EMPTY; 64], 0).unwrap();
    let set = VisualSet::populate(&session);
    assert_eq!(set.len(), 0);
    assert_eq!(set.at_cell(0), None);
}

#[test]
fn populate_follows_the_board() {
    let mut cells = [EMPTY; 64];
    cells[20] = 5;
    cells[41] = -1;
    let session = GameSession::from_cells(cells, 0).unwrap();
    let set = VisualSet::populate(&session);
    assert_eq!(set.pieces(), &vec![resting(20), resting(41)]);
}

#[test]
fn at_cell_finds_the_record() {
    let set = VisualSet::populate(&GameSession::new());
    assert_eq!(set.at_cell(9), Some(resting(9)));
    assert_eq!(set.at_cell(60), Some(resting(60)));
    assert_eq!(set.at_cell(30), None);
    assert_eq!(set.at_cell(200), None);
}

#[test]
fn relocate_retargets_and_keeps_the_position() {
    let mut set = VisualSet::populate(&GameSession::new());
    let removed = set.relocate(11, 27);
    assert_eq!(removed, None);
    assert_eq!(set.len(), 32);
    assert_eq!(set.at_cell(11), None);
    assert_eq!(
        set.at_cell(27),
        Some(PieceVisual { id: 11, cell: 27, x: 6000, z: 3000, lift: 0, speed: 0 })
    );
    assert_eq!(set.pieces()[11], PieceVisual { cell: 27, ..resting(11) });
    assert_eq!(set.pieces()[10], resting(10));
    assert_eq!(set.pieces()[12], resting(12));
}

#[test]
fn relocate_removes_the_captured_record() {
    let mut set = VisualSet::populate(&GameSession::new());
    let removed = set.relocate(3, 59);
    assert_eq!(removed, Some(59));
    assert_eq!(set.len(), 31);
    assert_eq!(set.at_cell(3), None);
    assert_eq!(set.at_cell(59), Some(PieceVisual { cell: 59, ..resting(3) }));
    assert!(set.pieces().iter().all(|v| v.id != 59));
}

#[test]
fn relocate_from_an_empty_cell_only_removes() {
    let mut set = VisualSet::populate(&GameSession::new());
    let removed = set.relocate(30, 8);
    assert_eq!(removed, Some(8));
    assert_eq!(set.len(), 31);
    assert_eq!(set.at_cell(8), None);
    assert_eq!(set.at_cell(30), None);
}

#[test]
fn relocate_onto_itself_removes_the_record() {
    let mut set = VisualSet::populate(&GameSession::new());
    let removed = set.relocate(8, 8);
    assert_eq!(removed, Some(8));
    assert_eq!(set.len(), 31);
    assert_eq!(set.at_cell(8), None);
}

#[test]
fn relocate_between_empty_cells_changes_nothing() {
    let mut set = VisualSet::populate(&GameSession::new());
    let before = set.pieces().clone();
    assert_eq!(set.relocate(20, 30), None);
    assert_eq!(set.pieces(), &before);
}

#[test]
fn names_survive_moves() {
    let mut set = VisualSet::populate(&GameSession::new());
    set.relocate(11, 27);
    set.relocate(27, 35);
    set.relocate(35, 51);
    let moved = set.at_cell(51).unwrap();
    assert_eq!(moved.id, 11);
    let mut names: Vec<u8> = set.pieces().iter().map(|v| v.id).collect();
    names.sort();
    names.dedup();
    assert_eq!(names.len(), set.len());
}

#[test]
fn animate_advances_every_record() {
    let mut set = VisualSet::populate(&GameSession::new());
    set.relocate(8, 16);
    set.animate(16);
    assert_eq!(
        set.at_cell(16),
        Some(PieceVisual { id: 8, cell: 16, x: 6000, z: 0, lift: 126, speed: 16 })
    );
    assert_eq!(set.at_cell(9), Some(resting(9)));
    set.animate(16);
    assert_eq!(
        set.at_cell(16),
        Some(PieceVisual { id: 8, cell: 16, x: 5999, z: 0, lift: 178, speed: 32 })
    );
    assert_eq!(set.len(), 32);
}
