use chess_front::animator::{advance, ACCELERATION, BRIEF_TICK, MAX_STEP, REST_EPSILON};
use chess_front::roots::isqrt;
use chess_front::visual::{PieceVisual, MAX_SPEED, POSITION_LIMIT};

fn record(cell: u8, x: i64, z: i64, speed: u32) -> PieceVisual {
    PieceVisual { id: 1, cell, x, z, lift: 0, speed }
}

#[test]
fn constants_of_the_motion() {
    assert_eq!(ACCELERATION, 1000);
    assert_eq!(MAX_SPEED, 3000);
    assert_eq!(REST_EPSILON, 50);
    assert_eq!(MAX_STEP, 3000 * (u32::MAX as u64) / 1000);
}

#[test]
fn a_standing_piece_starts_to_move() {
    let first = advance(record(16, 6000, 0, 0), 16);
    assert_eq!(first, PieceVisual { id: 1, cell: 16, x: 6000, z: 0, lift: 126, speed: 16 });
    let second = advance(first, 16);
    assert_eq!(second, PieceVisual { id: 1, cell: 16, x: 5999, z: 0, lift: 178, speed: 32 });
}

#[test]
fn a_fast_piece_slows_down_near_its_cell() {
    let next = advance(record(16, 6000, 0, 3000), 100);
    assert_eq!(next, PieceVisual { id: 1, cell: 16, x: 5700, z: 0, lift: 1189, speed: 1414 });
}

#[test]
fn the_step_is_shared_between_the_axes() {
    let next = advance(record(19, 2000, 7000, 1000), 500);
    assert_eq!(next, PieceVisual { id: 1, cell: 19, x: 2300, z: 6600, lift: 1224, speed: 1500 });
}

#[test]
fn steps_and_shares_are_rounded_up() {
    let next = advance(record(19, 2000, 7000, 1000), 7);
    assert_eq!(next, PieceVisual { id: 1, cell: 19, x: 2005, z: 6994, lift: 1003, speed: 1007 });
}

#[test]
fn a_piece_at_rest_snaps_to_its_cell() {
    let hovering = PieceVisual { id: 1, cell: 16, x: 5030, z: 10, lift: 200, speed: 40 };
    let landed = advance(hovering, 16);
    assert_eq!(landed, PieceVisual { id: 1, cell: 16, x: 5000, z: 0, lift: 0, speed: 40 });
    assert_eq!(advance(landed, 16), landed);
    assert_eq!(advance(landed, 1000), landed);
}

#[test]
fn a_slow_piece_far_away_is_not_at_rest() {
    let next = advance(record(16, 5051, 0, 0), 16);
    assert_eq!(next.x, 5051);
    assert_eq!(next.speed, 16);
    assert_ne!(next.lift, 0);
}

#[test]
fn a_near_piece_that_is_fast_is_not_at_rest() {
    let next = advance(record(16, 5010, 0, 51), 16);
    assert_eq!(next.x, 5009);
    assert_eq!(next.speed, 51 + 16);
}

#[test]
fn a_long_tick_overshoots() {
    let next = advance(record(16, 5100, 0, 3000), 1000);
    assert_eq!(next, PieceVisual { id: 1, cell: 16, x: 2100, z: 0, lift: 668, speed: 447 });
}

#[test]
fn positions_stay_within_the_limit() {
    let next = advance(record(0, POSITION_LIMIT, 0, 3000), u32::MAX);
    assert_eq!(next.x, -POSITION_LIMIT);
    assert_eq!(next.z, 0);
    assert_eq!(next.speed, 3000);
    assert_eq!(next.lift, 1732);
}

#[test]
fn speed_is_capped() {
    let next = advance(record(7, 0, 0, 2995), 16);
    assert_eq!(next, PieceVisual { id: 1, cell: 7, x: 34, z: 34, lift: 1732, speed: 3000 });
}

#[test]
fn a_tick_of_no_length_moves_nothing() {
    let next = advance(record(16, 6000, 0, 500), 0);
    assert_eq!(next.x, 6000);
    assert_eq!(next.z, 0);
    assert_eq!(next.speed, 500);
}

#[test]
fn a_piece_reaches_its_cell_and_rests() {
    let mut piece = record(35, 6000, 4000, 0);
    let mut ticks = 0;
    loop {
        let next = advance(piece, 16);
        assert!(next.speed <= MAX_SPEED);
        assert!(next.is_valid());
        ticks += 1;
        if next == piece {
            break;
        }
        piece = next;
        assert!(ticks < 1000);
    }
    assert_eq!(ticks, 205);
    assert_eq!(piece, PieceVisual { id: 1, cell: 35, x: 3000, z: 3000, lift: 0, speed: 44 });
}

#[test]
fn a_piece_crosses_the_board_at_full_speed_and_rests() {
    let mut piece = record(7, 0, 0, 0);
    let mut fastest = 0;
    let mut ticks = 0;
    loop {
        let next = advance(piece, 16);
        assert!(next.speed <= MAX_SPEED);
        fastest = fastest.max(next.speed);
        ticks += 1;
        if next == piece {
            break;
        }
        piece = next;
        assert!(ticks < 1000);
    }
    assert_eq!(fastest, MAX_SPEED);
    assert_eq!(ticks, 369);
    assert_eq!(piece, PieceVisual { id: 1, cell: 7, x: 7000, z: 7000, lift: 0, speed: 0 });
}

#[test]
fn every_start_reaches_every_cell_in_short_ticks() {
    for source in (0u8..64).step_by(9) {
        for cell in (0u8..64).step_by(7) {
            for millis in [1u32, 16, BRIEF_TICK, 33] {
                let start = PieceVisual::at_rest(source);
                let mut piece = PieceVisual { cell, ..start };
                let mut ticks = 0;
                loop {
                    let next = advance(piece, millis);
                    ticks += 1;
                    if next == piece {
                        break;
                    }
                    piece = next;
                    assert!(ticks < 20_000);
                }
                let home = PieceVisual::at_rest(cell);
                assert_eq!((piece.x, piece.z, piece.lift), (home.x, home.z, 0));
                assert!(piece.speed <= REST_EPSILON);
            }
        }
    }
}

#[test]
fn long_ticks_can_circle_the_cell() {
    let start = PieceVisual { id: 1, cell: 63, x: -12, z: 7012, lift: 316, speed: 100 };
    let second = advance(start, 100);
    assert_eq!(second, PieceVisual { id: 1, cell: 63, x: -4, z: 7004, lift: 447, speed: 200 });
    let third = advance(second, 100);
    assert_eq!(third, PieceVisual { id: 1, cell: 63, x: 12, z: 6988, lift: 316, speed: 100 });
    let fourth = advance(third, 100);
    assert_eq!(fourth, PieceVisual { id: 1, cell: 63, x: 4, z: 6996, lift: 447, speed: 200 });
    assert_eq!(advance(fourth, 100), start);
}

#[test]
fn every_travelling_tick_brings_the_piece_closer() {
    let mut piece = record(35, 6000, 4000, 0);
    let off = |v: &PieceVisual| (3000 - v.x).abs() + (3000 - v.z).abs();
    for _ in 0..150 {
        let next = advance(piece, 16);
        if piece.speed > 0 {
            assert!(off(&next) < off(&piece));
        } else {
            assert_eq!(off(&next), off(&piece));
        }
        piece = next;
    }
}

#[test]
fn a_piece_that_never_passes_its_cell_rests_in_time() {
    let millis: u32 = 10;
    let home = PieceVisual::at_rest(16);
    let mut piece = record(16, 6000, 0, 0);
    let to_do = 2 * ((home.x - piece.x).abs() + (home.z - piece.z).abs()) + 2;
    let mut ticks = 0;
    loop {
        let dx = (home.x - piece.x).unsigned_abs();
        let dz = (home.z - piece.z).unsigned_abs();
        let way = isqrt(dx * dx + dz * dz);
        if way <= REST_EPSILON as u64 && piece.speed <= REST_EPSILON {
            break;
        }
        let step = (piece.speed as u64 * millis as u64 + 999) / 1000;
        assert!(way == 0 || step <= way);
        piece = advance(piece, millis);
        ticks += 1;
        assert!(ticks <= to_do);
    }
    assert_eq!(ticks, 178);
    assert_eq!(advance(piece, millis), PieceVisual { id: piece.id, speed: piece.speed, ..home });
}

#[test]
fn a_piece_near_its_cell_settles_whatever_its_speed() {
    assert_eq!(BRIEF_TICK, 18);
    let home = PieceVisual::at_rest(19);
    for millis in [9u32, 17, BRIEF_TICK] {
        for off_x in (-60i64..=60).step_by(7) {
            for off_z in (-60i64..=60).step_by(11) {
                for speed in [0u32, 51, 80, 107, 407, 3000] {
                    let mut piece = record(19, home.x + off_x, home.z + off_z, speed);
                    let mut ticks = 0;
                    loop {
                        let dx = (home.x - piece.x).unsigned_abs();
                        let dz = (home.z - piece.z).unsigned_abs();
                        let way = isqrt(dx * dx + dz * dz);
                        if way <= REST_EPSILON as u64 && piece.speed <= REST_EPSILON {
                            break;
                        }
                        piece = advance(piece, millis);
                        ticks += 1;
                        assert!(ticks <= 38);
                    }
                    let landed = advance(piece, millis);
                    assert_eq!((landed.x, landed.z, landed.lift), (home.x, home.z, 0));
                }
            }
        }
    }
}
