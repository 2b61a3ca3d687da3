use chess_front::board::{Side, EMPTY};
use chess_front::players::{
    Collected, Controller, Controllers, MateScores, PendingMove, SessionState, TaskSlot,
};
use chess_front::session::{GameSession, MoveOutcome};
use chess_front::status::Status;
use chess_front::table::{
    ClickOutcome, Commit, Completion, ControlInput, Resolution, SearchRequest, Table,
};
use chess_front::visual::PieceVisual;

const MATE: MateScores = MateScores { forced_mate: 18000, mate_imminent: 9000 };

const NO_INPUT: ControlInput =
    ControlInput { longer: false, shorter: false, toggle_white: false, toggle_black: false };

fn reply(source: u8, destination: u8, score: i64) -> PendingMove {
    PendingMove { source, destination, score }
}

/// A table on which the human has moved a pawn and the engine is to move.
fn table_after_human_move() -> Table {
    let mut table = Table::new(MATE);
    assert_eq!(table.click(11), ClickOutcome::Selected);
    assert_eq!(table.click(27), ClickOutcome::NeedsVerdict { source: 11, destination: 27 });
    let resolution = table.resolve(27, true, "d2-d4");
    assert!(matches!(resolution, Resolution::Committed(_)));
    table
}

/// A table on which the search for black's first move runs.
fn table_waiting() -> Table {
    let mut table = table_after_human_move();
    assert!(table.arbitrate().is_some());
    table
}

#[test]
fn a_new_table() {
    let table = Table::new(MATE);
    assert_eq!(*table.session(), GameSession::new());
    assert_eq!(table.visuals().len(), 32);
    assert_eq!(table.selection(), None);
    assert_eq!(table.state(), SessionState::Playing);
    assert_eq!(
        table.controllers(),
        Controllers { white: Controller::Human, black: Controller::Engine }
    );
    assert_eq!(table.controllers(), Controllers::new());
    assert_eq!(table.task(), TaskSlot::Idle);
    assert_eq!(*table.status(), Status::new());
}

#[test]
fn first_click_selects_an_own_piece() {
    let mut table = Table::new(MATE);
    assert_eq!(table.click(11), ClickOutcome::Selected);
    assert_eq!(table.selection(), Some(11));
    assert_eq!(*table.session(), GameSession::new());
}

#[test]
fn clicks_that_select_nothing_are_ignored() {
    let mut table = Table::new(MATE);
    assert_eq!(table.click(30), ClickOutcome::Ignored);
    assert_eq!(table.click(51), ClickOutcome::Ignored);
    assert_eq!(table.click(64), ClickOutcome::Ignored);
    assert_eq!(table.click(255), ClickOutcome::Ignored);
    assert_eq!(table.selection(), None);
}

#[test]
fn a_second_click_on_the_selected_cell_is_ignored() {
    let mut table = Table::new(MATE);
    table.click(11);
    assert_eq!(table.click(11), ClickOutcome::Ignored);
    assert_eq!(table.selection(), Some(11));
    assert_eq!(*table.status(), Status::new());
}

#[test]
fn a_second_click_calls_for_a_verdict() {
    let mut table = Table::new(MATE);
    table.click(11);
    assert_eq!(table.click(27), ClickOutcome::NeedsVerdict { source: 11, destination: 27 });
    assert_eq!(table.selection(), Some(11));
    assert_eq!(table.click(64), ClickOutcome::Ignored);
    assert_eq!(table.click(12), ClickOutcome::NeedsVerdict { source: 11, destination: 12 });
}

#[test]
fn an_illegal_move_changes_nothing_but_the_message() {
    let mut table = Table::new(MATE);
    let pieces = table.visuals().pieces().clone();
    table.click(11);
    assert_eq!(table.click(30), ClickOutcome::NeedsVerdict { source: 11, destination: 30 });
    assert_eq!(table.resolve(30, false, ""), Resolution::Rejected);
    assert_eq!(*table.session(), GameSession::new());
    assert_eq!(table.visuals().pieces(), &pieces);
    assert_eq!(table.selection(), None);
    assert_eq!(table.state(), SessionState::Playing);
    assert_eq!(table.task(), TaskSlot::Idle);
    assert_eq!(table.status().message, "invalid move, ignored.");
    assert_eq!(table.status().turn, Status::new().turn);
    assert_eq!(table.status().time, Status::new().time);
    assert_eq!(table.status().next, Status::new().next);
    assert_eq!(table.click(11), ClickOutcome::Selected);
}

#[test]
fn a_legal_move_is_committed() {
    let mut table = Table::new(MATE);
    table.click(11);
    table.click(27);
    let resolution = table.resolve(27, true, "d2-d4");
    assert_eq!(
        resolution,
        Resolution::Committed(Commit {
            source: 11,
            destination: 27,
            outcome: MoveOutcome::Plain,
            removed: None,
        })
    );
    assert_eq!(table.session().cell(11), EMPTY);
    assert_eq!(table.session().cell(27), 1);
    assert_eq!(table.session().move_counter(), 1);
    assert_eq!(table.session().side_to_move(), Side::Black);
    assert_eq!(table.selection(), None);
    assert_eq!(table.state(), SessionState::Playing);
    assert_eq!(
        table.visuals().at_cell(27),
        Some(PieceVisual { id: 11, cell: 27, x: 6000, z: 3000, lift: 0, speed: 0 })
    );
    assert_eq!(table.status().message, "d2-d4");
    assert_eq!(table.status().turn, "Human (1) vs Computer (2)");
    assert_eq!(table.status().time, "Secs per move: 2.0");
    assert_eq!(table.status().next, "Next move: Black");
}

#[test]
fn a_capture_removes_the_taken_piece() {
    let mut cells = [EMPTY; 64];
    cells[10] = 4;
    cells[20] = -2;
    cells[5] = 6;
    cells[60] = -6;
    let session = GameSession::from_cells(cells, 0).unwrap();
    let mut table = Table::with_session(session, MATE);
    assert_eq!(table.visuals().len(), 4);
    assert_eq!(table.click(10), ClickOutcome::Selected);
    assert_eq!(table.click(20), ClickOutcome::NeedsVerdict { source: 10, destination: 20 });
    let resolution = table.resolve(20, true, "Rxe3");
    assert_eq!(
        resolution,
        Resolution::Committed(Commit {
            source: 10,
            destination: 20,
            outcome: MoveOutcome::Capture,
            removed: Some(20),
        })
    );
    assert_eq!(table.visuals().len(), 3);
    assert!(table.visuals().pieces().iter().all(|v| v.id != 20));
    assert_eq!(
        table.visuals().at_cell(20),
        Some(PieceVisual { id: 10, cell: 20, x: 6000, z: 2000, lift: 0, speed: 0 })
    );
    assert_eq!(table.visuals().at_cell(10), None);
    assert_eq!(table.session().cell(20), 4);
    assert_eq!(table.session().cell(10), EMPTY);
    assert_eq!(table.session().cell(5), 6);
    assert_eq!(table.session().cell(60), -6);
    assert_eq!(table.session().move_counter(), 1);
    assert_eq!(table.selection(), None);
    assert_eq!(table.status().message, "Rxe3");
}

#[test]
fn a_verdict_that_nobody_awaits_is_ignored() {
    let mut table = Table::new(MATE);
    assert_eq!(table.resolve(27, true, "d2-d4"), Resolution::Ignored);
    assert_eq!(*table.session(), GameSession::new());
    assert_eq!(*table.status(), Status::new());
    table.click(11);
    assert_eq!(table.resolve(64, true, "d2-d4"), Resolution::Ignored);
    assert_eq!(table.selection(), Some(11));
    assert_eq!(*table.session(), GameSession::new());
}

#[test]
fn the_engine_is_asked_when_its_side_is_to_move() {
    let mut table = table_after_human_move();
    assert_eq!(table.task(), TaskSlot::Idle);
    let request = table.arbitrate();
    assert_eq!(request, Some(SearchRequest { millis_per_move: 2000 }));
    assert_eq!(table.state(), SessionState::WaitingForEngine);
    assert_eq!(table.task(), TaskSlot::Running);
    for _ in 0..5 {
        assert_eq!(table.arbitrate(), None);
        assert_eq!(table.state(), SessionState::WaitingForEngine);
        assert_eq!(table.task(), TaskSlot::Running);
    }
    table.animate(16);
    table.control(NO_INPUT);
    assert_eq!(table.state(), SessionState::WaitingForEngine);
    let completion = table.complete(reply(51, 35, 10), "d7-d5");
    assert!(matches!(completion, Completion::Committed { terminated: false, .. }));
    assert_eq!(table.state(), SessionState::Playing);
    assert_eq!(table.task(), TaskSlot::Idle);
}

#[test]
fn the_human_is_not_asked_for_a_search() {
    let mut table = Table::new(MATE);
    assert_eq!(table.arbitrate(), None);
    assert_eq!(table.state(), SessionState::Playing);
    assert_eq!(table.task(), TaskSlot::Idle);
}

#[test]
fn the_request_carries_the_time_per_move() {
    let mut table = table_after_human_move();
    table.control(ControlInput { longer: true, ..NO_INPUT });
    table.control(ControlInput { longer: true, ..NO_INPUT });
    assert_eq!(table.arbitrate(), Some(SearchRequest { millis_per_move: 2100 }));
}

#[test]
fn clicks_are_ignored_while_the_engine_thinks() {
    let mut table = table_waiting();
    let session = *table.session();
    assert_eq!(table.click(51), ClickOutcome::Ignored);
    assert_eq!(table.click(12), ClickOutcome::Ignored);
    assert_eq!(table.resolve(28, true, "e2-e4"), Resolution::Ignored);
    assert_eq!(table.selection(), None);
    assert_eq!(*table.session(), session);
    assert_eq!(table.state(), SessionState::WaitingForEngine);
}

#[test]
fn the_result_of_the_search_is_committed() {
    let mut table = table_waiting();
    let completion = table.complete(reply(51, 35, 12), "d7-d5");
    assert_eq!(
        completion,
        Completion::Committed {
            commit: Commit {
                source: 51,
                destination: 35,
                outcome: MoveOutcome::Plain,
                removed: None,
            },
            terminated: false,
        }
    );
    assert_eq!(table.session().cell(51), EMPTY);
    assert_eq!(table.session().cell(35), -1);
    assert_eq!(table.session().move_counter(), 2);
    assert_eq!(table.session().side_to_move(), Side::White);
    assert_eq!(table.state(), SessionState::Playing);
    assert_eq!(table.task(), TaskSlot::Idle);
    assert_eq!(
        table.visuals().at_cell(35),
        Some(PieceVisual { id: 51, cell: 35, x: 1000, z: 3000, lift: 0, speed: 0 })
    );
    assert_eq!(table.status().message, "d7-d5 (score: 12)");
    assert_eq!(table.status().turn, "Human (1) vs Computer (2)");
    assert_eq!(table.status().time, "Secs per move: 2.0");
    assert_eq!(table.status().next, "Next move: White");
    assert_eq!(table.click(12), ClickOutcome::Selected);
}

#[test]
fn the_engine_captures() {
    let mut table = table_waiting();
    let completion = table.complete(reply(59, 27, -30), "Kxd4");
    assert_eq!(
        completion,
        Completion::Committed {
            commit: Commit {
                source: 59,
                destination: 27,
                outcome: MoveOutcome::Capture,
                removed: Some(11),
            },
            terminated: false,
        }
    );
    assert_eq!(table.visuals().len(), 31);
    assert_eq!(table.session().cell(27), -6);
    assert_eq!(table.status().message, "Kxd4 (score: -30)");
}

#[test]
fn near_mate_is_announced() {
    let mut table = table_waiting();
    table.complete(reply(51, 35, 17996), "d7-d5");
    assert_eq!(table.status().message, "d7-d5 (score: 17996) Checkmate in 2");
    assert_eq!(table.state(), SessionState::Playing);
    assert_eq!(table.status().next, "Next move: White");
}

#[test]
fn mate_terminates_the_session() {
    let mut table = table_waiting();
    let completion = table.complete(reply(51, 35, 18000), "d7-d5");
    assert!(matches!(completion, Completion::Committed { terminated: true, .. }));
    assert_eq!(table.state(), SessionState::Terminated);
    assert_eq!(table.task(), TaskSlot::Idle);
    assert_eq!(table.session().move_counter(), 2);
    assert_eq!(table.session().cell(35), -1);
    assert_eq!(table.status().message, "d7-d5 (score: 18000) Checkmate, game terminated!");
    assert_eq!(table.status().next, "");
    assert!(table.visuals().at_cell(35).is_some());
}

#[test]
fn a_terminated_session_accepts_no_move() {
    let mut table = table_waiting();
    table.complete(reply(51, 35, 18000), "d7-d5");
    let session = *table.session();
    let pieces = table.visuals().pieces().clone();
    assert_eq!(table.arbitrate(), None);
    assert_eq!(table.click(12), ClickOutcome::Ignored);
    assert_eq!(table.click(28), ClickOutcome::Ignored);
    assert_eq!(table.resolve(28, true, "e2-e4"), Resolution::Ignored);
    assert_eq!(table.complete(reply(12, 28, 0), "e2-e4"), Completion::Unexpected);
    table.control(ControlInput { toggle_white: true, ..NO_INPUT });
    assert_eq!(table.arbitrate(), None);
    table.control(ControlInput { toggle_black: true, ..NO_INPUT });
    assert_eq!(table.arbitrate(), None);
    assert_eq!(table.click(12), ClickOutcome::Ignored);
    assert_eq!(*table.session(), session);
    assert_eq!(table.visuals().pieces(), &pieces);
    assert_eq!(table.state(), SessionState::Terminated);
    assert_eq!(table.selection(), None);
    table.new_game();
    assert_eq!(table.state(), SessionState::Playing);
}

#[test]
fn a_new_game_from_an_empty_board() {
    let session = GameSession::from_cells([EMPTY; 64], 7).unwrap();
    let mut table = Table::with_session(session, MATE);
    assert_eq!(table.visuals().len(), 0);
    table.new_game();
    assert_eq!(*table.session(), GameSession::new());
    assert_eq!(table.selection(), None);
    assert_eq!(table.state(), SessionState::Playing);
    assert_eq!(table.visuals().pieces(), Table::new(MATE).visuals().pieces());
    assert_eq!(table.status().message, "New game");
    assert_eq!(table.status().next, "White starts the game");
}

#[test]
fn a_new_game_clears_selection_and_records() {
    let mut table = table_after_human_move();
    table.control(ControlInput { toggle_black: true, ..NO_INPUT });
    assert_eq!(table.click(51), ClickOutcome::Selected);
    table.animate(16);
    table.new_game();
    assert_eq!(table.selection(), None);
    assert_eq!(table.session().query(), GameSession::new().query());
    assert_eq!(table.session().move_counter(), 0);
    assert_eq!(table.visuals().pieces(), Table::new(MATE).visuals().pieces());
    assert_eq!(
        table.controllers(),
        Controllers { white: Controller::Human, black: Controller::Human }
    );
}

#[test]
fn a_new_game_keeps_the_time_per_move() {
    let mut table = Table::new(MATE);
    table.control(ControlInput { shorter: true, ..NO_INPUT });
    table.new_game();
    assert_eq!(table.session().millis_per_move(), 1950);
    assert_eq!(table.status().time, "Secs per move: 1.9");
}

#[test]
fn a_stale_result_is_discarded() {
    let mut table = table_waiting();
    table.new_game();
    assert_eq!(table.state(), SessionState::Playing);
    assert_eq!(table.task(), TaskSlot::Abandoned);
    let completion = table.complete(reply(51, 35, 12), "d7-d5");
    assert_eq!(completion, Completion::Discarded);
    assert_eq!(*table.session(), GameSession::new());
    assert_eq!(table.visuals().pieces(), Table::new(MATE).visuals().pieces());
    assert_eq!(table.state(), SessionState::Playing);
    assert_eq!(table.task(), TaskSlot::Idle);
    assert_eq!(table.status().message, "New game");
}

#[test]
fn no_second_search_while_a_stale_one_runs() {
    let mut table = table_waiting();
    table.new_game();
    table.control(ControlInput { toggle_white: true, ..NO_INPUT });
    assert_eq!(table.arbitrate(), None);
    assert_eq!(table.state(), SessionState::Playing);
    assert_eq!(table.task(), TaskSlot::Abandoned);
    assert_eq!(table.complete(reply(51, 35, 18000), "d7-d5"), Completion::Discarded);
    assert_eq!(table.state(), SessionState::Playing);
    assert_eq!(table.arbitrate(), Some(SearchRequest { millis_per_move: 2000 }));
    assert_eq!(table.state(), SessionState::WaitingForEngine);
    assert_eq!(table.task(), TaskSlot::Running);
}

#[test]
fn a_result_that_nobody_asked_for_changes_nothing() {
    let mut table = Table::new(MATE);
    assert_eq!(table.complete(reply(11, 27, 18000), "d2-d4"), Completion::Unexpected);
    assert_eq!(*table.session(), GameSession::new());
    assert_eq!(table.state(), SessionState::Playing);
    assert_eq!(table.task(), TaskSlot::Idle);
    assert_eq!(*table.status(), Status::new());
}

#[test]
fn the_controls_change_the_time() {
    let mut table = Table::new(MATE);
    table.control(NO_INPUT);
    assert_eq!(*table.status(), Status::new());
    table.control(ControlInput { longer: true, shorter: true, ..NO_INPUT });
    assert_eq!(*table.status(), Status::new());
    assert_eq!(table.session().millis_per_move(), 2000);
    table.control(ControlInput { longer: true, ..NO_INPUT });
    assert_eq!(table.session().millis_per_move(), 2050);
    assert_eq!(table.status().time, "Secs per move: 2.0");
    assert_eq!(table.status().turn, Status::new().turn);
    table.control(ControlInput { longer: true, ..NO_INPUT });
    assert_eq!(table.status().time, "Secs per move: 2.1");
    table.control(ControlInput { longer: true, ..NO_INPUT });
    assert_eq!(table.session().millis_per_move(), 2150);
    assert_eq!(table.status().time, "Secs per move: 2.1");
    for _ in 0..100 {
        table.control(ControlInput { longer: true, ..NO_INPUT });
    }
    assert_eq!(table.session().millis_per_move(), 5000);
    assert_eq!(table.status().time, "Secs per move: 5.0");
    assert_eq!(table.status().time.len(), 18);
    for _ in 0..100 {
        table.control(ControlInput { shorter: true, ..NO_INPUT });
    }
    assert_eq!(table.status().time, "Secs per move: 0.3");
}

#[test]
fn the_controls_toggle_the_players() {
    let mut table = Table::new(MATE);
    table.control(ControlInput { toggle_black: true, ..NO_INPUT });
    assert_eq!(
        table.controllers(),
        Controllers { white: Controller::Human, black: Controller::Human }
    );
    assert_eq!(table.status().turn, "Human (1) vs Human (2)");
    assert_eq!(table.status().time, Status::new().time);
    table.control(ControlInput { toggle_white: true, toggle_black: true, ..NO_INPUT });
    assert_eq!(
        table.controllers(),
        Controllers { white: Controller::Engine, black: Controller::Human }
    );
    assert_eq!(table.status().turn, "Computer (1) vs Human (2)");
    table.control(ControlInput { toggle_white: true, ..NO_INPUT });
    table.control(ControlInput { toggle_black: true, ..NO_INPUT });
    assert_eq!(table.controllers(), Controllers::new());
    assert_eq!(table.status().turn, "Human (1) vs Computer (2)");
}

#[test]
fn handing_the_side_to_the_engine_clears_the_selection() {
    let mut table = Table::new(MATE);
    table.click(11);
    table.control(ControlInput { toggle_black: true, ..NO_INPUT });
    assert_eq!(table.selection(), Some(11));
    table.control(ControlInput { toggle_white: true, ..NO_INPUT });
    assert_eq!(table.selection(), None);
    assert_eq!(table.arbitrate(), Some(SearchRequest { millis_per_move: 2000 }));
    assert_eq!(table.state(), SessionState::WaitingForEngine);
}

#[test]
fn two_humans_play_without_the_engine() {
    let mut table = Table::new(MATE);
    table.control(ControlInput { toggle_black: true, ..NO_INPUT });
    table.click(11);
    table.click(27);
    table.resolve(27, true, "d2-d4");
    assert_eq!(table.arbitrate(), None);
    assert_eq!(table.click(12), ClickOutcome::Ignored);
    assert_eq!(table.click(51), ClickOutcome::Selected);
    assert_eq!(table.click(35), ClickOutcome::NeedsVerdict { source: 51, destination: 35 });
    assert!(matches!(table.resolve(35, true, "d7-d5"), Resolution::Committed(_)));
    assert_eq!(table.session().move_counter(), 2);
    assert_eq!(table.status().next, "Next move: White");
}

#[test]
fn two_engines_play_without_clicks() {
    let mut table = Table::new(MATE);
    table.control(ControlInput { toggle_white: true, ..NO_INPUT });
    let moves: [(u8, u8); 4] = [(11, 27), (51, 35), (12, 28), (52, 36)];
    for (n, (source, destination)) in moves.iter().enumerate() {
        assert_eq!(table.click(*source), ClickOutcome::Ignored);
        assert!(table.arbitrate().is_some());
        assert_eq!(table.arbitrate(), None);
        let completion = table.complete(reply(*source, *destination, 0), "move");
        assert!(matches!(completion, Completion::Committed { terminated: false, .. }));
        assert_eq!(table.session().move_counter(), n as u64 + 1);
    }
    assert_eq!(table.session().side_to_move(), Side::White);
}

#[test]
fn the_table_animates_its_records() {
    let mut table = table_after_human_move();
    table.animate(16);
    assert_eq!(
        table.visuals().at_cell(27),
        Some(PieceVisual { id: 11, cell: 27, x: 6000, z: 3000, lift: 126, speed: 16 })
    );
    let mut ticks = 0;
    loop {
        let before = table.visuals().pieces().clone();
        table.animate(16);
        ticks += 1;
        if *table.visuals().pieces() == before {
            break;
        }
        assert!(ticks < 2000);
    }
    let landed = table.visuals().at_cell(27).unwrap();
    assert_eq!((landed.x, landed.z, landed.lift), (4000, 3000, 0));
    assert_eq!(table.session().move_counter(), 1);
    assert_eq!(table.state(), SessionState::Playing);
}

#[test]
fn the_slot_takes_one_search_at_a_time() {
    let mut slot = TaskSlot::Idle;
    assert!(!slot.is_outstanding());
    assert!(slot.dispatch());
    assert_eq!(slot, TaskSlot::Running);
    assert!(slot.is_outstanding());
    assert!(!slot.dispatch());
    assert_eq!(slot, TaskSlot::Running);
    slot.abandon();
    assert_eq!(slot, TaskSlot::Abandoned);
    assert!(!slot.dispatch());
    assert_eq!(slot, TaskSlot::Abandoned);
    assert_eq!(slot.collect(), Collected::Stale);
    assert_eq!(slot, TaskSlot::Idle);
    assert_eq!(slot.collect(), Collected::Unexpected);
    slot.abandon();
    assert_eq!(slot, TaskSlot::Idle);
    assert!(slot.dispatch());
    assert_eq!(slot.collect(), Collected::Fresh);
    assert_eq!(slot, TaskSlot::Idle);
}

#[test]
fn controllers_toggle_side_by_side() {
    let start = Controllers::new();
    assert_eq!(start.of(Side::White), Controller::Human);
    assert_eq!(start.of(Side::Black), Controller::Engine);
    let both_engines = start.toggled(Side::White);
    assert_eq!(both_engines.of(Side::White), Controller::Engine);
    assert_eq!(both_engines.of(Side::Black), Controller::Engine);
    assert_eq!(both_engines.toggled(Side::White), start);
    assert_eq!(Controller::Human.toggled(), Controller::Engine);
    assert_eq!(Controller::Engine.toggled(), Controller::Human);
}
