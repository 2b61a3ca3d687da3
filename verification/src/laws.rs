//! What holds of every table, whatever was done to it: the laws of the
//! turn arbiter, of the move selection and of the search slot, stated over
//! the mathematical table and proved.

use crate::board::{lemma_code_of_decode, CELLS};
use crate::players::{MateScores, PendingMove, SessionState, TaskSlot};
use crate::session::{lemma_apply_alternates, lemma_initial_wf, MoveOutcome, SessionModel};
use crate::status::rejection_line;
use crate::table::{
    lemma_ticked_wf, ClickOutcome, Completion, ControlInput, Resolution, SearchRequest,
    TableModel,
};
use crate::visual::{
    all_wf, count_at, lemma_holder_counts, lemma_populated_mirrors, lemma_relocated_mirrors,
    mirrors, names_distinct,
};
use vstd::prelude::*;

verus! {

/// The table around a well-formed session is well formed; so is the table
/// of a new game.
pub proof fn lemma_seated_wf(session: SessionModel, mate: MateScores)
    requires
        session.wf(),
    ensures
        TableModel::seated(session, mate).wf(),
        TableModel::initial(mate).wf(),
{
    lemma_initial_wf();
    lemma_populated_mirrors(session.cells);
    lemma_populated_mirrors(SessionModel::initial().cells);
}

/// A move keeps board and records in step.
pub proof fn lemma_moved_in_step(table: TableModel, source: u8, destination: u8)
    requires
        table.wf(),
        source < CELLS,
        destination < CELLS,
    ensures
        ({
            let after = table.moved(source, destination);
            &&& after.session.wf()
            &&& all_wf(after.visuals)
            &&& mirrors(after.visuals, after.session.cells)
            &&& names_distinct(after.visuals)
            &&& after.session.move_counter == table.session.move_counter + 1
            &&& after.side_to_move() == table.side_to_move().spec_opponent()
        }),
{
    lemma_relocated_mirrors(table.visuals, table.session.cells, source, destination);
    lemma_apply_alternates(table.session, source as int, destination as int);
}

/// Whatever is done to a well-formed table leaves a well-formed table: the
/// arbiter, a click, a verdict, a search result, a new game, the controls
/// and a tick of the animation.
pub proof fn lemma_steps_keep_wf(
    table: TableModel,
    cell: u8,
    legal: bool,
    reply: PendingMove,
    description: Seq<char>,
    input: ControlInput,
    millis: nat,
)
    requires
        table.wf(),
        reply.source < CELLS,
        reply.destination < CELLS,
    ensures
        table.arbitrated().wf(),
        table.clicked(cell).wf(),
        table.resolved(cell, legal, description).wf(),
        table.completed(reply, description).wf(),
        table.restarted().wf(),
        table.controlled(input).wf(),
        table.ticked(millis).wf(),
{
    if table.awaits_verdict(cell) {
        lemma_moved_in_step(table, table.selection.unwrap(), cell);
    }
    lemma_moved_in_step(table, reply.source, reply.destination);
    lemma_initial_wf();
    lemma_populated_mirrors(SessionModel::initial().cells);
    lemma_ticked_wf(table, millis);
}

/// Every committed move counts as exactly one move and passes the turn to
/// the other side, the human's and the engine's alike; a verdict or a
/// result that commits nothing leaves counter and turn alone.
pub proof fn lemma_commit_counts_once(
    table: TableModel,
    destination: u8,
    legal: bool,
    reply: PendingMove,
    description: Seq<char>,
)
    requires
        table.wf(),
        reply.source < CELLS,
        reply.destination < CELLS,
    ensures
        ({
            let after = table.resolved(destination, legal, description);
            if table.resolution(destination, legal) is Committed {
                &&& after.session.move_counter == table.session.move_counter + 1
                &&& after.side_to_move() == table.side_to_move().spec_opponent()
            } else {
                after.session == table.session
            }
        }),
        ({
            let after = table.completed(reply, description);
            if table.completion(reply) is Committed {
                &&& after.session.move_counter == table.session.move_counter + 1
                &&& after.side_to_move() == table.side_to_move().spec_opponent()
            } else {
                after.session == table.session
            }
        }),
{
    if table.awaits_verdict(destination) {
        lemma_moved_in_step(table, table.selection.unwrap(), destination);
    }
    lemma_moved_in_step(table, reply.source, reply.destination);
}

/// Selecting a piece and then clicking a destination that the rules refuse
/// leaves session, records and state as they were before the first click,
/// clears the selection and puts the rejection into the message.
pub proof fn lemma_illegal_move_changes_nothing(
    table: TableModel,
    first: u8,
    second: u8,
    description: Seq<char>,
)
    requires
        table.wf(),
        table.click_outcome(first) == ClickOutcome::Selected,
        second < CELLS,
        second != first,
    ensures
        ({
            let selected = table.clicked(first);
            let after = selected.clicked(second).resolved(second, false, description);
            &&& selected.selection == Some(first)
            &&& selected.click_outcome(second) == (ClickOutcome::NeedsVerdict {
                source: first,
                destination: second,
            })
            &&& selected.clicked(second).resolution(second, false) == Resolution::Rejected
            &&& after.session == table.session
            &&& after.visuals == table.visuals
            &&& after.state == table.state
            &&& after.task == table.task
            &&& after.controllers == table.controllers
            &&& after.selection.is_none()
            &&& after.status.message == rejection_line()
        }),
{
}

/// A search result with the score of mate, committed, terminates the
/// session.
pub proof fn lemma_mate_terminates(table: TableModel, reply: PendingMove, description: Seq<char>)
    requires
        table.wf(),
        table.task == TaskSlot::Running,
        reply.score == table.mate.forced_mate,
    ensures
        table.completion(reply) is Committed,
        table.completed(reply, description).state == SessionState::Terminated,
        table.completed(reply, description).task == TaskSlot::Idle,
{
}

/// A terminated session accepts no move, from the human or from the
/// engine: the arbiter asks for no search, clicks and verdicts are ignored,
/// no search result is committed, and neither the controls nor the
/// animation touch the game. The session stays terminated through all of
/// them; only a new game makes it play again.
pub proof fn lemma_terminated_accepts_no_move(
    table: TableModel,
    cell: u8,
    legal: bool,
    reply: PendingMove,
    description: Seq<char>,
    input: ControlInput,
    millis: nat,
)
    requires
        table.wf(),
        table.state == SessionState::Terminated,
    ensures
        table.request().is_none(),
        table.arbitrated() == table,
        table.click_outcome(cell) == ClickOutcome::Ignored,
        table.clicked(cell) == table,
        table.resolution(cell, legal) == Resolution::Ignored,
        table.resolved(cell, legal, description) == table,
        !(table.completion(reply) is Committed),
        table.completed(reply, description).session == table.session,
        table.completed(reply, description).visuals == table.visuals,
        table.completed(reply, description).state == SessionState::Terminated,
        table.controlled(input).session.cells == table.session.cells,
        table.controlled(input).session.move_counter == table.session.move_counter,
        table.controlled(input).visuals == table.visuals,
        table.controlled(input).state == SessionState::Terminated,
        table.ticked(millis).session == table.session,
        table.ticked(millis).state == SessionState::Terminated,
        table.restarted().state == SessionState::Playing,
{
}

/// At most one search is outstanding: while one is, the arbiter asks for no
/// other and changes nothing; and once it has asked, asking again is
/// without effect.
pub proof fn lemma_one_search_at_a_time(table: TableModel)
    requires
        table.wf(),
    ensures
        table.task.spec_is_outstanding() ==> table.request().is_none() && table.arbitrated()
            == table,
        table.request().is_some() ==> table.task == TaskSlot::Idle && table.arbitrated().task
            == TaskSlot::Running,
        table.arbitrated().request().is_none(),
        table.arbitrated().arbitrated() == table.arbitrated(),
{
}

/// When the engine controls the side to move of a playing session and no
/// search is outstanding, the arbiter asks for exactly one search, with the
/// session's time per move, and the session waits for the engine.
pub proof fn lemma_engine_turn_dispatches(table: TableModel)
    requires
        table.wf(),
        table.engine_due(),
    ensures
        table.request() == Some(
            SearchRequest { millis_per_move: table.session.millis_per_move as u32 },
        ),
        table.arbitrated().state == SessionState::WaitingForEngine,
        table.arbitrated().task == TaskSlot::Running,
        table.arbitrated().session == table.session,
        table.arbitrated().visuals == table.visuals,
{
}

/// A session that waits for the engine goes on waiting, with its game
/// untouched, until the result of the search arrives: the arbiter, clicks,
/// verdicts, the controls and the animation all leave it waiting. The
/// result ends the wait.
pub proof fn lemma_waiting_until_result(
    table: TableModel,
    cell: u8,
    legal: bool,
    reply: PendingMove,
    description: Seq<char>,
    input: ControlInput,
    millis: nat,
)
    requires
        table.wf(),
        table.state == SessionState::WaitingForEngine,
    ensures
        table.arbitrated() == table,
        table.request().is_none(),
        table.clicked(cell) == table,
        table.resolved(cell, legal, description) == table,
        table.controlled(input).state == SessionState::WaitingForEngine,
        table.controlled(input).task == TaskSlot::Running,
        table.controlled(input).session.cells == table.session.cells,
        table.controlled(input).session.move_counter == table.session.move_counter,
        table.ticked(millis).state == SessionState::WaitingForEngine,
        table.ticked(millis).task == TaskSlot::Running,
        table.completion(reply) is Committed,
        table.completed(reply, description).state != SessionState::WaitingForEngine,
        table.completed(reply, description).task == TaskSlot::Idle,
{
}

/// A result that arrives after a new game is stale: it is thrown away, and
/// the game that the new game set up stays as it is.
pub proof fn lemma_stale_result_discarded(
    table: TableModel,
    reply: PendingMove,
    description: Seq<char>,
)
    requires
        table.wf(),
        table.task == TaskSlot::Running,
    ensures
        table.restarted().task == TaskSlot::Abandoned,
        table.restarted().request().is_none(),
        table.restarted().completion(reply) == Completion::Discarded,
        table.restarted().completed(reply, description).session == table.restarted().session,
        table.restarted().completed(reply, description).visuals == table.restarted().visuals,
        table.restarted().completed(reply, description).state == SessionState::Playing,
        table.restarted().completed(reply, description).task == TaskSlot::Idle,
{
}

/// A new game gives the starting position with no move made, nothing
/// selected and the session playing, whatever the table was.
pub proof fn lemma_new_game_starts_over(table: TableModel)
    requires
        table.wf(),
    ensures
        table.restarted().session.cells == SessionModel::initial().cells,
        table.restarted().session.move_counter == 0,
        table.restarted().visuals == TableModel::initial(table.mate).visuals,
        table.restarted().selection.is_none(),
        table.restarted().state == SessionState::Playing,
{
}

/// A capture by the human: with a piece of the side to move selected on
/// `source` and a legal verdict on a move to an occupied `destination`, the
/// record of the taken piece leaves the table, the source is empty, the
/// destination holds the piece that moved, and nothing is selected.
pub proof fn lemma_capture_follows(table: TableModel, destination: u8, description: Seq<char>)
    requires
        table.wf(),
        table.awaits_verdict(destination),
        table.selection != Some(destination),
        table.session.occupied(destination as int),
    ensures
        ({
            let source = table.selection.unwrap();
            let after = table.resolved(destination, true, description);
            &&& table.resolution(destination, true) matches Resolution::Committed(commit)
            &&& commit.removed.is_some()
            &&& commit.outcome == MoveOutcome::Capture
            &&& after.session.cells[destination as int] == table.session.cells[source as int]
            &&& !after.session.occupied(source as int)
            &&& count_at(after.visuals, destination as int) == 1
            &&& count_at(after.visuals, source as int) == 0
            &&& after.selection.is_none()
        }),
{
    let source = table.selection.unwrap();
    lemma_moved_in_step(table, source, destination);
    lemma_code_of_decode(table.session.cells[source as int]);
    lemma_holder_counts(table.visuals, destination);
    let after = table.resolved(destination, true, description);
    assert(count_at(after.visuals, destination as int) == 1);
    assert(count_at(after.visuals, source as int) == 0);
}

/// Something that happens to a table.
pub enum Event {
    /// The arbiter looks at the table.
    Arbitrate,
    /// A cell is clicked.
    Click { cell: u8 },
    /// The rules give their verdict on a move to `destination`.
    Verdict { destination: u8, legal: bool, description: Seq<char> },
    /// A search hands in its result.
    Result { reply: PendingMove, description: Seq<char> },
    /// A new game is asked for.
    NewGame,
    /// The controls are used.
    Controls { input: ControlInput },
    /// The animation advances by a tick.
    Frame { millis: nat },
}

impl Event {
    /// A search result names cells of the board; every other event is
    /// admissible as it is.
    pub open spec fn admissible(self) -> bool {
        self matches Event::Result { reply, .. } ==> reply.source < CELLS && reply.destination
            < CELLS
    }
}

/// The table after an event.
pub open spec fn after(table: TableModel, event: Event) -> TableModel {
    match event {
        Event::Arbitrate => table.arbitrated(),
        Event::Click { cell } => table.clicked(cell),
        Event::Verdict { destination, legal, description } => table.resolved(
            destination,
            legal,
            description,
        ),
        Event::Result { reply, description } => table.completed(reply, description),
        Event::NewGame => table.restarted(),
        Event::Controls { input } => table.controlled(input),
        Event::Frame { millis } => table.ticked(millis),
    }
}

/// Whether the event commits a move on the table.
pub open spec fn commits(table: TableModel, event: Event) -> bool {
    match event {
        Event::Verdict { destination, legal, .. } => table.resolution(destination, legal)
            is Committed,
        Event::Result { reply, .. } => table.completion(reply) is Committed,
        _ => false,
    }
}

/// The table after a sequence of events, one after the other.
pub open spec fn after_all(table: TableModel, events: Seq<Event>) -> TableModel
    decreases events.len(),
{
    if events.len() == 0 {
        table
    } else {
        after(after_all(table, events.drop_last()), events.last())
    }
}

/// Number of moves that a sequence of events commits.
pub open spec fn commits_in(table: TableModel, events: Seq<Event>) -> nat
    decreases events.len(),
{
    if events.len() == 0 {
        0
    } else {
        commits_in(table, events.drop_last()) + if commits(
            after_all(table, events.drop_last()),
            events.last(),
        ) {
            1nat
        } else {
            0nat
        }
    }
}

/// Every table that can be reached is well formed: whatever sequence of
/// events a well-formed table goes through, it stays well formed. So at
/// every moment the records mirror the board, at most one search is
/// outstanding, and the session waits exactly while a search runs for it.
pub proof fn lemma_reachable_tables_wf(table: TableModel, events: Seq<Event>)
    requires
        table.wf(),
        forall|k: int| 0 <= k < events.len() ==> (#[trigger] events[k]).admissible(),
    ensures
        after_all(table, events).wf(),
    decreases events.len(),
{
    if events.len() > 0 {
        let before = after_all(table, events.drop_last());
        lemma_reachable_tables_wf(table, events.drop_last());
        assert(events.last().admissible());
        match events.last() {
            Event::Arbitrate => {},
            Event::Click { cell } => {},
            Event::Verdict { destination, legal, description } => {
                if before.awaits_verdict(destination) {
                    lemma_moved_in_step(before, before.selection.unwrap(), destination);
                }
            },
            Event::Result { reply, description } => {
                lemma_moved_in_step(before, reply.source, reply.destination);
            },
            Event::NewGame => {
                lemma_initial_wf();
                lemma_populated_mirrors(SessionModel::initial().cells);
            },
            Event::Controls { input } => {},
            Event::Frame { millis } => {
                lemma_ticked_wf(before, millis);
            },
        }
    }
}

/// Through any sequence of events without a new game, the move counter
/// grows by exactly one for each committed move and by nothing else, and
/// the turn passes to the other side with each of them.
pub proof fn lemma_counter_counts_commits(table: TableModel, events: Seq<Event>)
    requires
        table.wf(),
        forall|k: int| 0 <= k < events.len() ==> (#[trigger] events[k]).admissible(),
        forall|k: int| 0 <= k < events.len() ==> !((#[trigger] events[k]) is NewGame),
    ensures
        after_all(table, events).session.move_counter == table.session.move_counter + commits_in(
            table,
            events,
        ),
        after_all(table, events).side_to_move() == (if commits_in(table, events) % 2 == 0 {
            table.side_to_move()
        } else {
            table.side_to_move().spec_opponent()
        }),
    decreases events.len(),
{
    if events.len() > 0 {
        let before = after_all(table, events.drop_last());
        lemma_counter_counts_commits(table, events.drop_last());
        lemma_reachable_tables_wf(table, events.drop_last());
        assert(events.last().admissible());
        assert(!(events.last() is NewGame));
        match events.last() {
            Event::Verdict { destination, legal, description } => {
                lemma_commit_counts_once(
                    before,
                    destination,
                    legal,
                    PendingMove { source: 0, destination: 0, score: 0 },
                    description,
                );
            },
            Event::Result { reply, description } => {
                lemma_commit_counts_once(before, 0, false, reply, description);
            },
            _ => {},
        }
    }
}

} // verus!
