//! The table: the session, the piece records, the selection of the human
//! player, the turn arbiter and the slot of the background search, kept in
//! step with one another.
//!
//! The table decides; it neither searches nor judges moves. Whoever drives
//! it asks the rules for a verdict when `click` calls for one, starts a
//! search when `arbitrate` asks for one, and hands the answers back through
//! `resolve` and `complete`.

use crate::board::{owner, side_of_code, start_cells, Side, CELLS};
use crate::players::{
    Collected, Controller, Controllers, MateScores, PendingMove, SessionState, TaskSlot,
};
use crate::session::{GameSession, MoveOutcome, SessionModel};
use crate::status::{
    annotation, annotation_text, new_game_line, next_line, next_text, opening_line,
    rejection_line, time_line, time_text, turn_line, turn_text, Status, StatusModel,
};
use crate::visual::{
    all_wf, animated, count_at, count_named, holder, lemma_animated_counts,
    lemma_populated_mirrors, lemma_relocated_mirrors, mirrors, names_distinct, populated,
    relocated, PieceVisual, VisualSet,
};
use vstd::prelude::*;

verus! {

/// What a click did.
#[derive(Clone, Copy, Debug, PartialEq, Eq, Structural)]
pub enum ClickOutcome {
    /// Nothing: clicks are not accepted now, or this one selects nothing.
    Ignored,
    /// The clicked cell is selected as the source of a move.
    Selected,
    /// The click names a destination: the rules must say whether the move
    /// from `source` to `destination` is legal.
    NeedsVerdict { source: u8, destination: u8 },
}

/// What a committed move did, for the presentation to follow.
#[derive(Clone, Copy, Debug, PartialEq, Eq, Structural)]
pub struct Commit {
    pub source: u8,
    pub destination: u8,
    /// Whether the move took a piece.
    pub outcome: MoveOutcome,
    /// Name of the record that left the table, if one did.
    pub removed: Option<u8>,
}

/// What became of a verdict.
#[derive(Clone, Copy, Debug, PartialEq, Eq, Structural)]
pub enum Resolution {
    /// No verdict was awaited.
    Ignored,
    /// The move is illegal: nothing moved and the selection is gone.
    Rejected,
    /// The move was made.
    Committed(Commit),
}

/// What became of a search result.
#[derive(Clone, Copy, Debug, PartialEq, Eq, Structural)]
pub enum Completion {
    /// No search was outstanding.
    Unexpected,
    /// The result was stale and was thrown away.
    Discarded,
    /// The move was made; `terminated` says whether it ended the game.
    Committed { commit: Commit, terminated: bool },
}

/// A request to start the one background search.
#[derive(Clone, Copy, Debug, PartialEq, Eq, Structural)]
pub struct SearchRequest {
    /// Time that the search may take, in milliseconds.
    pub millis_per_move: u32,
}

/// What the player asks of the controls in one tick.
#[derive(Clone, Copy, Debug, PartialEq, Eq, Structural)]
pub struct ControlInput {
    /// More time per move.
    pub longer: bool,
    /// Less time per move.
    pub shorter: bool,
    /// Hand white to the other kind of controller.
    pub toggle_white: bool,
    /// Hand black to the other kind of controller; white goes first when
    /// both are asked.
    pub toggle_black: bool,
}

/// The table as a mathematical value.
pub struct TableModel {
    pub session: SessionModel,
    pub visuals: Seq<PieceVisual>,
    /// The cell of the first click, between the two clicks of a move.
    pub selection: Option<u8>,
    pub state: SessionState,
    pub controllers: Controllers,
    pub task: TaskSlot,
    pub mate: MateScores,
    pub status: StatusModel,
}

impl TableModel {
    /// The side to move.
    pub open spec fn side_to_move(self) -> Side {
        self.session.side_to_move()
    }

    /// Who controls the side to move.
    pub open spec fn controller_to_move(self) -> Controller {
        self.controllers.spec_of(self.side_to_move())
    }

    /// Clicks are accepted while the session is playing and a human
    /// controls the side to move.
    pub open spec fn accepts_clicks(self) -> bool {
        self.state == SessionState::Playing && self.controller_to_move() == Controller::Human
    }

    /// A search is due when the session is playing, the engine controls the
    /// side to move and no search is outstanding.
    pub open spec fn engine_due(self) -> bool {
        &&& self.state == SessionState::Playing
        &&& self.controller_to_move() == Controller::Engine
        &&& self.task == TaskSlot::Idle
    }

    /// Whether the given cell holds a piece of the side to move.
    pub open spec fn own_piece_on(self, cell: u8) -> bool {
        cell < CELLS && side_of_code(self.session.cells[cell as int]) == Some(self.side_to_move())
    }

    /// A table is well formed when its session is, its records are well
    /// formed, carry distinct names and mirror the board, the session waits
    /// for the engine exactly while a search runs, and a cell is selected
    /// only while clicks are accepted, and then one with a piece of the
    /// side to move.
    pub open spec fn wf(self) -> bool {
        &&& self.session.wf()
        &&& all_wf(self.visuals)
        &&& mirrors(self.visuals, self.session.cells)
        &&& names_distinct(self.visuals)
        &&& (self.state == SessionState::WaitingForEngine <==> self.task == TaskSlot::Running)
        &&& (self.selection matches Some(cell) ==> self.accepts_clicks() && self.own_piece_on(cell))
    }

    /// The table around a session: its board populated, nothing selected,
    /// playing, a human on white and the engine on black, no search
    /// outstanding.
    pub open spec fn seated(session: SessionModel, mate: MateScores) -> TableModel {
        TableModel {
            session,
            visuals: populated(session.cells),
            selection: None,
            state: SessionState::Playing,
            controllers: Controllers::initial(),
            task: TaskSlot::Idle,
            mate,
            status: StatusModel::initial(),
        }
    }

    /// The table of a new game.
    pub open spec fn initial(mate: MateScores) -> TableModel {
        TableModel::seated(SessionModel::initial(), mate)
    }

    /// The request that the arbiter makes, if a search is due.
    pub open spec fn request(self) -> Option<SearchRequest> {
        if self.engine_due() {
            Some(SearchRequest { millis_per_move: self.session.millis_per_move as u32 })
        } else {
            None
        }
    }

    /// The table after the arbiter looked at it: when a search is due, the
    /// session waits for the engine, the search runs and nothing is
    /// selected; otherwise nothing changes.
    pub open spec fn arbitrated(self) -> TableModel {
        if self.engine_due() {
            TableModel {
                state: SessionState::WaitingForEngine,
                task: TaskSlot::Running,
                selection: None,
                ..self
            }
        } else {
            self
        }
    }

    /// What a click on `cell` does. While clicks are accepted, a first
    /// click selects a cell with a piece of the side to move, and a second
    /// click on another cell calls for a verdict. Every other click is
    /// ignored, a second click on the selected cell too.
    pub open spec fn click_outcome(self, cell: u8) -> ClickOutcome {
        if !self.accepts_clicks() || cell >= CELLS {
            ClickOutcome::Ignored
        } else {
            match self.selection {
                None => if self.own_piece_on(cell) {
                    ClickOutcome::Selected
                } else {
                    ClickOutcome::Ignored
                },
                Some(first) => if first == cell {
                    ClickOutcome::Ignored
                } else {
                    ClickOutcome::NeedsVerdict { source: first, destination: cell }
                },
            }
        }
    }

    /// The table after a click on `cell`: only a click that selects changes
    /// it.
    pub open spec fn clicked(self, cell: u8) -> TableModel {
        if self.click_outcome(cell) == ClickOutcome::Selected {
            TableModel { selection: Some(cell), ..self }
        } else {
            self
        }
    }

    /// What a move from `source` to `destination` does, for the
    /// presentation.
    pub open spec fn commit(self, source: u8, destination: u8) -> Commit {
        Commit {
            source,
            destination,
            outcome: self.session.outcome(source as int, destination as int),
            removed: match holder(self.visuals, destination) {
                Some(v) => Some(v.id),
                None => None,
            },
        }
    }

    /// The table after a move from `source` to `destination`: the session
    /// has applied it, the records have followed, nothing is selected.
    pub open spec fn moved(self, source: u8, destination: u8) -> TableModel {
        TableModel {
            session: self.session.applied(source as int, destination as int),
            visuals: relocated(self.visuals, source, destination),
            selection: None,
            ..self
        }
    }

    /// The lines that a table shows after a move, with the given message.
    pub open spec fn lines_after_move(self, message: Seq<char>) -> StatusModel {
        StatusModel {
            message,
            turn: turn_line(self.controllers),
            time: time_line(self.session.millis_per_move),
            next: next_line(self.side_to_move()),
        }
    }

    /// A verdict on a move to `destination` is awaited while clicks are
    /// accepted and a cell is selected.
    pub open spec fn awaits_verdict(self, destination: u8) -> bool {
        self.accepts_clicks() && self.selection.is_some() && destination < CELLS
    }

    /// What a verdict does.
    pub open spec fn resolution(self, destination: u8, legal: bool) -> Resolution {
        if !self.awaits_verdict(destination) {
            Resolution::Ignored
        } else if !legal {
            Resolution::Rejected
        } else {
            Resolution::Committed(self.commit(self.selection.unwrap(), destination))
        }
    }

    /// The table after a verdict. An illegal move leaves session and
    /// records alone, clears the selection and says so in the message. A
    /// legal move is made, and the message is its description. A verdict
    /// that is not awaited changes nothing.
    pub open spec fn resolved(self, destination: u8, legal: bool, description: Seq<char>) -> TableModel {
        if !self.awaits_verdict(destination) {
            self
        } else if !legal {
            TableModel {
                selection: None,
                status: StatusModel { message: rejection_line(), ..self.status },
                ..self
            }
        } else {
            let after = self.moved(self.selection.unwrap(), destination);
            TableModel { status: after.lines_after_move(description), ..after }
        }
    }

    /// What a search result does.
    pub open spec fn completion(self, reply: PendingMove) -> Completion {
        match self.task.collected() {
            Collected::Unexpected => Completion::Unexpected,
            Collected::Stale => Completion::Discarded,
            Collected::Fresh => Completion::Committed {
                commit: self.commit(reply.source, reply.destination),
                terminated: reply.score == self.mate.forced_mate,
            },
        }
    }

    /// The table after a search result. A fresh result is committed: the
    /// move is made, the slot is idle, the message is the description of
    /// the move and what its score says, and the session plays on, unless
    /// the score is that of mate: then it is terminated and nobody moves
    /// next. A stale result only frees the slot. A result that nobody
    /// asked for changes nothing.
    pub open spec fn completed(self, reply: PendingMove, description: Seq<char>) -> TableModel {
        match self.task.collected() {
            Collected::Unexpected => self,
            Collected::Stale => TableModel { task: TaskSlot::Idle, ..self },
            Collected::Fresh => {
                let after = self.moved(reply.source, reply.destination);
                let lines = after.lines_after_move(
                    description + annotation(reply.score, self.mate),
                );
                if reply.score == self.mate.forced_mate {
                    TableModel {
                        task: TaskSlot::Idle,
                        state: SessionState::Terminated,
                        status: StatusModel { next: Seq::empty(), ..lines },
                        ..after
                    }
                } else {
                    TableModel {
                        task: TaskSlot::Idle,
                        state: SessionState::Playing,
                        status: lines,
                        ..after
                    }
                }
            },
        }
    }

    /// The table after the command for a new game: the session is reset,
    /// the board populated afresh, nothing is selected, the session plays,
    /// and a search that still runs is abandoned.
    pub open spec fn restarted(self) -> TableModel {
        TableModel {
            session: self.session.reset(),
            visuals: populated(start_cells()),
            selection: None,
            state: SessionState::Playing,
            task: self.task.abandoned(),
            status: StatusModel { message: new_game_line(), next: opening_line(), ..self.status },
            ..self
        }
    }

    /// The controllers after the controls were used: white's is toggled
    /// when asked, else black's when asked.
    pub open spec fn controllers_after(self, input: ControlInput) -> Controllers {
        if input.toggle_white {
            self.controllers.spec_toggled(Side::White)
        } else if input.toggle_black {
            self.controllers.spec_toggled(Side::Black)
        } else {
            self.controllers
        }
    }

    /// The table after the controls were used. The time per move follows
    /// `longer` and `shorter`, and its line is written anew when one of
    /// them alone is asked. The controllers follow the toggles, and their
    /// line is written anew when one is asked. A selection goes when the
    /// side to move is no longer a human's.
    pub open spec fn controlled(self, input: ControlInput) -> TableModel {
        let session = self.session.adjusted(input.longer, input.shorter);
        let controllers = self.controllers_after(input);
        let after = TableModel { session, controllers, ..self };
        TableModel {
            selection: if after.accepts_clicks() {
                self.selection
            } else {
                None
            },
            status: StatusModel {
                time: if input.longer != input.shorter {
                    time_line(session.millis_per_move)
                } else {
                    self.status.time
                },
                turn: if input.toggle_white || input.toggle_black {
                    turn_line(controllers)
                } else {
                    self.status.turn
                },
                ..self.status
            },
            ..after
        }
    }

    /// The table after a tick of the animation: every record advanced, all
    /// else unchanged.
    pub open spec fn ticked(self, millis: nat) -> TableModel {
        TableModel { visuals: animated(self.visuals, millis), ..self }
    }
}

/// The table.
#[derive(Debug)]
pub struct Table {
    session: GameSession,
    visuals: VisualSet,
    selection: Option<u8>,
    state: SessionState,
    controllers: Controllers,
    task: TaskSlot,
    mate: MateScores,
    status: Status,
}

impl View for Table {
    type V = TableModel;

    closed spec fn view(&self) -> TableModel {
        TableModel {
            session: self.session@,
            visuals: self.visuals@,
            selection: self.selection,
            state: self.state,
            controllers: self.controllers,
            task: self.task,
            mate: self.mate,
            status: self.status@,
        }
    }
}

impl Table {
    /// Whether the table is well formed. Every table that this module
    /// hands out is.
    pub open spec fn wf(&self) -> bool {
        self@.wf()
    }

    /// The table of a new game, for an engine with the given mate scores.
    pub fn new(mate: MateScores) -> (table: Table)
        ensures
            table@ == TableModel::initial(mate),
            table.wf(),
    {
        Table::with_session(GameSession::new(), mate)
    }

    /// A table around the given session.
    pub fn with_session(session: GameSession, mate: MateScores) -> (table: Table)
        ensures
            table@ == TableModel::seated(session@, mate),
            table.wf(),
    {
        proof {
            use_type_invariant(&session);
            lemma_populated_mirrors(session@.cells);
        }
        Table {
            session,
            visuals: VisualSet::populate(&session),
            selection: None,
            state: SessionState::Playing,
            controllers: Controllers::new(),
            task: TaskSlot::Idle,
            mate,
            status: Status::new(),
        }
    }

    /// The session.
    pub fn session(&self) -> (session: &GameSession)
        ensures
            session@ == self@.session,
    {
        &self.session
    }

    /// The piece records.
    pub fn visuals(&self) -> (visuals: &VisualSet)
        ensures
            visuals@ == self@.visuals,
    {
        &self.visuals
    }

    /// The selected cell, if one is selected.
    pub fn selection(&self) -> (selection: Option<u8>)
        ensures
            selection == self@.selection,
    {
        self.selection
    }

    /// The state of the session.
    pub fn state(&self) -> (state: SessionState)
        ensures
            state == self@.state,
    {
        self.state
    }

    /// The controllers of the two sides.
    pub fn controllers(&self) -> (controllers: Controllers)
        ensures
            controllers == self@.controllers,
    {
        self.controllers
    }

    /// The slot of the background search.
    pub fn task(&self) -> (task: TaskSlot)
        ensures
            task == self@.task,
    {
        self.task
    }

    /// The lines of text.
    pub fn status(&self) -> (status: &Status)
        ensures
            status@ == self@.status,
    {
        &self.status
    }

    /// The turn arbiter, to be called once per tick: asks for a search when
    /// one is due.
    pub fn arbitrate(&mut self) -> (request: Option<SearchRequest>)
        requires
            old(self).wf(),
        ensures
            final(self)@ == old(self)@.arbitrated(),
            request == old(self)@.request(),
            final(self).wf(),
    {
        let due = match self.state {
            SessionState::Playing => match self.controllers.of(self.session.side_to_move()) {
                Controller::Engine => !self.task.is_outstanding(),
                Controller::Human => false,
            },
            _ => false,
        };
        if due {
            self.task.dispatch();
            self.state = SessionState::WaitingForEngine;
            self.selection = None;
            Some(SearchRequest { millis_per_move: self.session.millis_per_move() })
        } else {
            None
        }
    }

    fn takes_clicks(&self) -> (accepted: bool)
        ensures
            accepted == self@.accepts_clicks(),
    {
        match self.state {
            SessionState::Playing => match self.controllers.of(self.session.side_to_move()) {
                Controller::Human => true,
                Controller::Engine => false,
            },
            _ => false,
        }
    }

    /// Takes a click on a cell.
    pub fn click(&mut self, cell: u8) -> (outcome: ClickOutcome)
        requires
            old(self).wf(),
        ensures
            final(self)@ == old(self)@.clicked(cell),
            outcome == old(self)@.click_outcome(cell),
            final(self).wf(),
    {
        if !self.takes_clicks() || cell >= 64 {
            return ClickOutcome::Ignored;
        }
        match self.selection {
            None => {
                let own = match owner(self.session.cell(cell)) {
                    Some(side) => side == self.session.side_to_move(),
                    None => false,
                };
                if own {
                    self.selection = Some(cell);
                    ClickOutcome::Selected
                } else {
                    ClickOutcome::Ignored
                }
            },
            Some(first) => {
                if first == cell {
                    ClickOutcome::Ignored
                } else {
                    ClickOutcome::NeedsVerdict { source: first, destination: cell }
                }
            },
        }
    }

    fn make_move(&mut self, source: u8, destination: u8) -> (commit: Commit)
        requires
            mirrors(old(self)@.visuals, old(self)@.session.cells),
            names_distinct(old(self)@.visuals),
            source < CELLS,
            destination < CELLS,
            old(self)@.session.move_counter < u64::MAX,
        ensures
            final(self)@ == old(self)@.moved(source, destination),
            commit == old(self)@.commit(source, destination),
            all_wf(final(self)@.visuals),
            mirrors(final(self)@.visuals, final(self)@.session.cells),
            names_distinct(final(self)@.visuals),
            final(self)@.session.wf(),
    {
        proof {
            use_type_invariant(&self.session);
            use_type_invariant(&self.visuals);
            lemma_relocated_mirrors(self@.visuals, self@.session.cells, source, destination);
        }
        let outcome = self.session.apply(source, destination);
        let removed = self.visuals.relocate(source, destination);
        self.selection = None;
        Commit { source, destination, outcome, removed }
    }

    fn write_move_lines(&mut self, message: String)
        ensures
            final(self)@ == (TableModel {
                status: old(self)@.lines_after_move(message@),
                ..old(self)@
            }),
    {
        self.status.message = message;
        self.status.turn = turn_text(self.controllers);
        self.status.time = time_text(self.session.millis_per_move());
        self.status.next = next_text(self.session.side_to_move());
    }

    /// Takes the verdict of the rules on the move from the selected cell to
    /// `destination`, with the description of the move if it is legal. A
    /// move can be made only while the counter can still count it.
    pub fn resolve(&mut self, destination: u8, legal: bool, description: &str) -> (resolution:
        Resolution)
        requires
            old(self).wf(),
            legal && old(self)@.awaits_verdict(destination) ==> old(self)@.session.move_counter
                < u64::MAX,
        ensures
            final(self)@ == old(self)@.resolved(destination, legal, description@),
            resolution == old(self)@.resolution(destination, legal),
            final(self).wf(),
    {
        let first = match self.selection {
            Some(first) => first,
            None => {
                return Resolution::Ignored;
            },
        };
        if !self.takes_clicks() || destination >= 64 {
            return Resolution::Ignored;
        }
        if !legal {
            self.selection = None;
            self.status.message = String::from_str("invalid move, ignored.");
            return Resolution::Rejected;
        }
        let commit = self.make_move(first, destination);
        self.write_move_lines(String::from_str(description));
        Resolution::Committed(commit)
    }

    /// Takes the result of the background search, with the description of
    /// its move. A caller that has no description for a result that will
    /// not be committed may pass any text. A result is committed only while
    /// the counter can still count its move.
    pub fn complete(&mut self, reply: PendingMove, description: &str) -> (completion: Completion)
        requires
            old(self).wf(),
            reply.source < CELLS,
            reply.destination < CELLS,
            old(self)@.task == TaskSlot::Running ==> old(self)@.session.move_counter < u64::MAX,
        ensures
            final(self)@ == old(self)@.completed(reply, description@),
            completion == old(self)@.completion(reply),
            final(self).wf(),
    {
        match self.task.collect() {
            Collected::Unexpected => Completion::Unexpected,
            Collected::Stale => Completion::Discarded,
            Collected::Fresh => {
                let commit = self.make_move(reply.source, reply.destination);
                let mut message = String::from_str(description);
                message.append(annotation_text(reply.score, self.mate).as_str());
                self.write_move_lines(message);
                let terminated = reply.score == self.mate.forced_mate;
                if terminated {
                    self.state = SessionState::Terminated;
                    self.status.next = String::new();
                } else {
                    self.state = SessionState::Playing;
                }
                Completion::Committed { commit, terminated }
            },
        }
    }

    /// Starts a new game.
    pub fn new_game(&mut self)
        requires
            old(self).wf(),
        ensures
            final(self)@ == old(self)@.restarted(),
            final(self).wf(),
    {
        self.session.reset();
        proof {
            lemma_populated_mirrors(self.session@.cells);
        }
        self.visuals = VisualSet::populate(&self.session);
        self.selection = None;
        self.state = SessionState::Playing;
        self.task.abandon();
        self.status.message = String::from_str("New game");
        self.status.next = String::from_str("White starts the game");
    }

    /// Takes what the player asks of the controls.
    pub fn control(&mut self, input: ControlInput)
        requires
            old(self).wf(),
        ensures
            final(self)@ == old(self)@.controlled(input),
            final(self).wf(),
    {
        self.session.adjust_time(input.longer, input.shorter);
        if input.longer != input.shorter {
            self.status.time = time_text(self.session.millis_per_move());
        }
        if input.toggle_white {
            self.controllers = self.controllers.toggled(Side::White);
        } else if input.toggle_black {
            self.controllers = self.controllers.toggled(Side::Black);
        }
        if input.toggle_white || input.toggle_black {
            self.status.turn = turn_text(self.controllers);
        }
        if !self.takes_clicks() {
            self.selection = None;
        }
    }

    /// Advances the animation of every piece by one tick of `millis`
    /// milliseconds.
    pub fn animate(&mut self, millis: u32)
        requires
            old(self).wf(),
        ensures
            final(self)@ == old(self)@.ticked(millis as nat),
            final(self).wf(),
    {
        proof {
            lemma_ticked_wf(self@, millis as nat);
        }
        self.visuals.animate(millis);
    }
}

/// A tick of the animation keeps a table well formed.
pub proof fn lemma_ticked_wf(table: TableModel, millis: nat)
    requires
        table.wf(),
    ensures
        table.ticked(millis).wf(),
{
    let after = animated(table.visuals, millis);
    lemma_animated_counts(table.visuals, millis, 0);
    assert forall|c: int| 0 <= c < CELLS implies #[trigger] count_at(after, c) == count_at(
        table.visuals,
        c,
    ) by {
        lemma_animated_counts(table.visuals, millis, c);
    }
    assert forall|id: int| 0 <= id < 256 implies #[trigger] count_named(after, id) <= 1 by {
        lemma_animated_counts(table.visuals, millis, id);
        assert(count_named(table.visuals, id) <= 1);
    }
}

} // verus!
