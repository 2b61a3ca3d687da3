//! Who plays which side, the three states of a session, the slot of the one
//! search that may run in the background, and what such a search hands
//! back.

use crate::board::Side;
use vstd::prelude::*;

verus! {

/// Where a session stands.
#[derive(Clone, Copy, Debug, PartialEq, Eq, Structural)]
pub enum SessionState {
    /// Moves are accepted: clicks from a human, a search for an engine.
    Playing,
    /// A search for the side to move is running.
    WaitingForEngine,
    /// The game is over; only a new game leaves this state.
    Terminated,
}

/// Who decides the moves of a side.
#[derive(Clone, Copy, Debug, PartialEq, Eq, Structural)]
pub enum Controller {
    Human,
    Engine,
}

impl Controller {
    /// The other kind of controller.
    pub open spec fn spec_toggled(self) -> Controller {
        match self {
            Controller::Human => Controller::Engine,
            Controller::Engine => Controller::Human,
        }
    }

    #[verifier::when_used_as_spec(spec_toggled)]
    pub fn toggled(self) -> (other: Controller)
        ensures
            other == self.spec_toggled(),
    {
        match self {
            Controller::Human => Controller::Engine,
            Controller::Engine => Controller::Human,
        }
    }
}

/// The controllers of the two sides.
#[derive(Clone, Copy, Debug, PartialEq, Eq, Structural)]
pub struct Controllers {
    pub white: Controller,
    pub black: Controller,
}

impl Controllers {
    /// A human plays white against the engine.
    pub open spec fn initial() -> Controllers {
        Controllers { white: Controller::Human, black: Controller::Engine }
    }

    /// The controller of the given side.
    pub open spec fn spec_of(self, side: Side) -> Controller {
        match side {
            Side::White => self.white,
            Side::Black => self.black,
        }
    }

    /// The controllers after the one of the given side was toggled.
    pub open spec fn spec_toggled(self, side: Side) -> Controllers {
        match side {
            Side::White => Controllers { white: self.white.spec_toggled(), ..self },
            Side::Black => Controllers { black: self.black.spec_toggled(), ..self },
        }
    }

    /// Makes the controllers of a new table.
    pub fn new() -> (controllers: Controllers)
        ensures
            controllers == Controllers::initial(),
    {
        Controllers { white: Controller::Human, black: Controller::Engine }
    }

    #[verifier::when_used_as_spec(spec_of)]
    pub fn of(self, side: Side) -> (controller: Controller)
        ensures
            controller == self.spec_of(side),
    {
        match side {
            Side::White => self.white,
            Side::Black => self.black,
        }
    }

    #[verifier::when_used_as_spec(spec_toggled)]
    pub fn toggled(self, side: Side) -> (controllers: Controllers)
        ensures
            controllers == self.spec_toggled(side),
    {
        match side {
            Side::White => Controllers { white: self.white.toggled(), black: self.black },
            Side::Black => Controllers { white: self.white, black: self.black.toggled() },
        }
    }
}

/// What became of a search result that was handed in.
#[derive(Clone, Copy, Debug, PartialEq, Eq, Structural)]
pub enum Collected {
    /// No search was outstanding: the result belongs to nothing.
    Unexpected,
    /// The search was started before the last new game: its result is
    /// stale and must not be applied.
    Stale,
    /// The result answers the search that the session waits for.
    Fresh,
}

/// The slot of the background search. At most one search is outstanding.
#[derive(Clone, Copy, Debug, PartialEq, Eq, Structural)]
pub enum TaskSlot {
    /// No search is outstanding.
    Idle,
    /// A search is outstanding and the session waits for its result.
    Running,
    /// A search is outstanding, but a new game began since it started.
    Abandoned,
}

impl TaskSlot {
    /// Whether a search is outstanding.
    pub open spec fn spec_is_outstanding(self) -> bool {
        self != TaskSlot::Idle
    }

    /// The slot after a request to dispatch a search: an idle slot runs,
    /// any other slot stays as it is.
    pub open spec fn dispatched(self) -> TaskSlot {
        if self == TaskSlot::Idle {
            TaskSlot::Running
        } else {
            self
        }
    }

    /// The slot after a new game: a running search is abandoned.
    pub open spec fn abandoned(self) -> TaskSlot {
        if self == TaskSlot::Running {
            TaskSlot::Abandoned
        } else {
            self
        }
    }

    /// What a result that arrives now is.
    pub open spec fn collected(self) -> Collected {
        match self {
            TaskSlot::Idle => Collected::Unexpected,
            TaskSlot::Running => Collected::Fresh,
            TaskSlot::Abandoned => Collected::Stale,
        }
    }

    #[verifier::when_used_as_spec(spec_is_outstanding)]
    pub fn is_outstanding(self) -> (outstanding: bool)
        ensures
            outstanding == self.spec_is_outstanding(),
    {
        match self {
            TaskSlot::Idle => false,
            _ => true,
        }
    }

    /// Asks for a search. The request is accepted only when no search is
    /// outstanding; otherwise nothing changes.
    pub fn dispatch(&mut self) -> (accepted: bool)
        ensures
            accepted == !old(self).spec_is_outstanding(),
            *final(self) == old(self).dispatched(),
    {
        match *self {
            TaskSlot::Idle => {
                *self = TaskSlot::Running;
                true
            },
            _ => false,
        }
    }

    /// Marks a running search as begun before the new game.
    pub fn abandon(&mut self)
        ensures
            *final(self) == old(self).abandoned(),
    {
        match *self {
            TaskSlot::Running => {
                *self = TaskSlot::Abandoned;
            },
            _ => {},
        }
    }

    /// Takes in the result of the outstanding search: the slot is idle
    /// afterwards, and the answer says what the result is worth.
    pub fn collect(&mut self) -> (kind: Collected)
        ensures
            kind == old(self).collected(),
            *final(self) == TaskSlot::Idle,
    {
        let kind = match *self {
            TaskSlot::Idle => Collected::Unexpected,
            TaskSlot::Running => Collected::Fresh,
            TaskSlot::Abandoned => Collected::Stale,
        };
        *self = TaskSlot::Idle;
        kind
    }
}

/// The result of a search: a move and the score that the engine gives it.
#[derive(Clone, Copy, Debug, PartialEq, Eq, Structural)]
pub struct PendingMove {
    pub source: u8,
    pub destination: u8,
    pub score: i64,
}

/// The two scores of the engine that speak of mate.
#[derive(Clone, Copy, Debug, PartialEq, Eq, Structural)]
pub struct MateScores {
    /// The score of a move that mates.
    pub forced_mate: i64,
    /// Scores above this one say that mate is near.
    pub mate_imminent: i64,
}

/// A second request to dispatch changes nothing: while a search is
/// outstanding the slot stays as it is, whatever is asked of it.
pub proof fn lemma_dispatch_once(slot: TaskSlot)
    ensures
        slot.dispatched().spec_is_outstanding(),
        slot.dispatched().dispatched() == slot.dispatched(),
        slot.spec_is_outstanding() ==> slot.dispatched() == slot,
{
}

} // verus!
