//! The four lines of text that the table shows: the last message, who
//! plays whom, the time per move, and who moves next.

use crate::board::Side;
use crate::players::{Controller, Controllers, MateScores};
use vstd::prelude::*;

verus! {

/// The character of a decimal digit.
pub open spec fn digit(d: nat) -> char {
    if d == 0 {
        '0'
    } else if d == 1 {
        '1'
    } else if d == 2 {
        '2'
    } else if d == 3 {
        '3'
    } else if d == 4 {
        '4'
    } else if d == 5 {
        '5'
    } else if d == 6 {
        '6'
    } else if d == 7 {
        '7'
    } else if d == 8 {
        '8'
    } else {
        '9'
    }
}

/// The decimal digits of a number, the most significant first, without
/// leading zeros.
pub open spec fn digits(n: nat) -> Seq<char>
    decreases n,
{
    if n < 10 {
        seq![digit(n)]
    } else {
        digits(n / 10).push(digit(n % 10))
    }
}

/// A whole number in decimal, with a minus sign before a negative one.
pub open spec fn decimal(n: int) -> Seq<char> {
    if n < 0 {
        seq!['-'] + digits((-n) as nat)
    } else {
        digits(n as nat)
    }
}

/// Half of a difference, rounded towards zero.
pub open spec fn halved(d: int) -> int {
    if d >= 0 {
        d / 2
    } else {
        -((-d) / 2)
    }
}

/// How a controller is called on the table.
pub open spec fn controller_label(controller: Controller) -> Seq<char> {
    match controller {
        Controller::Human => "Human"@,
        Controller::Engine => "Computer"@,
    }
}

/// How a side is called on the table.
pub open spec fn side_label(side: Side) -> Seq<char> {
    match side {
        Side::White => "White"@,
        Side::Black => "Black"@,
    }
}

/// The line that says who plays whom.
pub open spec fn turn_line(controllers: Controllers) -> Seq<char> {
    controller_label(controllers.white) + " (1) vs "@ + controller_label(controllers.black)
        + " (2)"@
}

/// The line that gives the time per move in seconds, with one digit after
/// the point. What is left of a tenth is dropped: 2050 milliseconds read
/// 2.0, and 1950 read 1.9.
pub open spec fn time_line(millis: nat) -> Seq<char> {
    "Secs per move: "@ + digits(millis / 1000) + "."@ + seq![digit(millis % 1000 / 100)]
}

/// The line that names the side to move.
pub open spec fn next_line(side: Side) -> Seq<char> {
    "Next move: "@ + side_label(side)
}

/// What a score says of mate: that the game is over when it is the score of
/// mate, in how many moves mate follows when it is above the score of near
/// mate, and nothing otherwise.
pub open spec fn mate_note(score: i64, mate: MateScores) -> Seq<char> {
    if score == mate.forced_mate {
        " Checkmate, game terminated!"@
    } else if score > mate.mate_imminent {
        " Checkmate in "@ + decimal(halved(mate.forced_mate - score))
    } else {
        Seq::empty()
    }
}

/// What follows the description of an engine's move: its score, and what
/// the score says of mate.
pub open spec fn annotation(score: i64, mate: MateScores) -> Seq<char> {
    " (score: "@ + decimal(score as int) + ")"@ + mate_note(score, mate)
}

/// The message that answers an illegal move.
pub open spec fn rejection_line() -> Seq<char> {
    "invalid move, ignored."@
}

/// The message that opens a new game.
pub open spec fn new_game_line() -> Seq<char> {
    "New game"@
}

/// The line that says who moves first.
pub open spec fn opening_line() -> Seq<char> {
    "White starts the game"@
}

/// The message of a new table, which says how to play.
pub open spec fn instructions_line() -> Seq<char> {
    "Left-click on a piece, then on a destination to move. Use the middle mouse\nbutton to rotate the board, right-click to pan, and scroll to zoom."@
}

/// The line on the players of a new table.
pub open spec fn players_hint_line() -> Seq<char> {
    "Human player vs. Computer\n  use keypad 1 or 2 to change"@
}

/// The line on the time per move of a new table.
pub open spec fn time_hint_line() -> Seq<char> {
    "2 secs per move\n  use keypad + or - to modify"@
}

/// The four lines as mathematical values.
pub struct StatusModel {
    pub message: Seq<char>,
    pub turn: Seq<char>,
    pub time: Seq<char>,
    pub next: Seq<char>,
}

impl StatusModel {
    /// The lines of a new table.
    pub open spec fn initial() -> StatusModel {
        StatusModel {
            message: instructions_line(),
            turn: players_hint_line(),
            time: time_hint_line(),
            next: opening_line(),
        }
    }
}

/// The four lines of text.
#[derive(Debug, PartialEq, Eq)]
pub struct Status {
    /// The last message: how to play, what the last move was, or why none
    /// was made.
    pub message: String,
    /// Who plays whom.
    pub turn: String,
    /// The time per move.
    pub time: String,
    /// Who moves next.
    pub next: String,
}

impl View for Status {
    type V = StatusModel;

    open spec fn view(&self) -> StatusModel {
        StatusModel {
            message: self.message@,
            turn: self.turn@,
            time: self.time@,
            next: self.next@,
        }
    }
}

impl Status {
    /// The lines of a new table.
    pub fn new() -> (status: Status)
        ensures
            status@ == StatusModel::initial(),
    {
        Status {
            message: String::from_str(
                "Left-click on a piece, then on a destination to move. Use the middle mouse\nbutton to rotate the board, right-click to pan, and scroll to zoom.",
            ),
            turn: String::from_str("Human player vs. Computer\n  use keypad 1 or 2 to change"),
            time: String::from_str("2 secs per move\n  use keypad + or - to modify"),
            next: String::from_str("White starts the game"),
        }
    }
}

fn digit_text(d: u64) -> (text: &'static str)
    requires
        d < 10,
    ensures
        text@ == seq![digit(d as nat)],
{
    proof {
        reveal_strlit("0");
        reveal_strlit("1");
        reveal_strlit("2");
        reveal_strlit("3");
        reveal_strlit("4");
        reveal_strlit("5");
        reveal_strlit("6");
        reveal_strlit("7");
        reveal_strlit("8");
        reveal_strlit("9");
    }
    let text = if d == 0 {
        "0"
    } else if d == 1 {
        "1"
    } else if d == 2 {
        "2"
    } else if d == 3 {
        "3"
    } else if d == 4 {
        "4"
    } else if d == 5 {
        "5"
    } else if d == 6 {
        "6"
    } else if d == 7 {
        "7"
    } else if d == 8 {
        "8"
    } else {
        "9"
    };
    assert(text@ =~= seq![digit(d as nat)]);
    text
}

fn append_digits(text: &mut String, n: u64)
    ensures
        final(text)@ == old(text)@ + digits(n as nat),
    decreases n,
{
    if n >= 10 {
        append_digits(text, n / 10);
    }
    text.append(digit_text(n % 10));
    assert(text@ =~= old(text)@ + digits(n as nat));
}

fn append_decimal(text: &mut String, n: i128)
    requires
        -0x1_0000_0000_0000_0000 < n < 0x1_0000_0000_0000_0000,
    ensures
        final(text)@ == old(text)@ + decimal(n as int),
{
    if n < 0 {
        proof {
            reveal_strlit("-");
        }
        text.append("-");
        append_digits(text, (-n) as u64);
        assert(text@ =~= old(text)@ + (seq!['-'] + digits((-n) as nat)));
    } else {
        append_digits(text, n as u64);
    }
}

/// Writes a whole number in decimal.
pub fn decimal_text(n: i64) -> (text: String)
    ensures
        text@ == decimal(n as int),
{
    let mut text = String::new();
    append_decimal(&mut text, n as i128);
    assert(text@ =~= decimal(n as int));
    text
}

fn controller_text(controller: Controller) -> (text: &'static str)
    ensures
        text@ == controller_label(controller),
{
    match controller {
        Controller::Human => "Human",
        Controller::Engine => "Computer",
    }
}

fn side_text(side: Side) -> (text: &'static str)
    ensures
        text@ == side_label(side),
{
    match side {
        Side::White => "White",
        Side::Black => "Black",
    }
}

/// Writes the line that says who plays whom.
pub fn turn_text(controllers: Controllers) -> (text: String)
    ensures
        text@ == turn_line(controllers),
{
    let mut text = String::from_str(controller_text(controllers.white));
    text.append(" (1) vs ");
    text.append(controller_text(controllers.black));
    text.append(" (2)");
    text
}

/// Writes the line that gives the time per move.
pub fn time_text(millis: u32) -> (text: String)
    ensures
        text@ == time_line(millis as nat),
{
    let mut text = String::from_str("Secs per move: ");
    let whole: u64 = (millis / 1000) as u64;
    let tenths: u64 = (millis % 1000 / 100) as u64;
    append_digits(&mut text, whole);
    text.append(".");
    text.append(digit_text(tenths));
    text
}

/// Writes the line that names the side to move.
pub fn next_text(side: Side) -> (text: String)
    ensures
        text@ == next_line(side),
{
    let mut text = String::from_str("Next move: ");
    text.append(side_text(side));
    text
}

/// Writes what follows the description of an engine's move.
pub fn annotation_text(score: i64, mate: MateScores) -> (text: String)
    ensures
        text@ == annotation(score, mate),
{
    let mut text = String::from_str(" (score: ");
    append_decimal(&mut text, score as i128);
    text.append(")");
    let ghost head = text@;
    if score == mate.forced_mate {
        text.append(" Checkmate, game terminated!");
    } else if score > mate.mate_imminent {
        text.append(" Checkmate in ");
        let gap: i128 = mate.forced_mate as i128 - score as i128;
        let half: i128 = if gap >= 0 {
            gap / 2
        } else {
            -((-gap) / 2)
        };
        append_decimal(&mut text, half);
        assert(text@ =~= head + (" Checkmate in "@ + decimal(halved(mate.forced_mate - score))));
    } else {
        assert(text@ =~= head + Seq::<char>::empty());
    }
    text
}

} // verus!
