//! The session: what a player's command does to the shared board, and what
//! the player is told.

use crate::board::{balanced, error_text, try_place, Board, Mark, PlaceError};
use crate::render::render_text;
use vstd::prelude::*;
use vstd::string::StrSliceExecFns;

verus! {

/// What a player asks for.
#[derive(Debug, Clone, Copy, PartialEq, Eq, Structural)]
pub enum Command {
    /// Place the next X.
    PlaceX,
    /// Place the next O.
    PlaceO,
    /// Show the board as it is.
    Peek,
}

/// The command that `input` stands for: the one letter `x` or `o`, in either
/// case, asks for a mark; every other text asks for the board as it is.
pub open spec fn command_of(input: Seq<char>) -> Command {
    if input.len() == 1 && (input[0] == 'x' || input[0] == 'X') {
        Command::PlaceX
    } else if input.len() == 1 && (input[0] == 'o' || input[0] == 'O') {
        Command::PlaceO
    } else {
        Command::Peek
    }
}

/// The cells after `command` and the answer to it: a placement that succeeds
/// and a peek are answered with the board, a placement that fails with its
/// error, and only a placement that succeeds changes the cells.
pub open spec fn respond(cells: Seq<Mark>, command: Command) -> (Seq<Mark>, Seq<char>) {
    let attempt = match command {
        Command::PlaceX => try_place(cells, Mark::X),
        Command::PlaceO => try_place(cells, Mark::O),
        Command::Peek => Ok(cells),
    };
    match attempt {
        Ok(after) => (after, render_text(after)),
        Err(error) => (cells, error_text(error)),
    }
}

impl Command {
    /// Reads a command from the text that a player sent.
    pub fn parse(input: &str) -> (command: Command)
        ensures
            command == command_of(input@),
    {
        if input.unicode_len() != 1 {
            return Command::Peek;
        }
        let letter = input.get_char(0);
        if letter == 'x' || letter == 'X' {
            Command::PlaceX
        } else if letter == 'o' || letter == 'O' {
            Command::PlaceO
        } else {
            Command::Peek
        }
    }
}

/// Carries out on `board` the command that `input` stands for, and returns
/// the answer for the player who sent it.
pub fn process(board: &mut Board, input: &str) -> (answer: String)
    ensures
        (final(board)@, answer@) == respond(old(board)@, command_of(input@)),
        balanced(old(board)@) ==> balanced(final(board)@),
{
    let outcome = match Command::parse(input) {
        Command::PlaceX => board.place_next_x(),
        Command::PlaceO => board.place_next_o(),
        Command::Peek => Ok(()),
    };
    match outcome {
        Ok(()) => board.render(),
        Err(error) => error.message(),
    }
}

} // verus!
