//! The text in which a board is shown to the players.

use crate::board::{occurrences, Board, Mark};
use vstd::prelude::*;
use vstd::string::StringExecFns;

verus! {

/// How one mark is written.
pub open spec fn mark_text(mark: Mark) -> Seq<char> {
    match mark {
        Mark::Empty => "Empty"@,
        Mark::X => "X"@,
        Mark::O => "O"@,
    }
}

/// What is written before cell `k`: the opening before the first cell, the
/// turn of a row before a cell that starts one, a comma elsewhere.
pub open spec fn lead_text(k: int) -> Seq<char> {
    if k == 0 {
        "Board { marks: [["@
    } else if k % 3 == 0 {
        "], ["@
    } else {
        ", "@
    }
}

/// The text of the first `n` cells, each after its lead.
pub open spec fn cells_text(cells: Seq<Mark>, n: nat) -> Seq<char>
    decreases n,
{
    if n == 0 {
        Seq::empty()
    } else {
        cells_text(cells, (n - 1) as nat) + lead_text(n - 1) + mark_text(cells[n - 1])
    }
}

/// The text of a board of nine cells: the cells in row-major order, three to a row.
pub open spec fn render_text(cells: Seq<Mark>) -> Seq<char> {
    cells_text(cells, 9) + "]] }"@
}

/// What follows `head` in `text`, if `text` begins with `head`.
pub open spec fn after_head(text: Seq<char>, head: Seq<char>) -> Option<Seq<char>> {
    if head.is_prefix_of(text) {
        Some(text.skip(head.len() as int))
    } else {
        None
    }
}

/// The mark that `text` begins with, and what follows it.
pub open spec fn read_mark(text: Seq<char>) -> Option<(Mark, Seq<char>)> {
    if after_head(text, mark_text(Mark::X)) is Some {
        Some((Mark::X, after_head(text, mark_text(Mark::X))->Some_0))
    } else if after_head(text, mark_text(Mark::O)) is Some {
        Some((Mark::O, after_head(text, mark_text(Mark::O))->Some_0))
    } else if after_head(text, mark_text(Mark::Empty)) is Some {
        Some((Mark::Empty, after_head(text, mark_text(Mark::Empty))->Some_0))
    } else {
        None
    }
}

/// The cells from cell `k` on that `text` shows, where `text` is what a
/// render holds from the lead of cell `k` to its end; `None` where `text` is
/// no such thing.
pub open spec fn read_cells(text: Seq<char>, k: nat) -> Option<Seq<Mark>>
    decreases 9 - k,
{
    if k >= 9 {
        if text == "]] }"@ {
            Some(Seq::empty())
        } else {
            None
        }
    } else {
        match after_head(text, lead_text(k as int)) {
            None => None,
            Some(from_mark) => match read_mark(from_mark) {
                None => None,
                Some((mark, rest)) => match read_cells(rest, k + 1) {
                    None => None,
                    Some(marks) => Some(seq![mark] + marks),
                },
            },
        }
    }
}

/// The nine cells that `text` shows, if it is the text of a board.
pub open spec fn cells_of_text(text: Seq<char>) -> Option<Seq<Mark>> {
    read_cells(text, 0)
}

impl Board {
    /// The board as text, the same for the same cells.
    pub fn render(&self) -> (text: String)
        ensures
            text@ == render_text(self@),
    {
        let mut text = String::new();
        let mut k: usize = 0;
        while k < 9
            invariant
                k <= 9,
                text@ == cells_text(self@, k as nat),
            decreases 9 - k,
        {
            if k == 0 {
                text.append("Board { marks: [[");
            } else if k % 3 == 0 {
                text.append("], [");
            } else {
                text.append(", ");
            }
            match self.cell(k / 3, k % 3) {
                Mark::Empty => text.append("Empty"),
                Mark::X => text.append("X"),
                Mark::O => text.append("O"),
            }
            k = k + 1;
        }
        text.append("]] }");
        text
    }
}

} // verus!
