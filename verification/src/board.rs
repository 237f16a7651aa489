//! The board: nine cells in row-major order, and the marks they hold.

use vstd::prelude::*;
use vstd::string::StringExecFns;

verus! {

/// What a cell holds.
#[derive(Debug, Clone, Copy, PartialEq, Eq, Structural)]
pub enum Mark {
    Empty,
    X,
    O,
}

/// The number of places of `items` that hold `item`.
pub open spec fn occurrences<T>(items: Seq<T>, item: T) -> nat
    decreases items.len(),
{
    if items.len() == 0 {
        0
    } else {
        occurrences(items.drop_last(), item) + if items.last() == item {
            1nat
        } else {
            0nat
        }
    }
}

/// The mark of the other player. `Empty` belongs to no player and is returned as it is.
pub open spec fn opponent(mark: Mark) -> Mark {
    match mark {
        Mark::X => Mark::O,
        Mark::O => Mark::X,
        Mark::Empty => Mark::Empty,
    }
}

/// Neither player is more than one mark ahead of the other.
pub open spec fn balanced(cells: Seq<Mark>) -> bool {
    let lead = occurrences(cells, Mark::X) - occurrences(cells, Mark::O);
    -1 <= lead <= 1
}

/// The index of the first cell of `cells` that is empty, or `cells.len()` if none is.
pub open spec fn first_empty(cells: Seq<Mark>) -> int
    decreases cells.len(),
{
    if cells.len() == 0 {
        0
    } else if cells.first() == Mark::Empty {
        0
    } else {
        1 + first_empty(cells.drop_first())
    }
}

/// The cells of a board on which nothing has been placed.
pub open spec fn empty_cells() -> Seq<Mark> {
    Seq::new(9, |k: int| Mark::Empty)
}

/// No cell is empty.
pub open spec fn is_full(cells: Seq<Mark>) -> bool {
    first_empty(cells) >= cells.len()
}

/// Why a mark was not placed.
#[derive(Debug, Clone, Copy, PartialEq, Eq, Structural)]
pub enum PlaceError {
    /// X asked to move while ahead of O.
    TurnOfO,
    /// O asked to move while ahead of X.
    TurnOfX,
    /// No cell is empty.
    BoardFull,
}

/// The words in which an error is told to a player.
pub open spec fn error_text(error: PlaceError) -> Seq<char> {
    match error {
        PlaceError::TurnOfO => "It's O's turn!"@,
        PlaceError::TurnOfX => "It's X's turn!"@,
        PlaceError::BoardFull => "Full board"@,
    }
}

impl PlaceError {
    /// The words in which this error is told to a player.
    pub fn message(&self) -> (text: String)
        ensures
            text@ == error_text(*self),
    {
        match self {
            PlaceError::TurnOfO => String::from_str("It's O's turn!"),
            PlaceError::TurnOfX => String::from_str("It's X's turn!"),
            PlaceError::BoardFull => String::from_str("Full board"),
        }
    }
}

/// The error for a player who asks to place `mark` while ahead of the other.
pub open spec fn turn_error(mark: Mark) -> PlaceError {
    if mark == Mark::O {
        PlaceError::TurnOfX
    } else {
        PlaceError::TurnOfO
    }
}

/// What becomes of `cells` when the player of `mark` asks to move: the player
/// must not be ahead of the other, and then takes the first empty cell.
pub open spec fn try_place(cells: Seq<Mark>, mark: Mark) -> Result<Seq<Mark>, PlaceError> {
    if occurrences(cells, mark) > occurrences(cells, opponent(mark)) {
        Err(turn_error(mark))
    } else if is_full(cells) {
        Err(PlaceError::BoardFull)
    } else {
        Ok(cells.update(first_empty(cells), mark))
    }
}

/// `first_empty` is the least index of an empty cell, and the length where there is none.
pub proof fn lemma_first_empty(cells: Seq<Mark>)
    ensures
        0 <= first_empty(cells) <= cells.len(),
        first_empty(cells) < cells.len() ==> cells[first_empty(cells)] == Mark::Empty,
        forall|j: int| 0 <= j < first_empty(cells) ==> cells[j] != Mark::Empty,
    decreases cells.len(),
{
    if cells.len() > 0 && cells.first() != Mark::Empty {
        let rest = cells.drop_first();
        lemma_first_empty(rest);
        assert forall|j: int| 0 <= j < first_empty(cells) implies cells[j] != Mark::Empty by {
            if j > 0 {
                assert(cells[j] == rest[j - 1]);
            }
        }
    }
}

/// An item that no place holds occurs zero times.
pub proof fn lemma_no_occurrence<T>(items: Seq<T>, item: T)
    requires
        forall|i: int| 0 <= i < items.len() ==> items[i] != item,
    ensures
        occurrences(items, item) == 0,
    decreases items.len(),
{
    if items.len() > 0 {
        lemma_no_occurrence(items.drop_last(), item);
    }
}

/// Writing `mark` into cell `k` takes one from the count of what the cell held
/// and adds one to the count of `mark`.
pub proof fn lemma_count_update<T>(cells: Seq<T>, k: int, mark: T, of: T)
    requires
        0 <= k < cells.len(),
    ensures
        occurrences(cells.update(k, mark), of) == occurrences(cells, of) - (if cells[k] == of {
            1int
        } else {
            0int
        }) + (if mark == of {
            1int
        } else {
            0int
        }),
    decreases cells.len(),
{
    let after = cells.update(k, mark);
    if k == cells.len() - 1 {
        assert(after.drop_last() == cells.drop_last());
    } else {
        lemma_count_update(cells.drop_last(), k, mark, of);
        assert(after.drop_last() == cells.drop_last().update(k, mark));
    }
}

/// A placement that succeeds fills one empty cell with the player's mark: the
/// player's count grows by one and the other player's count stays.
pub proof fn lemma_placement_counts(cells: Seq<Mark>, mark: Mark)
    requires
        mark != Mark::Empty,
        try_place(cells, mark) is Ok,
    ensures
        try_place(cells, mark)->Ok_0.len() == cells.len(),
        occurrences(try_place(cells, mark)->Ok_0, mark) == occurrences(cells, mark) + 1,
        occurrences(try_place(cells, mark)->Ok_0, opponent(mark)) == occurrences(
            cells,
            opponent(mark),
        ),
        occurrences(try_place(cells, mark)->Ok_0, Mark::Empty) == occurrences(cells, Mark::Empty)
            - 1,
{
    lemma_first_empty(cells);
    let k = first_empty(cells);
    lemma_count_update(cells, k, mark, mark);
    lemma_count_update(cells, k, mark, opponent(mark));
    lemma_count_update(cells, k, mark, Mark::Empty);
}

/// After a placement that succeeds, neither player is more than one mark
/// ahead of the other, if neither was before.
pub proof fn lemma_placement_keeps_balance(cells: Seq<Mark>, mark: Mark)
    requires
        balanced(cells),
        mark != Mark::Empty,
        try_place(cells, mark) is Ok,
    ensures
        balanced(try_place(cells, mark)->Ok_0),
{
    lemma_placement_counts(cells, mark);
}

/// On the board with nothing placed the two players are level.
pub proof fn lemma_empty_cells_balanced()
    ensures
        balanced(empty_cells()),
        occurrences(empty_cells(), Mark::X) == 0,
        occurrences(empty_cells(), Mark::O) == 0,
{
    lemma_no_occurrence(empty_cells(), Mark::X);
    lemma_no_occurrence(empty_cells(), Mark::O);
}

/// A board of three rows and three columns.
#[derive(Debug)]
pub struct Board {
    marks: [[Mark; 3]; 3],
}

impl View for Board {
    type V = Seq<Mark>;

    /// The nine cells in row-major order: the cell of row `r` and column `c` is at `3 * r + c`.
    closed spec fn view(&self) -> Seq<Mark> {
        Seq::new(9, |k: int| self.marks[k / 3][k % 3])
    }
}

impl Clone for Board {
    /// A board of its own with the same cells.
    fn clone(&self) -> (copy: Board)
        ensures
            copy@ == self@,
    {
        Board { marks: self.marks }
    }
}

impl Board {
    /// Every board has nine cells.
    pub proof fn lemma_nine_cells(self)
        ensures
            self@.len() == 9,
    {
    }

    /// The board with all nine cells empty.
    pub fn new() -> (board: Board)
        ensures
            board@ == empty_cells(),
            balanced(board@),
    {
        let board = Board {
            marks: [
                [Mark::Empty, Mark::Empty, Mark::Empty],
                [Mark::Empty, Mark::Empty, Mark::Empty],
                [Mark::Empty, Mark::Empty, Mark::Empty],
            ],
        };
        proof {
            assert(board@ == empty_cells());
            lemma_empty_cells_balanced();
        }
        board
    }

    /// The mark in the cell of row `row` and column `col`, both counted from zero.
    pub fn cell(&self, row: usize, col: usize) -> (mark: Mark)
        requires
            row < 3,
            col < 3,
        ensures
            mark == self@[3 * row + col],
    {
        self.marks[row][col]
    }

    /// The number of cells that hold `mark`.
    pub fn count(&self, mark: &Mark) -> (n: usize)
        ensures
            n == occurrences(self@, *mark),
    {
        let mut n: usize = 0;
        let mut k: usize = 0;
        while k < 9
            invariant
                k <= 9,
                n <= k,
                n == occurrences(self@.take(k as int), *mark),
            decreases 9 - k,
        {
            assert(self@.take(k as int + 1).drop_last() == self@.take(k as int));
            if self.marks[k / 3][k % 3] == *mark {
                n = n + 1;
            }
            k = k + 1;
        }
        assert(self@.take(9) == self@);
        n
    }

    /// Writes `mark` into the first empty cell in row-major order, if there is one,
    /// and says whether it did.
    fn fill_first_empty(&mut self, mark: Mark) -> (filled: bool)
        ensures
            filled == (first_empty(old(self)@) < 9),
            filled ==> final(self)@ == old(self)@.update(first_empty(old(self)@), mark),
            !filled ==> final(self)@ == old(self)@,
    {
        proof {
            lemma_first_empty(self@);
        }
        let mut k: usize = 0;
        while k < 9
            invariant
                k <= 9,
                *self == *old(self),
                k <= first_empty(self@) <= 9,
            decreases 9 - k,
        {
            proof {
                lemma_first_empty(self@);
                assert(self@[k as int] == self.marks[k as int / 3][k as int % 3]);
            }
            if self.marks[k / 3][k % 3] == Mark::Empty {
                self.marks[k / 3][k % 3] = mark;
                assert(self@ == old(self)@.update(k as int, mark));
                return true;
            }
            k = k + 1;
        }
        false
    }

    /// Places an X in the first empty cell in row-major order, unless X is ahead
    /// of O or no cell is empty; the board is then left as it was.
    pub fn place_next_x(&mut self) -> (result: Result<(), PlaceError>)
        ensures
            match try_place(old(self)@, Mark::X) {
                Ok(cells) => result == Ok::<(), PlaceError>(()) && final(self)@ == cells,
                Err(e) => result == Err::<(), PlaceError>(e) && final(self)@ == old(self)@,
            },
            balanced(old(self)@) ==> balanced(final(self)@),
    {
        proof {
            if balanced(self@) && try_place(self@, Mark::X) is Ok {
                lemma_placement_keeps_balance(self@, Mark::X);
            }
        }
        if self.count(&Mark::X) > self.count(&Mark::O) {
            return Err(PlaceError::TurnOfO);
        }
        if self.fill_first_empty(Mark::X) {
            Ok(())
        } else {
            Err(PlaceError::BoardFull)
        }
    }

    /// Places an O in the first empty cell in row-major order, unless O is ahead
    /// of X or no cell is empty; the board is then left as it was.
    pub fn place_next_o(&mut self) -> (result: Result<(), PlaceError>)
        ensures
            match try_place(old(self)@, Mark::O) {
                Ok(cells) => result == Ok::<(), PlaceError>(()) && final(self)@ == cells,
                Err(e) => result == Err::<(), PlaceError>(e) && final(self)@ == old(self)@,
            },
            balanced(old(self)@) ==> balanced(final(self)@),
    {
        proof {
            if balanced(self@) && try_place(self@, Mark::O) is Ok {
                lemma_placement_keeps_balance(self@, Mark::O);
            }
        }
        if self.count(&Mark::O) > self.count(&Mark::X) {
            return Err(PlaceError::TurnOfX);
        }
        if self.fill_first_empty(Mark::O) {
            Ok(())
        } else {
            Err(PlaceError::BoardFull)
        }
    }
}

} // verus!
