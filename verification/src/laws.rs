//! What holds of every board and of every run of commands.

use crate::board::{
    balanced, empty_cells, error_text, first_empty, is_full, lemma_empty_cells_balanced,
    lemma_first_empty, lemma_no_occurrence, lemma_placement_counts,
    lemma_placement_keeps_balance, occurrences, opponent, try_place, Mark, PlaceError,
};
use crate::render::{
    after_head, cells_of_text, cells_text, lead_text, mark_text, read_cells, read_mark,
    render_text,
};
use crate::session::{command_of, respond, Command};
use vstd::prelude::*;

verus! {

/// The cells after each of `commands` was carried out in turn, from `cells` on.
pub open spec fn run(cells: Seq<Mark>, commands: Seq<Command>) -> Seq<Mark>
    decreases commands.len(),
{
    if commands.len() == 0 {
        cells
    } else {
        respond(run(cells, commands.drop_last()), commands.last()).0
    }
}

/// Whether `command` places a mark on `cells`.
pub open spec fn places(cells: Seq<Mark>, command: Command) -> bool {
    match command {
        Command::PlaceX => try_place(cells, Mark::X) is Ok,
        Command::PlaceO => try_place(cells, Mark::O) is Ok,
        Command::Peek => false,
    }
}

/// The number of `commands` that place a mark when they are carried out in
/// turn, from `cells` on.
pub open spec fn placements(cells: Seq<Mark>, commands: Seq<Command>) -> nat
    decreases commands.len(),
{
    if commands.len() == 0 {
        0
    } else {
        placements(cells, commands.drop_last()) + if places(
            run(cells, commands.drop_last()),
            commands.last(),
        ) {
            1nat
        } else {
            0nat
        }
    }
}

/// No command lets a player get more than one mark ahead of the other.
pub proof fn lemma_command_keeps_balance(cells: Seq<Mark>, command: Command)
    requires
        balanced(cells),
    ensures
        balanced(respond(cells, command).0),
{
    match command {
        Command::PlaceX => {
            if try_place(cells, Mark::X) is Ok {
                lemma_placement_keeps_balance(cells, Mark::X);
            }
        },
        Command::PlaceO => {
            if try_place(cells, Mark::O) is Ok {
                lemma_placement_keeps_balance(cells, Mark::O);
            }
        },
        Command::Peek => {},
    }
}

/// Whatever commands are sent, in whatever order, from the board with nothing
/// placed: after each of them neither player is more than one mark ahead of
/// the other.
pub proof fn lemma_run_balanced(commands: Seq<Command>)
    ensures
        balanced(run(empty_cells(), commands)),
    decreases commands.len(),
{
    if commands.len() == 0 {
        lemma_empty_cells_balanced();
    } else {
        lemma_run_balanced(commands.drop_last());
        lemma_command_keeps_balance(run(empty_cells(), commands.drop_last()), commands.last());
    }
}

/// A text that is neither `x` nor `o`, in either case, changes no cell, and
/// so neither player's count.
pub proof fn lemma_peek_changes_nothing(cells: Seq<Mark>, input: Seq<char>)
    requires
        input != seq!['x'],
        input != seq!['X'],
        input != seq!['o'],
        input != seq!['O'],
    ensures
        respond(cells, command_of(input)).0 == cells,
        respond(cells, command_of(input)).1 == render_text(cells),
        occurrences(respond(cells, command_of(input)).0, Mark::X) == occurrences(cells, Mark::X),
        occurrences(respond(cells, command_of(input)).0, Mark::O) == occurrences(cells, Mark::O),
{
    if input.len() == 1 {
        assert(input =~= seq![input[0]]);
    }
}

/// Every cell holds an X, an O or nothing: the three counts add up to the
/// number of cells.
pub proof fn lemma_counts_add_up(cells: Seq<Mark>)
    ensures
        occurrences(cells, Mark::X) + occurrences(cells, Mark::O) + occurrences(
            cells,
            Mark::Empty,
        ) == cells.len(),
    decreases cells.len(),
{
    if cells.len() > 0 {
        lemma_counts_add_up(cells.drop_last());
    }
}

/// What a place holds occurs at least once.
pub proof fn lemma_occurs<T>(items: Seq<T>, i: int)
    requires
        0 <= i < items.len(),
    ensures
        occurrences(items, items[i]) >= 1,
    decreases items.len(),
{
    if i < items.len() - 1 {
        lemma_occurs(items.drop_last(), i);
    }
}

/// A board is full exactly when nothing is counted as empty.
pub proof fn lemma_full_means_none_empty(cells: Seq<Mark>)
    ensures
        is_full(cells) <==> occurrences(cells, Mark::Empty) == 0,
{
    lemma_first_empty(cells);
    if is_full(cells) {
        lemma_no_occurrence(cells, Mark::Empty);
    } else {
        lemma_occurs(cells, first_empty(cells));
    }
}

/// From the board with nothing placed, the marks on the board are as many as
/// the commands that placed one, and the board keeps its nine cells.
pub proof fn lemma_run_counts(commands: Seq<Command>)
    ensures
        run(empty_cells(), commands).len() == 9,
        occurrences(run(empty_cells(), commands), Mark::X) + occurrences(
            run(empty_cells(), commands),
            Mark::O,
        ) == placements(empty_cells(), commands),
    decreases commands.len(),
{
    if commands.len() == 0 {
        lemma_empty_cells_balanced();
    } else {
        lemma_run_counts(commands.drop_last());
        let before = run(empty_cells(), commands.drop_last());
        match commands.last() {
            Command::PlaceX => {
                if try_place(before, Mark::X) is Ok {
                    lemma_placement_counts(before, Mark::X);
                }
            },
            Command::PlaceO => {
                if try_place(before, Mark::O) is Ok {
                    lemma_placement_counts(before, Mark::O);
                }
            },
            Command::Peek => {},
        }
    }
}

/// No more than nine commands place a mark, and once nine have, no cell is
/// empty.
pub proof fn lemma_nine_placements_fill(commands: Seq<Command>)
    ensures
        placements(empty_cells(), commands) <= 9,
        placements(empty_cells(), commands) == 9 <==> is_full(run(empty_cells(), commands)),
{
    let cells = run(empty_cells(), commands);
    lemma_run_counts(commands);
    lemma_counts_add_up(cells);
    lemma_full_means_none_empty(cells);
}

/// A full board is never changed again, whatever is sent.
pub proof fn lemma_full_board_stays(cells: Seq<Mark>, command: Command)
    requires
        is_full(cells),
    ensures
        respond(cells, command).0 == cells,
{
}

/// After nine placements, a player who is not ahead of the other and asks
/// for a further mark is told that the board is full, and the board stays as
/// it is. (The player who is ahead is told whose turn it is.)
pub proof fn lemma_full_board_answer(commands: Seq<Command>, mark: Mark)
    requires
        placements(empty_cells(), commands) == 9,
        mark != Mark::Empty,
        occurrences(run(empty_cells(), commands), mark) <= occurrences(
            run(empty_cells(), commands),
            opponent(mark),
        ),
    ensures
        respond(
            run(empty_cells(), commands),
            if mark == Mark::X {
                Command::PlaceX
            } else {
                Command::PlaceO
            },
        ) == (run(empty_cells(), commands), error_text(PlaceError::BoardFull)),
{
    lemma_nine_placements_fill(commands);
}

/// The occurrences in a text of two parts are those in the one part and
/// those in the other.
pub proof fn lemma_occurrences_concat<T>(a: Seq<T>, b: Seq<T>, item: T)
    ensures
        occurrences(a + b, item) == occurrences(a, item) + occurrences(b, item),
    decreases b.len(),
{
    if b.len() == 0 {
        assert(a + b == a);
    } else {
        lemma_occurrences_concat(a, b.drop_last(), item);
        assert((a + b).drop_last() == a + b.drop_last());
    }
}

/// The capital letters X and O are written in no lead, and in the text of a
/// mark only where the mark is that letter's.
proof fn lemma_letters(k: int, mark: Mark)
    ensures
        occurrences(lead_text(k), 'X') == 0,
        occurrences(lead_text(k), 'O') == 0,
        occurrences(mark_text(mark), 'X') == if mark == Mark::X {
            1nat
        } else {
            0nat
        },
        occurrences(mark_text(mark), 'O') == if mark == Mark::O {
            1nat
        } else {
            0nat
        },
{
    reveal_strlit("Board { marks: [[");
    reveal_strlit("], [");
    reveal_strlit(", ");
    reveal_strlit("Empty");
    reveal_strlit("X");
    reveal_strlit("O");
    lemma_no_occurrence(lead_text(k), 'X');
    lemma_no_occurrence(lead_text(k), 'O');
    match mark {
        Mark::Empty => {
            lemma_no_occurrence("Empty"@, 'X');
            lemma_no_occurrence("Empty"@, 'O');
        },
        Mark::X => {
            lemma_no_occurrence("X"@, 'O');
            assert(occurrences("X"@, 'X') == 1) by {
                reveal_with_fuel(occurrences, 2);
            }
        },
        Mark::O => {
            lemma_no_occurrence("O"@, 'X');
            assert(occurrences("O"@, 'O') == 1) by {
                reveal_with_fuel(occurrences, 2);
            }
        },
    }
}

/// In the text of the first `n` cells the capital letters X and O are
/// written as often as those cells hold an X and an O.
proof fn lemma_cells_text_counts(cells: Seq<Mark>, n: nat)
    requires
        n <= cells.len(),
    ensures
        occurrences(cells_text(cells, n), 'X') == occurrences(cells.take(n as int), Mark::X),
        occurrences(cells_text(cells, n), 'O') == occurrences(cells.take(n as int), Mark::O),
    decreases n,
{
    if n > 0 {
        let before = cells_text(cells, (n - 1) as nat);
        let lead = lead_text(n - 1);
        let written = mark_text(cells[n - 1]);
        lemma_cells_text_counts(cells, (n - 1) as nat);
        lemma_letters(n - 1, cells[n - 1]);
        lemma_occurrences_concat(before, lead, 'X');
        lemma_occurrences_concat(before, lead, 'O');
        lemma_occurrences_concat(before + lead, written, 'X');
        lemma_occurrences_concat(before + lead, written, 'O');
        assert(cells.take(n as int).drop_last() == cells.take(n - 1));
    }
}

/// Counting the capital letters X and O in the text of a board gives back
/// the number of cells that hold an X and the number that hold an O.
pub proof fn lemma_render_keeps_counts(cells: Seq<Mark>)
    requires
        cells.len() == 9,
    ensures
        occurrences(render_text(cells), 'X') == occurrences(cells, Mark::X),
        occurrences(render_text(cells), 'O') == occurrences(cells, Mark::O),
{
    reveal_strlit("]] }");
    lemma_cells_text_counts(cells, 9);
    lemma_no_occurrence("]] }"@, 'X');
    lemma_no_occurrence("]] }"@, 'O');
    lemma_occurrences_concat(cells_text(cells, 9), "]] }"@, 'X');
    lemma_occurrences_concat(cells_text(cells, 9), "]] }"@, 'O');
    assert(cells.take(9) == cells);
}

/// What a render holds from the lead of cell `k` to its end.
spec fn tail_text(cells: Seq<Mark>, k: nat) -> Seq<char>
    decreases 9 - k,
{
    if k >= 9 {
        "]] }"@
    } else {
        lead_text(k as int) + (mark_text(cells[k as int]) + tail_text(cells, k + 1))
    }
}

/// The text of the first `k` cells and the text from cell `k` on make up the
/// render.
proof fn lemma_tail_completes(cells: Seq<Mark>, k: nat)
    requires
        k <= 9,
    ensures
        cells_text(cells, k) + tail_text(cells, k) == render_text(cells),
    decreases 9 - k,
{
    if k < 9 {
        lemma_tail_completes(cells, k + 1);
        assert(cells_text(cells, k + 1) + tail_text(cells, k + 1) == cells_text(cells, k)
            + tail_text(cells, k));
    }
}

/// A text that begins with `head` is read as what follows `head`.
proof fn lemma_after_head(head: Seq<char>, rest: Seq<char>)
    ensures
        after_head(head + rest, head) == Some(rest),
{
    assert((head + rest).subrange(0, head.len() as int) == head);
    assert((head + rest).skip(head.len() as int) == rest);
}

/// A mark that is written is read as that mark.
proof fn lemma_read_mark(mark: Mark, rest: Seq<char>)
    ensures
        read_mark(mark_text(mark) + rest) == Some((mark, rest)),
{
    reveal_strlit("Empty");
    reveal_strlit("X");
    reveal_strlit("O");
    let text = mark_text(mark) + rest;
    lemma_after_head(mark_text(mark), rest);
    assert(text[0] == mark_text(mark)[0]);
    if mark != Mark::X {
        assert(!mark_text(Mark::X).is_prefix_of(text)) by {
            if mark_text(Mark::X).is_prefix_of(text) {
                assert(text.subrange(0, 1)[0] == 'X');
            }
        }
    }
    if mark == Mark::Empty {
        assert(!mark_text(Mark::O).is_prefix_of(text)) by {
            if mark_text(Mark::O).is_prefix_of(text) {
                assert(text.subrange(0, 1)[0] == 'O');
            }
        }
    }
}

/// What a render holds from cell `k` on is read as the cells from `k` on.
proof fn lemma_read_tail(cells: Seq<Mark>, k: nat)
    requires
        cells.len() == 9,
        k <= 9,
    ensures
        read_cells(tail_text(cells, k), k) == Some(cells.skip(k as int)),
    decreases 9 - k,
{
    if k < 9 {
        let written = mark_text(cells[k as int]);
        let rest = tail_text(cells, k + 1);
        lemma_read_tail(cells, k + 1);
        lemma_after_head(lead_text(k as int), written + rest);
        lemma_read_mark(cells[k as int], rest);
        assert(seq![cells[k as int]] + cells.skip(k as int + 1) == cells.skip(k as int));
    } else {
        assert(cells.skip(9) == Seq::<Mark>::empty());
    }
}

/// The text of a board shows its cells: reading the render cell by cell
/// gives back the nine cells, and with them every count.
pub proof fn lemma_render_round_trip(cells: Seq<Mark>)
    requires
        cells.len() == 9,
    ensures
        cells_of_text(render_text(cells)) == Some(cells),
        occurrences(cells_of_text(render_text(cells))->Some_0, Mark::X) == occurrences(
            cells,
            Mark::X,
        ),
        occurrences(cells_of_text(render_text(cells))->Some_0, Mark::O) == occurrences(
            cells,
            Mark::O,
        ),
{
    lemma_tail_completes(cells, 0);
    assert(cells_text(cells, 0) + tail_text(cells, 0) == tail_text(cells, 0));
    lemma_read_tail(cells, 0);
    assert(cells.skip(0) == cells);
}

} // verus!
