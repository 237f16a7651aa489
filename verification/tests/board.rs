use tictactoe_ws::board::{Board, Mark, PlaceError};

fn lead(board: &Board) -> i64 {
    board.count(&Mark::X) as i64 - board.count(&Mark::O) as i64
}

fn filled_board() -> Board {
    let mut board = Board::new();
    for turn in 0..9 {
        let placed = if turn % 2 == 0 { board.place_next_x() } else { board.place_next_o() };
        assert_eq!(placed, Ok(()));
    }
    board
}

#[test]
fn new_board_is_all_empty() {
    let board = Board::new();
    assert_eq!(board.count(&Mark::Empty), 9);
    assert_eq!(board.count(&Mark::X), 0);
    assert_eq!(board.count(&Mark::O), 0);
    for row in 0..3 {
        for col in 0..3 {
            assert_eq!(board.cell(row, col), Mark::Empty);
        }
    }
}

#[test]
fn x_takes_the_first_cell_of_a_fresh_board() {
    let mut board = Board::new();
    assert_eq!(board.place_next_x(), Ok(()));
    assert_eq!(board.cell(0, 0), Mark::X);
    assert_eq!(board.count(&Mark::X), 1);
    assert_eq!(board.count(&Mark::Empty), 8);
}

#[test]
fn marks_fill_the_cells_in_row_major_order() {
    let mut board = Board::new();
    let mut expected = Vec::new();
    for turn in 0..9 {
        let mark = if turn % 2 == 0 { Mark::X } else { Mark::O };
        let placed = if turn % 2 == 0 { board.place_next_x() } else { board.place_next_o() };
        assert_eq!(placed, Ok(()));
        expected.push(mark);
        for (k, want) in expected.iter().enumerate() {
            assert_eq!(board.cell(k / 3, k % 3), *want);
        }
        assert_eq!(board.count(&Mark::Empty), 8 - turn);
    }
    assert_eq!(board.cell(1, 0), Mark::O);
    assert_eq!(board.cell(2, 2), Mark::X);
}

#[test]
fn x_ahead_of_o_is_told_to_wait() {
    let mut board = Board::new();
    assert_eq!(board.place_next_x(), Ok(()));
    assert_eq!(board.place_next_x(), Err(PlaceError::TurnOfO));
    assert_eq!(board.count(&Mark::X), 1);
    assert_eq!(board.cell(0, 1), Mark::Empty);
}

#[test]
fn o_ahead_of_x_is_told_to_wait() {
    let mut board = Board::new();
    assert_eq!(board.place_next_o(), Ok(()));
    assert_eq!(board.place_next_o(), Err(PlaceError::TurnOfX));
    assert_eq!(board.count(&Mark::O), 1);
    assert_eq!(board.cell(0, 1), Mark::Empty);
}

#[test]
fn either_player_may_move_when_the_counts_are_equal() {
    let mut board = Board::new();
    assert_eq!(board.place_next_o(), Ok(()));
    assert_eq!(board.cell(0, 0), Mark::O);
    assert_eq!(board.place_next_x(), Ok(()));
    assert_eq!(board.place_next_x(), Ok(()));
    assert_eq!(board.cell(0, 1), Mark::X);
    assert_eq!(board.cell(0, 2), Mark::X);
    assert_eq!(board.place_next_x(), Err(PlaceError::TurnOfO));
}

#[test]
fn full_board_takes_no_further_mark() {
    let mut board = filled_board();
    let before = board.render();
    assert_eq!(board.count(&Mark::Empty), 0);
    assert_eq!(board.count(&Mark::X), 5);
    assert_eq!(board.count(&Mark::O), 4);
    assert_eq!(board.place_next_o(), Err(PlaceError::BoardFull));
    assert_eq!(board.place_next_x(), Err(PlaceError::TurnOfO));
    assert_eq!(board.render(), before);
}

#[test]
fn the_turn_is_tested_before_the_room() {
    let mut board = Board::new();
    assert_eq!(board.place_next_o(), Ok(()));
    for turn in 0..8 {
        let placed = if turn % 2 == 0 { board.place_next_x() } else { board.place_next_o() };
        assert_eq!(placed, Ok(()));
    }
    assert_eq!(board.count(&Mark::O), 5);
    assert_eq!(board.place_next_o(), Err(PlaceError::TurnOfX));
    assert_eq!(board.place_next_x(), Err(PlaceError::BoardFull));
}

#[test]
fn no_player_gets_more_than_one_ahead() {
    let moves = "xxoxooxoxxooooxxxoxoxoxoxxoo";
    let mut board = Board::new();
    assert_eq!(lead(&board), 0);
    for letter in moves.chars() {
        let before = (board.count(&Mark::X), board.count(&Mark::O));
        let placed = if letter == 'x' { board.place_next_x() } else { board.place_next_o() };
        let after = (board.count(&Mark::X), board.count(&Mark::O));
        assert!(lead(&board).abs() <= 1);
        match placed {
            Ok(()) => assert_eq!(after.0 + after.1, before.0 + before.1 + 1),
            Err(_) => assert_eq!(after, before),
        }
    }
    assert_eq!(board.count(&Mark::Empty), 0);
}

#[test]
fn error_messages_are_the_fixed_texts() {
    assert_eq!(PlaceError::TurnOfO.message(), "It's O's turn!");
    assert_eq!(PlaceError::TurnOfX.message(), "It's X's turn!");
    assert_eq!(PlaceError::BoardFull.message(), "Full board");
}

#[test]
fn render_of_a_fresh_board() {
    assert_eq!(
        Board::new().render(),
        "Board { marks: [[Empty, Empty, Empty], [Empty, Empty, Empty], [Empty, Empty, Empty]] }"
    );
}

#[test]
fn render_of_a_full_board() {
    assert_eq!(
        filled_board().render(),
        "Board { marks: [[X, O, X], [O, X, O], [X, O, X]] }"
    );
}

#[test]
fn render_is_the_debug_text_of_the_board() {
    let mut board = Board::new();
    assert_eq!(board.render(), format!("{:?}", board));
    for turn in 0..9 {
        let placed = if turn % 2 == 0 { board.place_next_x() } else { board.place_next_o() };
        assert_eq!(placed, Ok(()));
        assert_eq!(board.render(), format!("{:?}", board));
    }
}

#[test]
fn letters_in_the_render_give_the_counts_back() {
    let mut board = Board::new();
    for turn in 0..10 {
        let text = board.render();
        assert_eq!(text.matches('X').count(), board.count(&Mark::X));
        assert_eq!(text.matches('O').count(), board.count(&Mark::O));
        assert_eq!(text.matches("Empty").count(), board.count(&Mark::Empty));
        let cells: Vec<&str> = text
            .split(|c: char| !c.is_ascii_alphabetic())
            .filter(|word| *word == "X" || *word == "O" || *word == "Empty")
            .collect();
        assert_eq!(cells.len(), 9);
        for (k, word) in cells.iter().enumerate() {
            let want = match board.cell(k / 3, k % 3) {
                Mark::Empty => "Empty",
                Mark::X => "X",
                Mark::O => "O",
            };
            assert_eq!(*word, want);
        }
        let _ = if turn % 2 == 0 { board.place_next_x() } else { board.place_next_o() };
    }
}

#[test]
fn a_clone_is_a_board_of_its_own() {
    let mut board = Board::new();
    assert_eq!(board.place_next_x(), Ok(()));
    let copy = board.clone();
    assert_eq!(board.place_next_o(), Ok(()));
    assert_eq!(copy.count(&Mark::O), 0);
    assert_eq!(copy.cell(0, 0), Mark::X);
    assert_eq!(board.cell(0, 1), Mark::O);
}
