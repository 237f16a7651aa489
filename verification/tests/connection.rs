use tictactoe_ws::board::Board;
use tictactoe_ws::connection::{step, Action, ConnectionState, Event};
use tictactoe_ws::session::process;

#[test]
fn an_open_connection_answers_a_frame_and_stays_open() {
    let (state, action) = step(ConnectionState::Open, Event::Frame(String::from("x")));
    assert_eq!(state, ConnectionState::Open);
    match action {
        Action::Answer(text) => assert_eq!(text, "x"),
        Action::Release => panic!("a frame on an open connection is answered"),
    }
}

#[test]
fn the_end_of_the_stream_closes_the_connection() {
    let (state, action) = step(ConnectionState::Open, Event::EndOfStream);
    assert_eq!(state, ConnectionState::Closed);
    assert!(matches!(action, Action::Release));
}

#[test]
fn a_transport_error_closes_the_connection() {
    let (state, action) = step(ConnectionState::Open, Event::TransportError);
    assert_eq!(state, ConnectionState::Closed);
    assert!(matches!(action, Action::Release));
}

#[test]
fn a_closed_connection_stays_closed() {
    let (state, action) = step(ConnectionState::Closed, Event::Frame(String::from("x")));
    assert_eq!(state, ConnectionState::Closed);
    assert!(matches!(action, Action::Release));
    let (state, action) = step(state, Event::EndOfStream);
    assert_eq!(state, ConnectionState::Closed);
    assert!(matches!(action, Action::Release));
    let (state, action) = step(state, Event::TransportError);
    assert_eq!(state, ConnectionState::Closed);
    assert!(matches!(action, Action::Release));
}

#[test]
fn two_connections_share_one_board() {
    let mut board = Board::new();
    let mut first = ConnectionState::Open;
    let mut second = ConnectionState::Open;
    let mut answers = Vec::new();
    let frames = [(1, "x"), (2, "o"), (2, "o"), (2, "O"), (1, "peek")];
    for (from, frame) in frames {
        let state = if from == 1 { &mut first } else { &mut second };
        let (next, action) = step(*state, Event::Frame(String::from(frame)));
        *state = next;
        if let Action::Answer(text) = action {
            answers.push(process(&mut board, &text));
        }
    }
    let (next, _) = step(first, Event::EndOfStream);
    first = next;
    assert_eq!(first, ConnectionState::Closed);
    assert_eq!(second, ConnectionState::Open);
    assert_eq!(
        answers,
        vec![
            "Board { marks: [[X, Empty, Empty], [Empty, Empty, Empty], [Empty, Empty, Empty]] }",
            "Board { marks: [[X, O, Empty], [Empty, Empty, Empty], [Empty, Empty, Empty]] }",
            "Board { marks: [[X, O, O], [Empty, Empty, Empty], [Empty, Empty, Empty]] }",
            "It's X's turn!",
            "Board { marks: [[X, O, O], [Empty, Empty, Empty], [Empty, Empty, Empty]] }",
        ]
    );
}
