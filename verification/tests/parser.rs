use tictactoe::board::{Board, GameError, Player};
use tictactoe::parser::{parse_line, parse_restart, Command, Move};

#[test]
fn two_numbers_parse_to_a_move() {
    assert_eq!(parse_line("1 1"), Ok(Command::Play(Move { x: 1, y: 1 })));
    assert_eq!(parse_line("3 2"), Ok(Command::Play(Move { x: 3, y: 2 })));
}

#[test]
fn one_token_is_a_parse_error() {
    assert_eq!(parse_line("1"), Err(GameError::ParseError));
}

#[test]
fn letters_are_a_parse_error() {
    assert_eq!(parse_line("a b"), Err(GameError::ParseError));
}

#[test]
fn three_tokens_are_a_parse_error() {
    assert_eq!(parse_line("1 1 1"), Err(GameError::ParseError));
}

#[test]
fn empty_and_blank_lines_are_parse_errors() {
    assert_eq!(parse_line(""), Err(GameError::ParseError));
    assert_eq!(parse_line(" "), Err(GameError::ParseError));
    assert_eq!(parse_line("1  1"), Err(GameError::ParseError));
    assert_eq!(parse_line(" 1 1"), Err(GameError::ParseError));
}

#[test]
fn oversized_numbers_are_a_parse_error() {
    assert_eq!(parse_line("256 1"), Err(GameError::ParseError));
    assert_eq!(parse_line("1 99999999999999999999"), Err(GameError::ParseError));
}

#[test]
fn leading_zeros_are_accepted() {
    assert_eq!(parse_line("01 002"), Ok(Command::Play(Move { x: 1, y: 2 })));
}

#[test]
fn out_of_range_coordinates_parse_but_fail_range_checking() {
    let m = match parse_line("0 1") {
        Ok(Command::Play(m)) => m,
        other => panic!("expected a candidate move, got {:?}", other),
    };
    let mut b = Board::new();
    assert_eq!(b.place(m.x, m.y, Player::One), Err(GameError::OutOfRange));

    let m = match parse_line("4 2") {
        Ok(Command::Play(m)) => m,
        other => panic!("expected a candidate move, got {:?}", other),
    };
    assert_eq!(b.place(m.x, m.y, Player::One), Err(GameError::OutOfRange));
}

#[test]
fn exit_is_the_exit_command() {
    assert_eq!(parse_line("exit"), Ok(Command::Exit));
}

#[test]
fn exit_is_case_sensitive() {
    assert_eq!(parse_line("EXIT"), Err(GameError::ParseError));
    assert_eq!(parse_line("Exit"), Err(GameError::ParseError));
    assert_eq!(parse_line("exit "), Err(GameError::ParseError));
}

#[test]
fn restart_accepts_only_single_y() {
    assert!(parse_restart("y"));
    assert!(parse_restart("Y"));
    assert!(!parse_restart("n"));
    assert!(!parse_restart("N"));
    assert!(!parse_restart(""));
    assert!(!parse_restart("yes"));
    assert!(!parse_restart("YES"));
    assert!(!parse_restart("y "));
}
