use tictactoe::board::{GameError, Player};
use tictactoe::game::{error_message, Game, Outcome, Phase};
use tictactoe::winner::board_winner;

#[test]
fn players_alternate_and_failures_keep_the_turn() {
    let mut g = Game::new();
    assert_eq!(g.turn, Player::One);
    assert_eq!(g.step("nonsense"), Outcome::Rejected(GameError::ParseError));
    assert_eq!(g.turn, Player::One);
    assert_eq!(g.step("0 1"), Outcome::Rejected(GameError::OutOfRange));
    assert_eq!(g.turn, Player::One);
    assert_eq!(g.step("1 1"), Outcome::Moved);
    assert_eq!(g.turn, Player::Two);
    assert_eq!(g.step("1 1"), Outcome::Rejected(GameError::CellOccupied));
    assert_eq!(g.turn, Player::Two);
    assert_eq!(g.step("2 2"), Outcome::Moved);
    assert_eq!(g.turn, Player::One);
}

#[test]
fn top_row_win_for_player_one() {
    let mut g = Game::new();
    assert_eq!(g.step("1 1"), Outcome::Moved); // X
    assert_eq!(g.step("1 2"), Outcome::Moved); // O
    assert_eq!(g.step("2 1"), Outcome::Moved); // X
    assert_eq!(g.step("2 2"), Outcome::Moved); // O
    assert_eq!(g.step("3 1"), Outcome::Won(Player::One)); // X completes the top row
    assert_eq!(g.phase, Phase::AwaitingRestart);
    assert_eq!(board_winner(&g.board), Some(Player::One));
    assert_eq!(Player::One.number(), 1);
}

#[test]
fn nine_moves_without_a_line_end_in_a_draw() {
    let mut g = Game::new();
    // X X O
    // O O X
    // X O X
    let moves = [
        "1 1", "3 1", // X O
        "2 1", "1 2", // X O
        "3 2", "2 2", // X O
        "1 3", "2 3", // X O
        "3 3",
    ];
    for m in &moves[..8] {
        assert_eq!(g.step(m), Outcome::Moved);
    }
    assert_eq!(g.step(moves[8]), Outcome::Draw);
    assert_eq!(g.phase, Phase::AwaitingRestart);
    assert!(g.board.is_full());
    assert_eq!(board_winner(&g.board), None);
}

#[test]
fn exit_terminates_immediately() {
    let mut g = Game::new();
    assert_eq!(g.step("exit"), Outcome::Exited);
    assert_eq!(g.phase, Phase::Terminated);

    let mut g = Game::new();
    assert_eq!(g.step("2 2"), Outcome::Moved);
    assert_eq!(g.step("exit"), Outcome::Exited);
    assert_eq!(g.phase, Phase::Terminated);
    // a finished game swallows further input unchanged
    assert_eq!(g.step("1 1"), Outcome::Ended);
    assert_eq!(g.phase, Phase::Terminated);
    assert_eq!(g.board.cell(2, 2), Some(Player::One));
}

#[test]
fn affirmative_restart_begins_a_fresh_round() {
    let mut g = Game::new();
    g.step("1 1");
    g.step("1 2");
    g.step("2 1");
    g.step("2 2");
    assert_eq!(g.step("3 1"), Outcome::Won(Player::One));
    assert_eq!(g.step("y"), Outcome::Restarted);
    assert_eq!(g.phase, Phase::AwaitingMove);
    assert_eq!(g.turn, Player::One);
    assert!(!g.board.is_full());
    assert_eq!(board_winner(&g.board), None);
    for y in 1..4u8 {
        for x in 1..4u8 {
            assert_eq!(g.board.cell(x, y), None);
        }
    }
}

#[test]
fn uppercase_y_also_restarts() {
    let mut g = Game::new();
    g.step("1 1");
    g.step("1 2");
    g.step("2 1");
    g.step("2 2");
    g.step("3 1");
    assert_eq!(g.step("Y"), Outcome::Restarted);
    assert_eq!(g.phase, Phase::AwaitingMove);
}

#[test]
fn any_other_restart_answer_ends_the_game() {
    let mut g = Game::new();
    g.step("1 1");
    g.step("1 2");
    g.step("2 1");
    g.step("2 2");
    g.step("3 1");
    assert_eq!(g.step("n"), Outcome::Ended);
    assert_eq!(g.phase, Phase::Terminated);

    let mut g = Game::new();
    g.step("1 1");
    g.step("1 2");
    g.step("2 1");
    g.step("2 2");
    g.step("3 1");
    assert_eq!(g.step("yes"), Outcome::Ended);
    assert_eq!(g.phase, Phase::Terminated);
}

#[test]
fn error_messages_are_the_printed_texts() {
    assert_eq!(
        error_message(GameError::ParseError),
        "Only input two numbers separated by a whitespace (1-3)"
    );
    assert_eq!(error_message(GameError::OutOfRange), "Only enter numbers between 1 and 3.");
    assert_eq!(
        error_message(GameError::CellOccupied),
        "This field is already occupied, try again!"
    );
}
