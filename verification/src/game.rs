//! The turn controller: a state machine that feeds each line of input to
//! the parser and the board, alternates the players, and decides when a
//! round is won, drawn, restarted, or over.

use vstd::prelude::*;

use crate::board::{
    board_full, coord_in_range, empty_board, idx_of, other_player, Board, GameError, Player,
};
use crate::parser::{parse_line, parse_restart, parsed_move, restart_affirmed, Command};
use crate::winner::{board_winner, has_win, lemma_empty_board_fresh, lemma_update_keeps_other_lines, winner_of};

verus! {

/// Where the game stands: reading a move, reading the answer to a restart
/// prompt, or finished.
#[derive(Clone, Copy, Debug, PartialEq, Eq, Structural)]
pub enum Phase {
    AwaitingMove,
    AwaitingRestart,
    Terminated,
}

/// What one line of input did to the game.
#[derive(Clone, Copy, Debug, PartialEq, Eq, Structural)]
pub enum Outcome {
    /// The line was refused for this reason; the same player is prompted
    /// again and nothing changed.
    Rejected(GameError),
    /// The mark was placed and the round goes on with the other player.
    Moved,
    /// The mark was placed and won the round for this player.
    Won(Player),
    /// The mark was placed and filled the board with no winner.
    Draw,
    /// The exit command was given at a move prompt.
    Exited,
    /// The restart prompt was answered with yes: a fresh round begins.
    Restarted,
    /// The restart prompt was declined, or the game was already over.
    Ended,
}

/// The whole state of a game: the board, whose turn it is, and the phase.
pub struct Game {
    pub board: Board,
    pub turn: Player,
    pub phase: Phase,
}

/// Whether `post` is `pre` with nothing changed.
pub open spec fn same_game(pre: Game, post: Game) -> bool {
    post.board == pre.board && post.turn == pre.turn && post.phase == pre.phase
}

/// What one line at a move prompt does: the exit command terminates; a
/// line that fails to parse, names a coordinate outside [1,3], or aims at
/// an occupied cell is rejected with that error and changes nothing — the
/// turn is not consumed; otherwise the current player's mark is placed,
/// the turn passes to the other player, and the round either goes on or
/// ends in a win or a draw, moving to the restart prompt.
pub open spec fn move_step(pre: Game, post: Game, line: Seq<char>, r: Outcome) -> bool {
    if line == "exit"@ {
        post.board == pre.board && post.turn == pre.turn && post.phase is Terminated && r
            == Outcome::Exited
    } else {
        match parsed_move(line) {
            None => same_game(pre, post) && r == Outcome::Rejected(GameError::ParseError),
            Some(m) => {
                if !(coord_in_range(m.x as int) && coord_in_range(m.y as int)) {
                    same_game(pre, post) && r == Outcome::Rejected(GameError::OutOfRange)
                } else if pre.board@[idx_of(m.x as int, m.y as int)] is Some {
                    same_game(pre, post) && r == Outcome::Rejected(GameError::CellOccupied)
                } else {
                    let nb = pre.board@.update(idx_of(m.x as int, m.y as int), Some(pre.turn));
                    post.board@ == nb && post.turn == other_player(pre.turn) && match winner_of(
                        nb,
                    ) {
                        Some(p) => post.phase is AwaitingRestart && r == Outcome::Won(p),
                        None => if board_full(nb) {
                            post.phase is AwaitingRestart && r == Outcome::Draw
                        } else {
                            post.phase is AwaitingMove && r == Outcome::Moved
                        },
                    }
                }
            },
        }
    }
}

/// What one line at a restart prompt does: an affirmative answer clears
/// the board and hands the first move back to player one; any other
/// answer terminates the game.
pub open spec fn restart_step(pre: Game, post: Game, line: Seq<char>, r: Outcome) -> bool {
    if restart_affirmed(line) {
        post.board@ == empty_board() && post.turn == Player::One && post.phase is AwaitingMove && r
            == Outcome::Restarted
    } else {
        post.board == pre.board && post.turn == pre.turn && post.phase is Terminated && r
            == Outcome::Ended
    }
}

impl Game {
    /// A fresh game: an empty board, player one to move.
    pub fn new() -> (g: Game)
        ensures
            g.board@ == empty_board(),
            g.turn == Player::One,
            g.phase == Phase::AwaitingMove,
    {
        Game { board: Board::new(), turn: Player::One, phase: Phase::AwaitingMove }
    }

    /// Feeds one line of input to the game and reports what it did. Which
    /// prompt the line answers is decided by the phase; a finished game
    /// swallows input unchanged.
    pub fn step(&mut self, line: &str) -> (r: Outcome)
        ensures
            old(self).phase is Terminated ==> same_game(*old(self), *final (self)) && r
                == Outcome::Ended,
            old(self).phase is AwaitingMove ==> move_step(*old(self), *final (self), line@, r),
            old(self).phase is AwaitingRestart ==> restart_step(
                *old(self),
                *final (self),
                line@,
                r,
            ),
    {
        match self.phase {
            Phase::Terminated => Outcome::Ended,
            Phase::AwaitingMove => {
                match parse_line(line) {
                    Ok(Command::Exit) => {
                        self.phase = Phase::Terminated;
                        Outcome::Exited
                    },
                    Err(e) => Outcome::Rejected(e),
                    Ok(Command::Play(m)) => {
                        match self.board.place(m.x, m.y, self.turn) {
                            Err(e) => Outcome::Rejected(e),
                            Ok(()) => {
                                self.turn = match self.turn {
                                    Player::One => Player::Two,
                                    Player::Two => Player::One,
                                };
                                match board_winner(&self.board) {
                                    Some(p) => {
                                        self.phase = Phase::AwaitingRestart;
                                        Outcome::Won(p)
                                    },
                                    None => {
                                        if self.board.is_full() {
                                            self.phase = Phase::AwaitingRestart;
                                            Outcome::Draw
                                        } else {
                                            Outcome::Moved
                                        }
                                    },
                                }
                            },
                        }
                    },
                }
            },
            Phase::AwaitingRestart => {
                if parse_restart(line) {
                    self.board.reset();
                    self.turn = Player::One;
                    self.phase = Phase::AwaitingMove;
                    Outcome::Restarted
                } else {
                    self.phase = Phase::Terminated;
                    Outcome::Ended
                }
            },
        }
    }
}

/// The invariant a whole game keeps, round after round: whenever a move
/// is awaited the board has no winner yet, and a step that reports a win
/// names exactly the player who just placed the mark — the other player
/// holds no line then. Its premises are `step`'s contract together with
/// the invariant for the state stepped from, so it carries over any run
/// of a game begun with `Game::new`.
pub proof fn lemma_step_keeps_round_open(pre: Game, post: Game, line: Seq<char>, r: Outcome)
    requires
        pre.board@.len() == 9,
        pre.phase is AwaitingMove ==> winner_of(pre.board@) is None,
        pre.phase is Terminated ==> same_game(pre, post) && r == Outcome::Ended,
        pre.phase is AwaitingMove ==> move_step(pre, post, line, r),
        pre.phase is AwaitingRestart ==> restart_step(pre, post, line, r),
    ensures
        post.phase is AwaitingMove ==> winner_of(post.board@) is None,
        (match r {
            Outcome::Won(p) => p == pre.turn && !has_win(post.board@, other_player(p)),
            _ => true,
        }),
{
    if pre.phase is AwaitingRestart {
        if restart_affirmed(line) {
            lemma_empty_board_fresh();
        }
    }
    if pre.phase is AwaitingMove && line != "exit"@ {
        match parsed_move(line) {
            None => {},
            Some(m) => {
                let i = idx_of(m.x as int, m.y as int);
                if coord_in_range(m.x as int) && coord_in_range(m.y as int) && pre.board@[i]
                    is None {
                    let nb = pre.board@.update(i, Some(pre.turn));
                    let q = other_player(pre.turn);
                    if has_win(nb, q) {
                        lemma_update_keeps_other_lines(pre.board@, i, pre.turn, q);
                    }
                    assert(!has_win(nb, q));
                }
            },
        }
    }
}

/// The message printed when a move is refused.
pub fn error_message(e: GameError) -> (m: &'static str)
    ensures
        e == GameError::ParseError ==> m@ == "Only input two numbers separated by a whitespace (1-3)"@,
        e == GameError::OutOfRange ==> m@ == "Only enter numbers between 1 and 3."@,
        e == GameError::CellOccupied ==> m@ == "This field is already occupied, try again!"@,
{
    match e {
        GameError::ParseError => "Only input two numbers separated by a whitespace (1-3)",
        GameError::OutOfRange => "Only enter numbers between 1 and 3.",
        GameError::CellOccupied => "This field is already occupied, try again!",
    }
}

} // verus!
