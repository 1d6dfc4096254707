//! The win detector: a pure check whether a player owns a whole row,
//! column, or diagonal of the board.

use vstd::prelude::*;

use crate::board::{Board, Player};

verus! {

/// Whether player `p` owns all of row `r` (0-based) of board `s`.
pub open spec fn wins_row(s: Seq<Option<Player>>, p: Player, r: int) -> bool {
    s[3 * r] == Some(p) && s[3 * r + 1] == Some(p) && s[3 * r + 2] == Some(p)
}

/// Whether player `p` owns all of column `c` (0-based) of board `s`.
pub open spec fn wins_col(s: Seq<Option<Player>>, p: Player, c: int) -> bool {
    s[c] == Some(p) && s[c + 3] == Some(p) && s[c + 6] == Some(p)
}

/// Whether player `p` owns the main diagonal of board `s`.
pub open spec fn wins_main_diag(s: Seq<Option<Player>>, p: Player) -> bool {
    s[0] == Some(p) && s[4] == Some(p) && s[8] == Some(p)
}

/// Whether player `p` owns the anti-diagonal of board `s`.
pub open spec fn wins_anti_diag(s: Seq<Option<Player>>, p: Player) -> bool {
    s[2] == Some(p) && s[4] == Some(p) && s[6] == Some(p)
}

/// Whether player `p` occupies an entire row, column, or diagonal of `s`.
pub open spec fn has_win(s: Seq<Option<Player>>, p: Player) -> bool {
    (exists|r: int| 0 <= r < 3 && wins_row(s, p, r)) || (exists|c: int|
        0 <= c < 3 && wins_col(s, p, c)) || wins_main_diag(s, p) || wins_anti_diag(s, p)
}

/// The winner reported for board `s`: a player with a winning line if one
/// exists, and none otherwise. When both players hold a line (a board no
/// played game produces), player one is reported.
pub open spec fn winner_of(s: Seq<Option<Player>>) -> Option<Player> {
    if has_win(s, Player::One) {
        Some(Player::One)
    } else if has_win(s, Player::Two) {
        Some(Player::Two)
    } else {
        None
    }
}

/// Whether the cell at `idx` holds `p`'s mark.
fn cell_is(b: &Board, idx: usize, p: Player) -> (r: bool)
    requires
        idx < 9,
    ensures
        r == (b@[idx as int] == Some(p)),
{
    match b.cell_at(idx) {
        Some(q) => q == p,
        None => false,
    }
}

/// Whether player `p` has a complete line on board `b`.
fn player_wins(b: &Board, p: Player) -> (r: bool)
    ensures
        r == has_win(b@, p),
{
    let mut won = false;
    // rows
    if cell_is(b, 0, p) && cell_is(b, 1, p) && cell_is(b, 2, p) {
        proof {
            assert(wins_row(b@, p, 0));
        }
        won = true;
    }
    if cell_is(b, 3, p) && cell_is(b, 4, p) && cell_is(b, 5, p) {
        proof {
            assert(wins_row(b@, p, 1));
        }
        won = true;
    }
    if cell_is(b, 6, p) && cell_is(b, 7, p) && cell_is(b, 8, p) {
        proof {
            assert(wins_row(b@, p, 2));
        }
        won = true;
    }
    // columns
    if cell_is(b, 0, p) && cell_is(b, 3, p) && cell_is(b, 6, p) {
        proof {
            assert(wins_col(b@, p, 0));
        }
        won = true;
    }
    if cell_is(b, 1, p) && cell_is(b, 4, p) && cell_is(b, 7, p) {
        proof {
            assert(wins_col(b@, p, 1));
        }
        won = true;
    }
    if cell_is(b, 2, p) && cell_is(b, 5, p) && cell_is(b, 8, p) {
        proof {
            assert(wins_col(b@, p, 2));
        }
        won = true;
    }
    // diagonals
    if cell_is(b, 0, p) && cell_is(b, 4, p) && cell_is(b, 8, p) {
        won = true;
    }
    if cell_is(b, 2, p) && cell_is(b, 4, p) && cell_is(b, 6, p) {
        won = true;
    }
    proof {
        if !won {
            assert forall|r: int| 0 <= r < 3 implies !wins_row(b@, p, r) by {
                assert(!wins_row(b@, p, 0));
                assert(!wins_row(b@, p, 1));
                assert(!wins_row(b@, p, 2));
            }
            assert forall|c: int| 0 <= c < 3 implies !wins_col(b@, p, c) by {
                assert(!wins_col(b@, p, 0));
                assert(!wins_col(b@, p, 1));
                assert(!wins_col(b@, p, 2));
            }
        }
    }
    won
}

/// A player is reported as the winner exactly when that player occupies an
/// entire row, column, or diagonal, and no winner is reported exactly when
/// neither player has such a line — even on a full board, which is then a
/// draw. Stated for boards where at most one player holds a line; with a
/// line for each player only one of them can be reported.
pub proof fn lemma_winner_characterization(s: Seq<Option<Player>>)
    requires
        !(has_win(s, Player::One) && has_win(s, Player::Two)),
    ensures
        forall|p: Player| winner_of(s) == Some(p) <==> #[trigger] has_win(s, p),
        winner_of(s) is None <==> (forall|p: Player| !(#[trigger] has_win(s, p))),
{
    assert forall|p: Player| winner_of(s) == Some(p) <==> #[trigger] has_win(s, p) by {
        assert(p == Player::One || p == Player::Two);
    }
    if winner_of(s) is None {
        assert forall|p: Player| !(#[trigger] has_win(s, p)) by {
            assert(p == Player::One || p == Player::Two);
        }
    }
}

/// A line held by `q` after `p` placed one mark is a line `q` already
/// held: a placement can complete a line only for its own player.
pub proof fn lemma_update_keeps_other_lines(
    s: Seq<Option<Player>>,
    i: int,
    p: Player,
    q: Player,
)
    requires
        q != p,
        0 <= i < 9,
        s.len() == 9,
        has_win(s.update(i, Some(p)), q),
    ensures
        has_win(s, q),
{
    let nb = s.update(i, Some(p));
    if exists|r: int| 0 <= r < 3 && wins_row(nb, q, r) {
        let r = choose|r: int| 0 <= r < 3 && wins_row(nb, q, r);
        assert(wins_row(s, q, r));
    } else if exists|c: int| 0 <= c < 3 && wins_col(nb, q, c) {
        let c = choose|c: int| 0 <= c < 3 && wins_col(nb, q, c);
        assert(wins_col(s, q, c));
    } else if wins_main_diag(nb, q) {
        assert(wins_main_diag(s, q));
    } else {
        assert(wins_anti_diag(s, q));
    }
}

/// An empty board — the state `reset` leaves behind — is not full and has
/// no winner.
pub proof fn lemma_empty_board_fresh()
    ensures
        !crate::board::board_full(crate::board::empty_board()),
        winner_of(crate::board::empty_board()) is None,
{
    let s = crate::board::empty_board();
    assert(s[0] is None);
    assert forall|p: Player| !(#[trigger] has_win(s, p)) by {
        assert forall|r: int| 0 <= r < 3 implies !wins_row(s, p, r) by {
            assert(s[3 * r] is None);
        }
        assert forall|c: int| 0 <= c < 3 implies !wins_col(s, p, c) by {
            assert(s[c] is None);
        }
        assert(s[4] is None);
    }
}

/// The winning player of board `b`, if any.
pub fn board_winner(b: &Board) -> (r: Option<Player>)
    ensures
        r == winner_of(b@),
{
    if player_wins(b, Player::One) {
        Some(Player::One)
    } else if player_wins(b, Player::Two) {
        Some(Player::Two)
    } else {
        None
    }
}

} // verus!
