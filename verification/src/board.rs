//! The board model: a fixed 3x3 grid of cells, each empty or holding one
//! player's mark. Coordinates are 1-based `(x, y)` at the public interface
//! and 0-based row-major internally.

use vstd::prelude::*;

verus! {

/// One of the two players; also the mark a cell can hold.
#[derive(Clone, Copy, Debug, PartialEq, Eq, Structural)]
pub enum Player {
    One,
    Two,
}

/// The ways a move can be refused: malformed input, a coordinate outside
/// [1,3], or a cell that already holds a mark.
#[derive(Clone, Copy, Debug, PartialEq, Eq, Structural)]
pub enum GameError {
    ParseError,
    OutOfRange,
    CellOccupied,
}

/// The player whose turn comes after `p`.
pub open spec fn other_player(p: Player) -> Player {
    match p {
        Player::One => Player::Two,
        Player::Two => Player::One,
    }
}

/// The two players strictly alternate: passing the turn always hands it
/// to the other player, and passing it twice hands it back.
pub proof fn lemma_turn_alternation(p: Player)
    ensures
        other_player(p) != p,
        other_player(other_player(p)) == p,
{
}

impl Player {
    /// The number this player is shown as in prompts and messages.
    pub fn number(self) -> (n: u8)
        ensures
            self == Player::One ==> n == 1,
            self == Player::Two ==> n == 2,
    {
        match self {
            Player::One => 1,
            Player::Two => 2,
        }
    }
}

/// Whether a 1-based coordinate lies in [1,3].
pub open spec fn coord_in_range(c: int) -> bool {
    1 <= c <= 3
}

/// The row-major index of 1-based coordinates: column `x`, row `y`.
pub open spec fn idx_of(x: int, y: int) -> int {
    (y - 1) * 3 + (x - 1)
}

/// The nine cells of a board with no marks on it.
pub open spec fn empty_board() -> Seq<Option<Player>> {
    seq![None, None, None, None, None, None, None, None, None]
}

/// Whether every cell of `s` holds a mark.
pub open spec fn board_full(s: Seq<Option<Player>>) -> bool {
    forall|i: int| 0 <= i < 9 ==> (#[trigger] s[i]) is Some
}

/// The symbol a cell is drawn as.
pub open spec fn mark_char(c: Option<Player>) -> char {
    match c {
        None => '_',
        Some(Player::One) => 'X',
        Some(Player::Two) => 'O',
    }
}

/// One drawn cell: a bar, the cell's symbol, and the spaces around it.
pub open spec fn render_cell(c: Option<Player>) -> Seq<char> {
    "| "@ + seq![mark_char(c)] + " "@
}

/// Row `r` (0-based) of board `s` as it is drawn, e.g. `| X | O | _ |`.
pub open spec fn render_row(s: Seq<Option<Player>>, r: int) -> Seq<char> {
    render_cell(s[3 * r]) + render_cell(s[3 * r + 1]) + render_cell(s[3 * r + 2]) + "|"@
}

/// The symbol a cell is drawn as, as a one-character string.
fn mark_str(c: Option<Player>) -> (r: &'static str)
    ensures
        r@ == seq![mark_char(c)],
{
    proof {
        reveal_strlit("X");
        reveal_strlit("O");
        reveal_strlit("_");
    }
    match c {
        None => {
            proof {
                assert("_"@ =~= seq![mark_char(c)]);
            }
            "_"
        },
        Some(Player::One) => {
            proof {
                assert("X"@ =~= seq![mark_char(c)]);
            }
            "X"
        },
        Some(Player::Two) => {
            proof {
                assert("O"@ =~= seq![mark_char(c)]);
            }
            "O"
        },
    }
}

/// A 3x3 grid of cells. Its view is the row-major sequence of exactly
/// nine cells.
pub struct Board {
    cells: Vec<Option<Player>>,
}

impl View for Board {
    type V = Seq<Option<Player>>;

    closed spec fn view(&self) -> Seq<Option<Player>> {
        self.cells@
    }
}

impl Board {
    #[verifier::type_invariant]
    spec fn inv(&self) -> bool {
        self.cells@.len() == 9
    }

    /// Creates an empty board.
    pub fn new() -> (b: Board)
        ensures
            b@ == empty_board(),
    {
        let mut cells: Vec<Option<Player>> = Vec::new();
        cells.push(None);
        cells.push(None);
        cells.push(None);
        cells.push(None);
        cells.push(None);
        cells.push(None);
        cells.push(None);
        cells.push(None);
        cells.push(None);
        let b = Board { cells };
        proof {
            assert(b@ =~= empty_board());
        }
        b
    }

    /// The cell at 0-based row-major index `idx`.
    pub fn cell_at(&self, idx: usize) -> (c: Option<Player>)
        requires
            idx < 9,
        ensures
            c == self@[idx as int],
    {
        proof {
            use_type_invariant(self);
        }
        self.cells[idx]
    }

    /// The cell at 1-based coordinates `(x, y)`.
    pub fn cell(&self, x: u8, y: u8) -> (c: Option<Player>)
        requires
            coord_in_range(x as int),
            coord_in_range(y as int),
        ensures
            c == self@[idx_of(x as int, y as int)],
    {
        proof {
            use_type_invariant(self);
        }
        let idx: usize = (y as usize - 1) * 3 + (x as usize - 1);
        self.cells[idx]
    }

    /// Puts `p`'s mark at 1-based coordinates `(x, y)`.
    ///
    /// Fails with `OutOfRange` when a coordinate lies outside [1,3] and
    /// with `CellOccupied` when the cell already holds a mark; a failed
    /// call leaves the board exactly as it was.
    pub fn place(&mut self, x: u8, y: u8, p: Player) -> (r: Result<(), GameError>)
        ensures
            !(coord_in_range(x as int) && coord_in_range(y as int)) ==> (r
                == Err::<(), GameError>(GameError::OutOfRange) && *final (self) == *old(self)),
            (coord_in_range(x as int) && coord_in_range(y as int) && old(self)@[idx_of(
                x as int,
                y as int,
            )] is Some) ==> (r == Err::<(), GameError>(GameError::CellOccupied) && *final (self)
                == *old(self)),
            (coord_in_range(x as int) && coord_in_range(y as int) && old(self)@[idx_of(
                x as int,
                y as int,
            )] is None) ==> (r == Ok::<(), GameError>(()) && final (self)@ == old(self)@.update(
                idx_of(x as int, y as int),
                Some(p),
            )),
    {
        proof {
            use_type_invariant(&*self);
        }
        if !(1 <= x && x <= 3 && 1 <= y && y <= 3) {
            return Err(GameError::OutOfRange);
        }
        let idx: usize = (y as usize - 1) * 3 + (x as usize - 1);
        if self.cells[idx].is_some() {
            return Err(GameError::CellOccupied);
        }
        self.cells[idx] = Some(p);
        Ok(())
    }

    /// Whether every cell holds a mark: together with a winnerless board
    /// this is what makes a draw.
    pub fn is_full(&self) -> (r: bool)
        ensures
            r == board_full(self@),
    {
        proof {
            use_type_invariant(self);
        }
        let mut i: usize = 0;
        let mut full = true;
        while i < 9
            invariant
                0 <= i <= 9,
                self@.len() == 9,
                full == (forall|j: int| 0 <= j < i ==> (#[trigger] self@[j]) is Some),
            decreases 9 - i,
        {
            if self.cells[i].is_none() {
                full = false;
            }
            i = i + 1;
        }
        full
    }

    /// Row `r` (0-based) of the board as one display line.
    fn row_string(&self, r: usize) -> (row: String)
        requires
            r < 3,
        ensures
            row@ == render_row(self@, r as int),
    {
        let mut row = String::new();
        row.append("| ");
        row.append(mark_str(self.cell_at(3 * r)));
        row.append(" ");
        row.append("| ");
        row.append(mark_str(self.cell_at(3 * r + 1)));
        row.append(" ");
        row.append("| ");
        row.append(mark_str(self.cell_at(3 * r + 2)));
        row.append(" ");
        row.append("|");
        proof {
            assert(row@ =~= render_row(self@, r as int));
        }
        row
    }

    /// The board as it is displayed: three lines, each cell drawn between
    /// bars, e.g. `| X | O | _ |`. The board itself is untouched.
    pub fn render(&self) -> (rows: Vec<String>)
        ensures
            rows@.len() == 3,
            forall|r: int| 0 <= r < 3 ==> (#[trigger] rows@[r])@ == render_row(self@, r),
    {
        let mut rows: Vec<String> = Vec::new();
        rows.push(self.row_string(0));
        rows.push(self.row_string(1));
        rows.push(self.row_string(2));
        rows
    }

    /// Clears every cell back to empty.
    pub fn reset(&mut self)
        ensures
            final (self)@ == empty_board(),
    {
        proof {
            use_type_invariant(&*self);
        }
        let mut i: usize = 0;
        while i < 9
            invariant
                0 <= i <= 9,
                self@.len() == 9,
                forall|j: int| 0 <= j < i ==> (#[trigger] self@[j]) is None,
            decreases 9 - i,
        {
            self.cells[i] = None;
            i = i + 1;
        }
        proof {
            assert(self@ =~= empty_board());
        }
    }
}

} // verus!
