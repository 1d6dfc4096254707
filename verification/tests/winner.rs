use tictactoe::board::{Board, Player};
use tictactoe::winner::board_winner;

fn board_of(marks: [[u8; 3]; 3]) -> Board {
    let mut b = Board::new();
    for y in 0..3u8 {
        for x in 0..3u8 {
            match marks[y as usize][x as usize] {
                1 => b.place(x + 1, y + 1, Player::One).unwrap(),
                2 => b.place(x + 1, y + 1, Player::Two).unwrap(),
                _ => {}
            }
        }
    }
    b
}

#[test]
fn each_row_wins() {
    for y in 0..3usize {
        let mut marks = [[0u8; 3]; 3];
        marks[y] = [1, 1, 1];
        assert_eq!(board_winner(&board_of(marks)), Some(Player::One));
    }
}

#[test]
fn each_column_wins() {
    for x in 0..3usize {
        let mut marks = [[0u8; 3]; 3];
        for y in 0..3usize {
            marks[y][x] = 2;
        }
        assert_eq!(board_winner(&board_of(marks)), Some(Player::Two));
    }
}

#[test]
fn main_diagonal_wins() {
    let b = board_of([[1, 0, 0], [0, 1, 0], [0, 0, 1]]);
    assert_eq!(board_winner(&b), Some(Player::One));
}

#[test]
fn anti_diagonal_wins() {
    let b = board_of([[0, 0, 2], [0, 2, 0], [2, 0, 0]]);
    assert_eq!(board_winner(&b), Some(Player::Two));
}

#[test]
fn two_in_a_line_is_no_win() {
    let b = board_of([[1, 1, 0], [2, 2, 0], [0, 0, 0]]);
    assert_eq!(board_winner(&b), None);
}

#[test]
fn full_board_without_a_line_is_a_draw() {
    let b = board_of([[1, 1, 2], [2, 2, 1], [1, 2, 1]]);
    assert_eq!(board_winner(&b), None);
    assert!(b.is_full());
}
