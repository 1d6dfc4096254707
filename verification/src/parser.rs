//! The input parser: one raw line becomes either the exit command or a
//! candidate move, and a second micro-parser reads the yes/no answer of
//! the restart prompt.
//!
//! A move line must be exactly two tokens separated by one single space,
//! each a run of decimal digits whose value fits in a byte; anything else
//! is a parse error. Range checking of the coordinates themselves is left
//! to the board.

use vstd::prelude::*;

use crate::board::GameError;

verus! {

/// A candidate move: 1-based column `x` and row `y`, as read from input,
/// before range checking.
#[derive(Clone, Copy, Debug, PartialEq, Eq, Structural)]
pub struct Move {
    pub x: u8,
    pub y: u8,
}

/// What a line of move input means: quit the game, or try a move.
#[derive(Clone, Copy, Debug, PartialEq, Eq, Structural)]
pub enum Command {
    Exit,
    Play(Move),
}

/// Whether `c` is a decimal digit.
pub open spec fn is_ascii_digit(c: char) -> bool {
    '0' <= c && c <= '9'
}

/// The numeric value of digit `c`.
pub open spec fn digit_value(c: char) -> int {
    c as int - '0' as int
}

/// Whether `s` consists of decimal digits only.
pub open spec fn all_ascii_digits(s: Seq<char>) -> bool {
    forall|i: int| 0 <= i < s.len() ==> is_ascii_digit(#[trigger] s[i])
}

/// The number the digit string `s` denotes in base ten.
pub open spec fn digits_value(s: Seq<char>) -> int
    decreases s.len(),
{
    if s.len() == 0 {
        0
    } else {
        10 * digits_value(s.drop_last()) + digit_value(s.last())
    }
}

/// The number token `s` parses to: a nonempty run of digits whose value
/// fits in a byte, and nothing else.
pub open spec fn token_number(s: Seq<char>) -> Option<u8> {
    if s.len() > 0 && all_ascii_digits(s) && digits_value(s) <= u8::MAX {
        Some(digits_value(s) as u8)
    } else {
        None
    }
}

/// Whether position `i` holds the one and only space of `s`.
pub open spec fn single_space_at(s: Seq<char>, i: int) -> bool {
    0 <= i < s.len() && s[i] == ' ' && (forall|j: int|
        0 <= j < s.len() && #[trigger] s[j] == ' ' ==> j == i)
}

/// The move a line denotes: defined when the line is two byte-sized digit
/// tokens around a single space, and nothing else.
pub open spec fn parsed_move(s: Seq<char>) -> Option<Move> {
    if exists|i: int| single_space_at(s, i) {
        let i = choose|i: int| single_space_at(s, i);
        match (token_number(s.subrange(0, i)), token_number(s.subrange(i + 1, s.len() as int))) {
            (Some(x), Some(y)) => Some(Move { x, y }),
            _ => None,
        }
    } else {
        None
    }
}

/// Whether `s` affirms a restart: the single character `y` or `Y`.
pub open spec fn restart_affirmed(s: Seq<char>) -> bool {
    s.len() == 1 && (s[0] == 'y' || s[0] == 'Y')
}

/// Extending a digit string by one digit multiplies its value by ten and
/// adds the digit.
proof fn lemma_digits_value_step(s: Seq<char>, i: int)
    requires
        0 <= i < s.len(),
    ensures
        digits_value(s.subrange(0, i + 1)) == 10 * digits_value(s.subrange(0, i)) + digit_value(
            s[i],
        ),
{
    let t = s.subrange(0, i + 1);
    assert(t.drop_last() =~= s.subrange(0, i));
    assert(t.last() == s[i]);
}

/// The characters of `s`, in order.
fn chars_of(s: &str) -> (v: Vec<char>)
    ensures
        v@ == s@,
{
    let n = s.unicode_len();
    let mut v: Vec<char> = Vec::new();
    let mut i: usize = 0;
    while i < n
        invariant
            0 <= i <= n,
            n == s@.len(),
            v@ =~= s@.subrange(0, i as int),
        decreases n - i,
    {
        let c = s.get_char(i);
        v.push(c);
        proof {
            assert(v@ =~= s@.subrange(0, i + 1 as int));
        }
        i = i + 1;
    }
    proof {
        assert(v@ =~= s@);
    }
    v
}

/// Whether `v` spells the exit command.
fn is_exit(v: &Vec<char>) -> (r: bool)
    ensures
        r == (v@ == "exit"@),
{
    proof {
        reveal_strlit("exit");
    }
    if v.len() != 4 {
        return false;
    }
    let r = v[0] == 'e' && v[1] == 'x' && v[2] == 'i' && v[3] == 't';
    proof {
        if r {
            assert(v@ =~= "exit"@);
        }
    }
    r
}

/// The number the characters `v[start .. end]` denote, when they are a
/// digit token whose value fits in a byte.
fn parse_token(v: &Vec<char>, start: usize, end: usize) -> (r: Option<u8>)
    requires
        start <= end <= v@.len(),
    ensures
        r == token_number(v@.subrange(start as int, end as int)),
{
    let ghost tok = v@.subrange(start as int, end as int);
    if start == end {
        return None;
    }
    let mut acc: u32 = 0;
    let mut i: usize = start;
    while i < end
        invariant
            start <= i <= end <= v@.len(),
            tok == v@.subrange(start as int, end as int),
            acc <= u8::MAX,
            all_ascii_digits(tok.subrange(0, i - start)),
            acc == digits_value(tok.subrange(0, i - start)),
        decreases end - i,
    {
        let c = v[i];
        proof {
            assert(tok[i - start] == v@[i as int]);
        }
        if !('0' <= c && c <= '9') {
            proof {
                assert(!is_ascii_digit(tok[i - start]));
                assert(!all_ascii_digits(tok));
            }
            return None;
        }
        let d: u32 = (c as u32) - ('0' as u32);
        let next: u32 = 10 * acc + d;
        proof {
            lemma_digits_value_step(tok, i - start);
            assert(tok.subrange(0, i - start + 1).last() == tok[i - start]);
            assert(all_ascii_digits(tok.subrange(0, i - start + 1))) by {
                let u = tok.subrange(0, i - start + 1);
                assert(forall|k: int| 0 <= k < u.len() ==> #[trigger] u[k] == tok[k]);
            }
        }
        if next > 255 {
            proof {
                lemma_token_prefix_over_cap(tok, i - start + 1);
            }
            return None;
        }
        acc = next;
        i = i + 1;
    }
    proof {
        assert(tok.subrange(0, (end - start) as int) =~= tok);
    }
    Some(acc as u8)
}

/// A digit prefix whose value exceeds the byte cap keeps the whole token
/// over the cap, whatever digits follow.
proof fn lemma_token_prefix_over_cap(s: Seq<char>, i: int)
    requires
        0 <= i <= s.len(),
        all_ascii_digits(s.subrange(0, i)),
        digits_value(s.subrange(0, i)) > u8::MAX,
    ensures
        token_number(s) is None,
    decreases s.len() - i,
{
    if !all_ascii_digits(s) {
    } else {
        if i == s.len() {
            assert(s.subrange(0, i) =~= s);
        } else {
            lemma_digits_value_step(s, i);
            assert(all_ascii_digits(s.subrange(0, i + 1))) by {
                let u = s.subrange(0, i + 1);
                assert(forall|k: int| 0 <= k < u.len() ==> #[trigger] u[k] == s[k]);
            }
            assert(is_ascii_digit(s[i]));
            assert(digit_value(s[i]) >= 0);
            assert(digits_value(s.subrange(0, i + 1)) > u8::MAX);
            lemma_token_prefix_over_cap(s, i + 1);
        }
    }
}

/// Reads one line of move input: the exit command, a candidate move, or a
/// parse error. Exactly the lines `parsed_move` accepts yield a move; the
/// literal `exit` (and nothing else, case-sensitively) yields the command.
pub fn parse_line(line: &str) -> (r: Result<Command, GameError>)
    ensures
        line@ == "exit"@ ==> r == Ok::<Command, GameError>(Command::Exit),
        line@ != "exit"@ ==> (match parsed_move(line@) {
            Some(m) => r == Ok::<Command, GameError>(Command::Play(m)),
            None => r == Err::<Command, GameError>(GameError::ParseError),
        }),
{
    let v = chars_of(line);
    if is_exit(&v) {
        return Ok(Command::Exit);
    }
    let n = v.len();
    // find the spaces: the first two positions are enough to decide
    let mut first: usize = 0;
    let mut second: usize = 0;
    let mut count: usize = 0;
    let mut i: usize = 0;
    while i < n
        invariant
            0 <= i <= n,
            n == v@.len(),
            count <= i,
            count == 0 ==> (forall|j: int| 0 <= j < i ==> #[trigger] v@[j] != ' '),
            count >= 1 ==> (0 <= first < i && v@[first as int] == ' '),
            count == 1 ==> (forall|j: int|
                0 <= j < i && #[trigger] v@[j] == ' ' ==> j == first),
            count >= 2 ==> (first < second < i && v@[second as int] == ' '),
        decreases n - i,
    {
        if v[i] == ' ' {
            if count == 0 {
                first = i;
            } else if count == 1 {
                second = i;
            }
            count = count + 1;
        }
        i = i + 1;
    }
    if count != 1 {
        proof {
            if count == 0 {
                assert(forall|k: int| !single_space_at(v@, k));
            } else {
                assert forall|k: int| !single_space_at(v@, k) by {
                    if single_space_at(v@, k) {
                        assert(v@[first as int] == ' ');
                        assert(v@[second as int] == ' ');
                    }
                }
            }
        }
        return Err(GameError::ParseError);
    }
    proof {
        assert(single_space_at(v@, first as int));
        let w = choose|k: int| single_space_at(v@, k);
        assert(v@[first as int] == ' ');
        assert(w == first as int);
    }
    let x = parse_token(&v, 0, first);
    let y = parse_token(&v, first + 1, n);
    match (x, y) {
        (Some(x), Some(y)) => Ok(Command::Play(Move { x, y })),
        _ => Err(GameError::ParseError),
    }
}

/// Reads the answer to a restart prompt: only the single character `y` or
/// `Y` affirms; every other line declines.
pub fn parse_restart(line: &str) -> (r: bool)
    ensures
        r == restart_affirmed(line@),
{
    let n = line.unicode_len();
    if n != 1 {
        return false;
    }
    let c = line.get_char(0);
    c == 'y' || c == 'Y'
}

} // verus!
