use vstd::prelude::*;
use crate::board::{mk_move, move_on_board, Move};
use crate::fen::{digit_char, digit_char_exec, string_of_chars};

verus! {

/// Column of a file letter `a`..`h`.
pub open spec fn file_index(ch: char) -> Option<int> {
    if ch == 'a' { Some(0) }
    else if ch == 'b' { Some(1) }
    else if ch == 'c' { Some(2) }
    else if ch == 'd' { Some(3) }
    else if ch == 'e' { Some(4) }
    else if ch == 'f' { Some(5) }
    else if ch == 'g' { Some(6) }
    else if ch == 'h' { Some(7) }
    else { None }
}

/// Row of a rank digit `1`..`8`: rank 8 is row 0.
pub open spec fn rank_row(ch: char) -> Option<int> {
    if ch == '1' { Some(7) }
    else if ch == '2' { Some(6) }
    else if ch == '3' { Some(5) }
    else if ch == '4' { Some(4) }
    else if ch == '5' { Some(3) }
    else if ch == '6' { Some(2) }
    else if ch == '7' { Some(1) }
    else if ch == '8' { Some(0) }
    else { None }
}

/// The move that a four-character coordinate token such as `e2e4` names.
pub open spec fn parse_move_spec(s: Seq<char>) -> Option<Move> {
    if s.len() == 4 && file_index(s[0]) is Some && rank_row(s[1]) is Some && file_index(s[2]) is Some
        && rank_row(s[3]) is Some {
        Some(
            mk_move(
                rank_row(s[1]).unwrap(),
                file_index(s[0]).unwrap(),
                rank_row(s[3]).unwrap(),
                file_index(s[2]).unwrap(),
            ),
        )
    } else {
        None
    }
}

pub open spec fn file_char(c: int) -> char {
    if c == 0 { 'a' }
    else if c == 1 { 'b' }
    else if c == 2 { 'c' }
    else if c == 3 { 'd' }
    else if c == 4 { 'e' }
    else if c == 5 { 'f' }
    else if c == 6 { 'g' }
    else { 'h' }
}

/// The coordinate token of a move, such as `e2e4`.
pub open spec fn coord_text(m: Move) -> Seq<char> {
    seq![
        file_char(m.from_col as int),
        digit_char(8 - m.from_row),
        file_char(m.to_col as int),
        digit_char(8 - m.to_row),
    ]
}

/// A move as `from_row,from_col,to_row,to_col`.
pub open spec fn csv_text(m: Move) -> Seq<char> {
    seq![
        digit_char(m.from_row as int),
        ',',
        digit_char(m.from_col as int),
        ',',
        digit_char(m.to_row as int),
        ',',
        digit_char(m.to_col as int),
    ]
}

fn file_index_exec(ch: char) -> (r: Option<usize>)
    ensures
        r matches Some(n) ==> file_index(ch) == Some(n as int),
        r is None ==> file_index(ch) is None,
{
    match ch {
        'a' => Some(0),
        'b' => Some(1),
        'c' => Some(2),
        'd' => Some(3),
        'e' => Some(4),
        'f' => Some(5),
        'g' => Some(6),
        'h' => Some(7),
        _ => None,
    }
}

fn rank_row_exec(ch: char) -> (r: Option<usize>)
    ensures
        r matches Some(n) ==> rank_row(ch) == Some(n as int),
        r is None ==> rank_row(ch) is None,
{
    match ch {
        '1' => Some(7),
        '2' => Some(6),
        '3' => Some(5),
        '4' => Some(4),
        '5' => Some(3),
        '6' => Some(2),
        '7' => Some(1),
        '8' => Some(0),
        _ => None,
    }
}

fn file_char_exec(c: usize) -> (r: char)
    ensures
        r == file_char(c as int),
{
    match c {
        0 => 'a',
        1 => 'b',
        2 => 'c',
        3 => 'd',
        4 => 'e',
        5 => 'f',
        6 => 'g',
        _ => 'h',
    }
}

/// Reads a coordinate token such as `e2e4`; `None` when it is not one.
pub fn parse_move(input: &str) -> (r: Option<Move>)
    ensures
        r == parse_move_spec(input@),
{
    if input.unicode_len() != 4 {
        return None;
    }
    let from_col = file_index_exec(input.get_char(0));
    let from_row = rank_row_exec(input.get_char(1));
    let to_col = file_index_exec(input.get_char(2));
    let to_row = rank_row_exec(input.get_char(3));
    match (from_col, from_row, to_col, to_row) {
        (Some(fc), Some(fr), Some(tc), Some(tr)) => Some(
            Move { from_row: fr, from_col: fc, to_row: tr, to_col: tc },
        ),
        _ => None,
    }
}

/// The coordinate token of a move, such as `e2e4`.
pub fn move_to_coord(m: &Move) -> (r: String)
    requires
        move_on_board(*m),
    ensures
        r@ == coord_text(*m),
{
    let mut v: Vec<char> = Vec::new();
    v.push(file_char_exec(m.from_col));
    v.push(digit_char_exec(8 - m.from_row));
    v.push(file_char_exec(m.to_col));
    v.push(digit_char_exec(8 - m.to_row));
    assert(v@ =~= coord_text(*m));
    string_of_chars(&v)
}

impl Move {
    /// The move as `from_row,from_col,to_row,to_col`.
    pub fn to_string(&self) -> (r: String)
        requires
            move_on_board(*self),
        ensures
            r@ == csv_text(*self),
    {
        let mut v: Vec<char> = Vec::new();
        v.push(digit_char_exec(self.from_row));
        v.push(',');
        v.push(digit_char_exec(self.from_col));
        v.push(',');
        v.push(digit_char_exec(self.to_row));
        v.push(',');
        v.push(digit_char_exec(self.to_col));
        assert(v@ =~= csv_text(*self));
        string_of_chars(&v)
    }
}

/// Reading the coordinate token of a move on the board gives the move back.
pub proof fn lemma_coord_round_trip(m: Move)
    requires
        move_on_board(m),
    ensures
        parse_move_spec(coord_text(m)) == Some(m),
{
}

} // verus!
