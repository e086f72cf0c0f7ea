use vstd::prelude::*;
use crate::board::{Board, Color, Piece, PieceType, Position};

verus! {

pub const PAWN_VAL: i32 = 100;

pub const KNIGHT_VAL: i32 = 320;

pub const BISHOP_VAL: i32 = 330;

pub const ROOK_VAL: i32 = 500;

pub const QUEEN_VAL: i32 = 900;

pub const KING_VAL: i32 = 20000;

pub open spec fn piece_value(k: PieceType) -> int {
    match k {
        PieceType::Pawn => PAWN_VAL as int,
        PieceType::Knight => KNIGHT_VAL as int,
        PieceType::Bishop => BISHOP_VAL as int,
        PieceType::Rook => ROOK_VAL as int,
        PieceType::Queen => QUEEN_VAL as int,
        PieceType::King => KING_VAL as int,
    }
}

/// A piece's value, counted for White and against Black.
pub open spec fn square_value(s: Option<Piece>) -> int {
    match s {
        None => 0,
        Some(pc) => if pc.color == Color::White {
            piece_value(pc.piece_type)
        } else {
            -piece_value(pc.piece_type)
        },
    }
}

/// The material balance of the first `n` squares.
pub open spec fn material(p: Position, n: int) -> int
    decreases n,
{
    if n <= 0 {
        0
    } else {
        material(p, n - 1) + square_value(p.squares[n - 1])
    }
}

/// The material balance of the whole board, from White's side.
pub open spec fn evaluation(p: Position) -> int {
    material(p, 64)
}

pub proof fn lemma_material_bounds(p: Position, n: int)
    requires
        0 <= n,
    ensures
        -20000 * n <= material(p, n) <= 20000 * n,
    decreases n,
{
    if n > 0 {
        lemma_material_bounds(p, n - 1);
    }
}

/// Sum of the material values of all pieces, White's counted positive and
/// Black's negative, whatever the side to move.
pub fn evaluate(board: &Board) -> (r: i32)
    ensures
        r == evaluation(board@),
{
    let mut score: i32 = 0;
    let mut i: usize = 0;
    while i < 64
        invariant
            i <= 64,
            score == material(board@, i as int),
            -20000 * i <= score <= 20000 * i,
        decreases 64 - i,
    {
        if let Some(piece) = board.squares[i] {
            let val = match piece.piece_type {
                PieceType::Pawn => PAWN_VAL,
                PieceType::Knight => KNIGHT_VAL,
                PieceType::Bishop => BISHOP_VAL,
                PieceType::Rook => ROOK_VAL,
                PieceType::Queen => QUEEN_VAL,
                PieceType::King => KING_VAL,
            };
            if piece.color == Color::White {
                score = score + val;
            } else {
                score = score - val;
            }
        }
        i = i + 1;
    }
    score
}

} // verus!
