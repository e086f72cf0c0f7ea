use vstd::prelude::*;

verus! {

/// The kind of a chess piece.
#[derive(Clone, Copy, PartialEq, Eq, Structural, Debug)]
pub enum PieceType {
    Pawn,
    Knight,
    Bishop,
    Rook,
    Queen,
    King,
}

/// A side. White moves first; its pawns advance toward row 0.
#[derive(Clone, Copy, PartialEq, Eq, Structural, Debug)]
pub enum Color {
    White,
    Black,
}

#[derive(Clone, Copy, PartialEq, Eq, Structural, Debug)]
pub struct Piece {
    pub piece_type: PieceType,
    pub color: Color,
}

/// A move from one square to another, as (row, column) pairs.
#[derive(Clone, Copy, PartialEq, Eq, Structural, Debug)]
pub struct Move {
    pub from_row: usize,
    pub from_col: usize,
    pub to_row: usize,
    pub to_col: usize,
}

/// Squares are stored row by row: square (r, c) is at index `r * 8 + c`.
#[derive(Clone, Copy)]
pub struct Board {
    pub squares: [Option<Piece>; 64],
    pub turn: Color,
}

/// The mathematical model of a board.
pub struct Position {
    pub squares: Seq<Option<Piece>>,
    pub turn: Color,
}

impl View for Board {
    type V = Position;

    open spec fn view(&self) -> Position {
        Position { squares: self.squares@, turn: self.turn }
    }
}

pub open spec fn opponent(c: Color) -> Color {
    match c {
        Color::White => Color::Black,
        Color::Black => Color::White,
    }
}

/// Row step of a pawn of this side.
pub open spec fn forward(c: Color) -> int {
    match c {
        Color::White => -1,
        Color::Black => 1,
    }
}

/// The row on which a pawn of this side is promoted.
pub open spec fn promotion_row(c: Color) -> int {
    match c {
        Color::White => 0,
        Color::Black => 7,
    }
}

pub open spec fn on_board(r: int, c: int) -> bool {
    0 <= r < 8 && 0 <= c < 8
}

pub open spec fn square_index(r: int, c: int) -> int {
    r * 8 + c
}

pub open spec fn piece_at_spec(p: Position, r: int, c: int) -> Option<Piece> {
    if on_board(r, c) {
        p.squares[square_index(r, c)]
    } else {
        None
    }
}

pub open spec fn move_on_board(m: Move) -> bool {
    m.from_row < 8 && m.from_col < 8 && m.to_row < 8 && m.to_col < 8
}

pub open spec fn mk_move(r: int, c: int, tr: int, tc: int) -> Move {
    Move { from_row: r as usize, from_col: c as usize, to_row: tr as usize, to_col: tc as usize }
}

/// What stands on the destination square after `piece` moved to row `to_row`.
pub open spec fn landed(piece: Option<Piece>, to_row: int) -> Option<Piece> {
    match piece {
        Some(pc) => if pc.piece_type == PieceType::Pawn && to_row == promotion_row(pc.color) {
            Some(Piece { piece_type: PieceType::Queen, color: pc.color })
        } else {
            Some(pc)
        },
        None => None,
    }
}

/// The position after moving the piece on `m`'s origin to its destination.
pub open spec fn apply_spec(p: Position, m: Move) -> Position {
    let from = square_index(m.from_row as int, m.from_col as int);
    let to = square_index(m.to_row as int, m.to_col as int);
    let piece = p.squares[from];
    Position {
        squares: p.squares.update(from, None).update(to, landed(piece, m.to_row as int)),
        turn: opponent(p.turn),
    }
}

impl Board {
    /// A board with no pieces, White to move.
    pub fn new() -> (r: Board)
        ensures
            forall|i: int| 0 <= i < 64 ==> r@.squares[i] is None,
            r@.turn == Color::White,
    {
        Board { squares: [None; 64], turn: Color::White }
    }

    /// The piece on (row, col), or `None` when the square is empty or off the board.
    pub fn get_piece(&self, row: usize, col: usize) -> (r: Option<Piece>)
        ensures
            r == piece_at_spec(self@, row as int, col as int),
    {
        if row >= 8 || col >= 8 {
            return None;
        }
        self.squares[row * 8 + col]
    }

    /// Moves a piece without any legality check; a pawn reaching its far row
    /// becomes a queen, and the side to move changes.
    pub fn make_move(&mut self, m: &Move)
        requires
            move_on_board(*m),
        ensures
            final(self)@ == apply_spec(old(self)@, *m),
    {
        let from = m.from_row * 8 + m.from_col;
        let to = m.to_row * 8 + m.to_col;
        let piece = self.squares[from];
        self.squares[from] = None;
        let placed = match piece {
            Some(pc) => {
                let promote = match pc.color {
                    Color::White => m.to_row == 0,
                    Color::Black => m.to_row == 7,
                };
                if pc.piece_type == PieceType::Pawn && promote {
                    Some(Piece { piece_type: PieceType::Queen, color: pc.color })
                } else {
                    Some(pc)
                }
            },
            None => None,
        };
        self.squares[to] = placed;
        self.turn = match self.turn {
            Color::White => Color::Black,
            Color::Black => Color::White,
        };
        assert(self@.squares =~= apply_spec(old(self)@, *m).squares);
    }

    /// Whether two boards hold the same pieces on the same squares, with the
    /// same side to move.
    pub fn same_position(&self, other: &Board) -> (r: bool)
        ensures
            r == (self@ == other@),
    {
        if self.turn != other.turn {
            return false;
        }
        let mut i: usize = 0;
        while i < 64
            invariant
                i <= 64,
                forall|j: int| 0 <= j < i ==> self.squares@[j] == other.squares@[j],
            decreases 64 - i,
        {
            let same = match (self.squares[i], other.squares[i]) {
                (None, None) => true,
                (Some(a), Some(b)) => a == b,
                _ => false,
            };
            if !same {
                return false;
            }
            i = i + 1;
        }
        assert(self.squares@ =~= other.squares@);
        true
    }
}

/// A pawn that reaches its far row is replaced by a queen of its own side, for
/// both sides.
pub proof fn lemma_promotion_to_queen(p: Position, m: Move)
    requires
        p.squares.len() == 64,
        move_on_board(m),
        p.squares[square_index(m.from_row as int, m.from_col as int)] matches Some(pc)
            && pc.piece_type == PieceType::Pawn && m.to_row as int == promotion_row(pc.color),
    ensures
        ({
            let pc = p.squares[square_index(m.from_row as int, m.from_col as int)].unwrap();
            piece_at_spec(apply_spec(p, m), m.to_row as int, m.to_col as int)
                == Some(Piece { piece_type: PieceType::Queen, color: pc.color })
        }),
{
}

} // verus!
