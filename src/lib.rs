//! A small chess engine: position model, legal move generation, check
//! detection, material evaluation and alpha-beta search.
use vstd::prelude::*;

pub mod board;
pub mod attack;
pub mod movegen;
pub mod eval;
pub mod search;
pub mod fen;
pub mod notation;

pub use attack::is_in_check;
pub use board::{Board, Color, Move, Piece, PieceType};
pub use eval::evaluate;
pub use fen::{board_to_fen, FenError};
pub use movegen::generate_moves;
pub use notation::{move_to_coord, parse_move};
pub use search::{alpha_beta, best_move};

use fen::decode_spec;
use notation::csv_text;
use search::search_choice;

verus! {

/// Reads a position text and searches it `depth` plies deep, skipping the
/// moves in `excluded` at the root.
pub fn get_best_move_core(fen: &str, depth: u8, excluded: &Vec<Move>) -> (r: Result<
    Option<Move>,
    FenError,
>)
    requires
        depth >= 1,
    ensures
        match decode_spec(fen@) {
            Ok(p) => r matches Ok(choice) && search_choice(p, excluded@, depth as nat, choice),
            Err(e) => r == Err::<Option<Move>, FenError>(e),
        },
{
    match board::Board::from_fen(fen) {
        Ok(board) => Ok(best_move(&board, depth, excluded)),
        Err(e) => Err(e),
    }
}

/// The best move for a position text, as `from_row,from_col,to_row,to_col`,
/// or the empty string when the side to move has no legal move or the text is
/// malformed (`get_best_move_core` tells the two apart).
pub fn get_best_move(fen: &str, depth: u8) -> (r: String)
    requires
        depth >= 1,
    ensures
        decode_spec(fen@) is Err ==> r@ == Seq::<char>::empty(),
        decode_spec(fen@) is Ok ==> exists|choice: Option<Move>|
            search_choice(decode_spec(fen@)->Ok_0, Seq::empty(), depth as nat, choice) && r@ == match choice {
                Some(m) => csv_text(m),
                None => Seq::<char>::empty(),
            },
{
    let board = match board::Board::from_fen(fen) {
        Ok(b) => b,
        Err(_) => {
            return String::new();
        },
    };
    let none: Vec<Move> = Vec::new();
    assert(none@ =~= Seq::<Move>::empty());
    let choice = best_move(&board, depth, &none);
    match choice {
        Some(m) => {
            m.to_string()
        },
        None => String::new(),
    }
}

} // verus!
