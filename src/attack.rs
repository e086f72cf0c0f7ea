use vstd::prelude::*;
use crate::board::{
    forward, on_board, opponent, piece_at_spec, square_index, Board, Color, Piece, PieceType, Position,
};

verus! {

/// Index of the first square, at `i` or later, that holds the king of `color`.
pub open spec fn find_king(p: Position, color: Color, i: int) -> Option<int>
    decreases 64 - i,
{
    if i >= 64 || i < 0 {
        None
    } else if p.squares[i] == Some(Piece { piece_type: PieceType::King, color }) {
        Some(i)
    } else {
        find_king(p, color, i + 1)
    }
}

/// Knight offsets, in generation order.
pub open spec fn knight_offset(k: int) -> (int, int) {
    if k == 0 { (-2, -1) }
    else if k == 1 { (-2, 1) }
    else if k == 2 { (-1, -2) }
    else if k == 3 { (-1, 2) }
    else if k == 4 { (1, -2) }
    else if k == 5 { (1, 2) }
    else if k == 6 { (2, -1) }
    else { (2, 1) }
}

/// The eight lines: the four orthogonal ones first, then the four diagonals.
pub open spec fn line_dir(k: int) -> (int, int) {
    if k == 0 { (-1, 0) }
    else if k == 1 { (1, 0) }
    else if k == 2 { (0, -1) }
    else if k == 3 { (0, 1) }
    else if k == 4 { (-1, -1) }
    else if k == 5 { (-1, 1) }
    else if k == 6 { (1, -1) }
    else { (1, 1) }
}

pub(crate) fn knight_offset_exec(k: usize) -> (r: (i32, i32))
    requires
        k < 8,
    ensures
        r.0 as int == knight_offset(k as int).0,
        r.1 as int == knight_offset(k as int).1,
{
    match k {
        0 => (-2, -1),
        1 => (-2, 1),
        2 => (-1, -2),
        3 => (-1, 2),
        4 => (1, -2),
        5 => (1, 2),
        6 => (2, -1),
        _ => (2, 1),
    }
}

pub(crate) fn line_dir_exec(k: usize) -> (r: (i32, i32))
    requires
        k < 8,
    ensures
        r.0 as int == line_dir(k as int).0,
        r.1 as int == line_dir(k as int).1,
{
    match k {
        0 => (-1, 0),
        1 => (1, 0),
        2 => (0, -1),
        3 => (0, 1),
        4 => (-1, -1),
        5 => (-1, 1),
        6 => (1, -1),
        _ => (1, 1),
    }
}

/// Steps left before a walk from (r, c) in direction (dr, dc) leaves the board.
pub open spec fn ray_measure(r: int, c: int, dr: int, dc: int) -> int {
    (if dr > 0 { 8 - r } else if dr < 0 { r + 1 } else { 0 }) + (if dc > 0 { 8 - c } else if dc < 0 { c
        + 1 } else { 0 })
}

pub open spec fn unit_dir(dr: int, dc: int) -> bool {
    -1 <= dr <= 1 && -1 <= dc <= 1 && !(dr == 0 && dc == 0)
}

/// Whether the first piece met walking from (r, c) in direction (dr, dc) is a
/// piece of `opp` that attacks along that line; `diag` tells the kind of line
/// and `adjacent` whether (r, c) is next to the attacked square.
pub open spec fn ray_hits(
    p: Position,
    r: int,
    c: int,
    dr: int,
    dc: int,
    opp: Color,
    diag: bool,
    adjacent: bool,
) -> bool
    decreases ray_measure(r, c, dr, dc),
{
    if !on_board(r, c) || !unit_dir(dr, dc) {
        false
    } else {
        match piece_at_spec(p, r, c) {
            None => ray_hits(p, r + dr, c + dc, dr, dc, opp, diag, false),
            Some(pc) => pc.color == opp && (pc.piece_type == PieceType::Queen || (!diag
                && pc.piece_type == PieceType::Rook) || (diag && pc.piece_type == PieceType::Bishop)
                || (adjacent && pc.piece_type == PieceType::King)),
        }
    }
}

pub open spec fn pawn_hits(p: Position, kr: int, kc: int, color: Color, dc: int) -> bool {
    let opp = opponent(color);
    piece_at_spec(p, kr - forward(opp), kc + dc) == Some(
        Piece { piece_type: PieceType::Pawn, color: opp },
    )
}

pub open spec fn knight_hits(p: Position, kr: int, kc: int, color: Color, k: int) -> bool {
    piece_at_spec(p, kr + knight_offset(k).0, kc + knight_offset(k).1) == Some(
        Piece { piece_type: PieceType::Knight, color: opponent(color) },
    )
}

pub open spec fn line_hits(p: Position, kr: int, kc: int, color: Color, k: int) -> bool {
    let (dr, dc) = line_dir(k);
    ray_hits(p, kr + dr, kc + dc, dr, dc, opponent(color), k >= 4, true)
}

/// Whether a piece of `color`'s opponent attacks square (kr, kc).
pub open spec fn attacked(p: Position, kr: int, kc: int, color: Color) -> bool {
    ||| pawn_hits(p, kr, kc, color, -1)
    ||| pawn_hits(p, kr, kc, color, 1)
    ||| exists|k: int| 0 <= k < 8 && #[trigger] knight_hits(p, kr, kc, color, k)
    ||| exists|k: int| 0 <= k < 8 && #[trigger] line_hits(p, kr, kc, color, k)
}

/// A side is in check when its king is attacked, or when it has no king.
pub open spec fn in_check_spec(p: Position, color: Color) -> bool {
    match find_king(p, color, 0) {
        None => true,
        Some(i) => attacked(p, i / 8, i % 8, color),
    }
}

fn ray_attack(b: &Board, r0: i32, c0: i32, dr: i32, dc: i32, opp: Color, diag: bool) -> (r: bool)
    requires
        -1 <= r0 <= 8,
        -1 <= c0 <= 8,
        unit_dir(dr as int, dc as int),
    ensures
        r == ray_hits(b@, r0 as int, c0 as int, dr as int, dc as int, opp, diag, true),
{
    let mut r = r0;
    let mut c = c0;
    let mut adjacent = true;
    while 0 <= r && r < 8 && 0 <= c && c < 8
        invariant
            -1 <= r <= 8,
            -1 <= c <= 8,
            unit_dir(dr as int, dc as int),
            ray_hits(b@, r0 as int, c0 as int, dr as int, dc as int, opp, diag, true)
                == ray_hits(b@, r as int, c as int, dr as int, dc as int, opp, diag, adjacent),
        decreases ray_measure(r as int, c as int, dr as int, dc as int),
    {
        match b.get_piece(r as usize, c as usize) {
            Some(pc) => {
                if pc.color == opp {
                    if pc.piece_type == PieceType::Queen {
                        return true;
                    }
                    if !diag && pc.piece_type == PieceType::Rook {
                        return true;
                    }
                    if diag && pc.piece_type == PieceType::Bishop {
                        return true;
                    }
                    if adjacent && pc.piece_type == PieceType::King {
                        return true;
                    }
                }
                return false;
            },
            None => {},
        }
        r = r + dr;
        c = c + dc;
        adjacent = false;
    }
    false
}

/// Whether the king of `color` is attacked, or absent.
pub fn is_in_check(b: &Board, color: Color) -> (r: bool)
    ensures
        r == in_check_spec(b@, color),
{
    let mut king_pos: Option<usize> = None;
    let mut i: usize = 0;
    while i < 64
        invariant_except_break
            king_pos is None,
            find_king(b@, color, 0) == find_king(b@, color, i as int),
        invariant
            i <= 64,
        ensures
            king_pos is None ==> find_king(b@, color, 0) is None,
            king_pos matches Some(k) ==> find_king(b@, color, 0) == Some(k as int) && k < 64,
        decreases 64 - i,
    {
        if let Some(p) = b.squares[i] {
            if p.piece_type == PieceType::King && p.color == color {
                assert(b@.squares[i as int] == Some(Piece { piece_type: PieceType::King, color }));
                king_pos = Some(i);
                break;
            }
        }
        i = i + 1;
    }
    let king_idx = match king_pos {
        Some(idx) => idx,
        None => {
            return true;
        },
    };
    let kr = king_idx / 8;
    let kc = king_idx % 8;
    let kr_i = kr as i32;
    let kc_i = kc as i32;
    assert(in_check_spec(b@, color) == attacked(b@, kr as int, kc as int, color));
    let opp = match color {
        Color::White => Color::Black,
        Color::Black => Color::White,
    };
    let enemy_dir: i32 = match opp {
        Color::White => -1,
        Color::Black => 1,
    };
    let pr = kr_i - enemy_dir;
    if 0 <= pr && pr < 8 && kc_i >= 1 {
        if let Some(p) = b.get_piece(pr as usize, (kc_i - 1) as usize) {
            if p.color == opp && p.piece_type == PieceType::Pawn {
                return true;
            }
        }
    }
    if 0 <= pr && pr < 8 {
        if let Some(p) = b.get_piece(pr as usize, (kc_i + 1) as usize) {
            if p.color == opp && p.piece_type == PieceType::Pawn {
                return true;
            }
        }
    }
    assert(!pawn_hits(b@, kr as int, kc as int, color, -1));
    assert(!pawn_hits(b@, kr as int, kc as int, color, 1));
    let mut k: usize = 0;
    while k < 8
        invariant
            k <= 8,
            kr < 8,
            kc < 8,
            kr_i == kr,
            kc_i == kc,
            opp == opponent(color),
            in_check_spec(b@, color) == attacked(b@, kr as int, kc as int, color),
            forall|j: int| 0 <= j < k ==> !#[trigger] knight_hits(b@, kr as int, kc as int, color, j),
        decreases 8 - k,
    {
        let (dr, dc) = knight_offset_exec(k);
        let r = kr_i + dr;
        let c = kc_i + dc;
        if 0 <= r && r < 8 && 0 <= c && c < 8 {
            if let Some(p) = b.get_piece(r as usize, c as usize) {
                if p.color == opp && p.piece_type == PieceType::Knight {
                    assert(knight_hits(b@, kr as int, kc as int, color, k as int));
                    assert(attacked(b@, kr as int, kc as int, color));
                    return true;
                }
            }
        }
        k = k + 1;
    }
    let mut k: usize = 0;
    while k < 8
        invariant
            k <= 8,
            kr < 8,
            kc < 8,
            kr_i == kr,
            kc_i == kc,
            opp == opponent(color),
            in_check_spec(b@, color) == attacked(b@, kr as int, kc as int, color),
            forall|j: int| 0 <= j < k ==> !#[trigger] line_hits(b@, kr as int, kc as int, color, j),
        decreases 8 - k,
    {
        let (dr, dc) = line_dir_exec(k);
        if ray_attack(b, kr_i + dr, kc_i + dc, dr, dc, opp, k >= 4) {
            assert(line_hits(b@, kr as int, kc as int, color, k as int));
            assert(attacked(b@, kr as int, kc as int, color));
            return true;
        }
        k = k + 1;
    }
    false
}

pub proof fn lemma_find_king_at(p: Position, color: Color, i: int, target: int)
    requires
        0 <= i <= target < 64,
        p.squares[target] == Some(Piece { piece_type: PieceType::King, color }),
        forall|j: int|
            i <= j < target ==> p.squares[j] != Some(Piece { piece_type: PieceType::King, color }),
    ensures
        find_king(p, color, i) == Some(target),
    decreases target - i,
{
    if i < target {
        lemma_find_king_at(p, color, i + 1, target);
    }
}

/// On a board that holds kings only, a ray is attacking only when it starts
/// next to the attacked square on a king of the other side.
pub proof fn lemma_ray_hits_only_kings(
    p: Position,
    r: int,
    c: int,
    dr: int,
    dc: int,
    opp: Color,
    diag: bool,
    adjacent: bool,
)
    requires
        forall|i: int|
            0 <= i < 64 && (#[trigger] p.squares[i]) is Some ==> p.squares[i]->Some_0.piece_type
                == PieceType::King,
    ensures
        ray_hits(p, r, c, dr, dc, opp, diag, adjacent) ==> adjacent && piece_at_spec(p, r, c) == Some(
            Piece { piece_type: PieceType::King, color: opp },
        ),
    decreases ray_measure(r, c, dr, dc),
{
    if on_board(r, c) && unit_dir(dr, dc) {
        assert(0 <= r * 8 + c < 64);
        if piece_at_spec(p, r, c) is None {
            lemma_ray_hits_only_kings(p, r + dr, c + dc, dr, dc, opp, diag, false);
        }
    }
}

/// Whether the board holds exactly two pieces: the king of `color` on (kr, kc)
/// and the other side's king on (or, oc).
pub open spec fn only_two_kings(p: Position, color: Color, kr: int, kc: int, or: int, oc: int) -> bool {
    &&& on_board(kr, kc)
    &&& on_board(or, oc)
    &&& forall|i: int|
        0 <= i < 64 ==> #[trigger] p.squares[i] == if i == kr * 8 + kc {
            Some(Piece { piece_type: PieceType::King, color })
        } else if i == or * 8 + oc {
            Some(Piece { piece_type: PieceType::King, color: opponent(color) })
        } else {
            None
        }
}

/// With only the two kings on the board, and the kings not next to each
/// other, neither side is in check.
pub proof fn lemma_lone_kings_not_in_check(p: Position, color: Color, kr: int, kc: int, or: int, oc: int)
    requires
        only_two_kings(p, color, kr, kc, or, oc),
        kr - or >= 2 || or - kr >= 2 || kc - oc >= 2 || oc - kc >= 2,
    ensures
        !in_check_spec(p, color),
        !in_check_spec(p, opponent(color)),
{
    lemma_not_in_check_one_side(p, color, kr, kc, or, oc);
    assert(only_two_kings(p, opponent(color), or, oc, kr, kc)) by {
        assert(opponent(opponent(color)) == color);
    }
    lemma_not_in_check_one_side(p, opponent(color), or, oc, kr, kc);
}

proof fn lemma_not_in_check_one_side(p: Position, color: Color, kr: int, kc: int, or: int, oc: int)
    requires
        only_two_kings(p, color, kr, kc, or, oc),
        kr - or >= 2 || or - kr >= 2 || kc - oc >= 2 || oc - kc >= 2,
    ensures
        !in_check_spec(p, color),
{
    let ki = kr * 8 + kc;
    assert(p.squares[ki] == Some(Piece { piece_type: PieceType::King, color }));
    assert forall|j: int| 0 <= j < ki implies p.squares[j] != Some(
        Piece { piece_type: PieceType::King, color },
    ) by {
        assert(p.squares[j] == if j == kr * 8 + kc {
            Some(Piece { piece_type: PieceType::King, color })
        } else if j == or * 8 + oc {
            Some(Piece { piece_type: PieceType::King, color: opponent(color) })
        } else {
            None
        });
    }
    lemma_find_king_at(p, color, 0, ki);
    vstd::arithmetic::div_mod::lemma_fundamental_div_mod_converse(ki, 8, kr, kc);
    assert forall|i: int|
        0 <= i < 64 && (#[trigger] p.squares[i]) is Some implies p.squares[i]->Some_0.piece_type
        == PieceType::King by {
        assert(p.squares[i] == if i == kr * 8 + kc {
            Some(Piece { piece_type: PieceType::King, color })
        } else if i == or * 8 + oc {
            Some(Piece { piece_type: PieceType::King, color: opponent(color) })
        } else {
            None
        });
    }
    let opp = opponent(color);
    assert(!pawn_hits(p, kr, kc, color, -1) && !pawn_hits(p, kr, kc, color, 1)) by {
        let a = square_index(kr - forward(opp), kc - 1);
        let b = square_index(kr - forward(opp), kc + 1);
        if on_board(kr - forward(opp), kc - 1) {
            assert(0 <= a < 64);
        }
        if on_board(kr - forward(opp), kc + 1) {
            assert(0 <= b < 64);
        }
    }
    assert forall|k: int| 0 <= k < 8 implies !#[trigger] knight_hits(p, kr, kc, color, k) by {
        let r = kr + knight_offset(k).0;
        let c = kc + knight_offset(k).1;
        if on_board(r, c) {
            assert(0 <= square_index(r, c) < 64);
        }
    }
    assert forall|k: int| 0 <= k < 8 implies !#[trigger] line_hits(p, kr, kc, color, k) by {
        let (dr, dc) = line_dir(k);
        lemma_ray_hits_only_kings(p, kr + dr, kc + dc, dr, dc, opp, k >= 4, true);
        if piece_at_spec(p, kr + dr, kc + dc) == Some(Piece { piece_type: PieceType::King, color: opp }) {
            let i = (kr + dr) * 8 + (kc + dc);
            assert(0 <= i < 64);
            assert(p.squares[i] == if i == kr * 8 + kc {
                Some(Piece { piece_type: PieceType::King, color })
            } else if i == or * 8 + oc {
                Some(Piece { piece_type: PieceType::King, color: opp })
            } else {
                None
            });
            assert(i == or * 8 + oc);
        }
    }
}

} // verus!
