use vstd::prelude::*;
use crate::attack::{
    in_check_spec, is_in_check, knight_offset, knight_offset_exec, line_dir, line_dir_exec,
    ray_measure, unit_dir,
};
use crate::board::{
    apply_spec, forward, mk_move, move_on_board, on_board, piece_at_spec, Board, Color, Move,
    PieceType, Position,
};

verus! {

/// The eight neighbouring directions in scan order, used by kings and queens.
pub open spec fn compass(k: int) -> (int, int) {
    if k == 0 { (-1, -1) }
    else if k == 1 { (-1, 0) }
    else if k == 2 { (-1, 1) }
    else if k == 3 { (0, -1) }
    else if k == 4 { (0, 1) }
    else if k == 5 { (1, -1) }
    else if k == 6 { (1, 0) }
    else { (1, 1) }
}

/// The row from which a pawn of this side may advance two squares.
pub open spec fn pawn_start_row(color: Color) -> int {
    match color {
        Color::White => 6,
        Color::Black => 1,
    }
}

pub open spec fn all_on_board(s: Seq<Move>) -> bool {
    forall|k: int| 0 <= k < s.len() ==> move_on_board(#[trigger] s[k])
}

/// The move from (r, c) to (nr, nc) when that square is on the board and empty
/// or held by the other side.
pub open spec fn target_move(p: Position, r: int, c: int, color: Color, nr: int, nc: int) -> Seq<Move> {
    if on_board(nr, nc) && match piece_at_spec(p, nr, nc) {
        None => true,
        Some(t) => t.color != color,
    } {
        seq![mk_move(r, c, nr, nc)]
    } else {
        seq![]
    }
}

/// Knight moves (`knight`) or king moves from (r, c), over the first `n` offsets.
pub open spec fn step_moves(p: Position, r: int, c: int, color: Color, knight: bool, n: int) -> Seq<
    Move,
>
    decreases n,
{
    if n <= 0 {
        seq![]
    } else {
        let d = if knight { knight_offset(n - 1) } else { compass(n - 1) };
        step_moves(p, r, c, color, knight, n - 1) + target_move(p, r, c, color, r + d.0, c + d.1)
    }
}

/// The moves of a sliding piece on (r, c) along one line, from square (nr, nc) on.
pub open spec fn ray_moves(
    p: Position,
    r: int,
    c: int,
    nr: int,
    nc: int,
    dr: int,
    dc: int,
    color: Color,
) -> Seq<Move>
    decreases ray_measure(nr, nc, dr, dc),
{
    if !on_board(nr, nc) || !unit_dir(dr, dc) {
        seq![]
    } else {
        match piece_at_spec(p, nr, nc) {
            None => seq![mk_move(r, c, nr, nc)] + ray_moves(p, r, c, nr + dr, nc + dc, dr, dc, color),
            Some(t) => if t.color != color {
                seq![mk_move(r, c, nr, nc)]
            } else {
                seq![]
            },
        }
    }
}

pub open spec fn slide_dir(kind: PieceType, k: int) -> (int, int) {
    match kind {
        PieceType::Bishop => line_dir(k + 4),
        PieceType::Rook => line_dir(k),
        _ => compass(k),
    }
}

pub open spec fn slide_count(kind: PieceType) -> int {
    match kind {
        PieceType::Queen => 8,
        _ => 4,
    }
}

pub open spec fn slide_moves(p: Position, r: int, c: int, color: Color, kind: PieceType, n: int) -> Seq<
    Move,
>
    decreases n,
{
    if n <= 0 {
        seq![]
    } else {
        let d = slide_dir(kind, n - 1);
        slide_moves(p, r, c, color, kind, n - 1) + ray_moves(p, r, c, r + d.0, c + d.1, d.0, d.1, color)
    }
}

pub open spec fn pawn_capture(p: Position, r: int, c: int, color: Color, dc: int) -> Seq<Move> {
    let tr = r + forward(color);
    match piece_at_spec(p, tr, c + dc) {
        Some(t) => if t.color != color {
            seq![mk_move(r, c, tr, c + dc)]
        } else {
            seq![]
        },
        None => seq![],
    }
}

/// One- and two-square advances of a pawn; the second only from its start row.
pub open spec fn pawn_pushes(p: Position, r: int, c: int, color: Color) -> Seq<Move> {
    let r1 = r + forward(color);
    let r2 = r + 2 * forward(color);
    if on_board(r1, c) && piece_at_spec(p, r1, c) is None {
        seq![mk_move(r, c, r1, c)] + if r == pawn_start_row(color) && piece_at_spec(p, r2, c) is None {
            seq![mk_move(r, c, r2, c)]
        } else {
            seq![]
        }
    } else {
        seq![]
    }
}

pub open spec fn pawn_moves(p: Position, r: int, c: int, color: Color) -> Seq<Move> {
    pawn_pushes(p, r, c, color) + pawn_capture(p, r, c, color, -1) + pawn_capture(p, r, c, color, 1)
}

/// The pseudo-legal moves of the piece on (r, c), if it belongs to the side to move.
pub open spec fn square_moves(p: Position, r: int, c: int) -> Seq<Move> {
    match piece_at_spec(p, r, c) {
        Some(pc) => if pc.color == p.turn {
            match pc.piece_type {
                PieceType::Pawn => pawn_moves(p, r, c, pc.color),
                PieceType::Knight => step_moves(p, r, c, pc.color, true, 8),
                PieceType::King => step_moves(p, r, c, pc.color, false, 8),
                _ => slide_moves(p, r, c, pc.color, pc.piece_type, slide_count(pc.piece_type)),
            }
        } else {
            seq![]
        },
        None => seq![],
    }
}

pub open spec fn row_moves(p: Position, r: int, n: int) -> Seq<Move>
    decreases n,
{
    if n <= 0 {
        seq![]
    } else {
        row_moves(p, r, n - 1) + square_moves(p, r, n - 1)
    }
}

pub open spec fn board_moves(p: Position, n: int) -> Seq<Move>
    decreases n,
{
    if n <= 0 {
        seq![]
    } else {
        board_moves(p, n - 1) + row_moves(p, n - 1, 8)
    }
}

/// All pseudo-legal moves of the side to move, in board scan order.
pub open spec fn pseudo_moves(p: Position) -> Seq<Move> {
    board_moves(p, 8)
}

/// Whether making `m` leaves the mover's own king unattacked.
pub open spec fn keeps_king_safe(p: Position, m: Move) -> bool {
    !in_check_spec(apply_spec(p, m), p.turn)
}

pub open spec fn king_safe_pred(p: Position) -> spec_fn(Move) -> bool {
    |m: Move| keeps_king_safe(p, m)
}

/// The legal moves of the side to move, in generation order.
pub open spec fn legal_moves(p: Position) -> Seq<Move> {
    pseudo_moves(p).filter(king_safe_pred(p))
}

fn compass_exec(k: usize) -> (r: (i32, i32))
    requires
        k < 8,
    ensures
        r.0 as int == compass(k as int).0,
        r.1 as int == compass(k as int).1,
{
    match k {
        0 => (-1, -1),
        1 => (-1, 0),
        2 => (-1, 1),
        3 => (0, -1),
        4 => (0, 1),
        5 => (1, -1),
        6 => (1, 0),
        _ => (1, 1),
    }
}

fn push_target(b: &Board, r: usize, c: usize, color: Color, nr: i32, nc: i32, out: &mut Vec<Move>)
    requires
        r < 8,
        c < 8,
        -3 <= nr <= 10,
        -3 <= nc <= 10,
        all_on_board(old(out)@),
    ensures
        final(out)@ == old(out)@ + target_move(b@, r as int, c as int, color, nr as int, nc as int),
        all_on_board(final(out)@),
{
    if 0 <= nr && nr < 8 && 0 <= nc && nc < 8 {
        let ok = match b.get_piece(nr as usize, nc as usize) {
            None => true,
            Some(t) => t.color != color,
        };
        if ok {
            out.push(Move { from_row: r, from_col: c, to_row: nr as usize, to_col: nc as usize });
            assert(final(out)@ =~= old(out)@ + target_move(b@, r as int, c as int, color, nr as int, nc as int));
            return;
        }
    }
    assert(old(out)@ =~= old(out)@ + target_move(b@, r as int, c as int, color, nr as int, nc as int));
}

fn push_steps(b: &Board, r: usize, c: usize, color: Color, knight: bool, out: &mut Vec<Move>)
    requires
        r < 8,
        c < 8,
        all_on_board(old(out)@),
    ensures
        final(out)@ == old(out)@ + step_moves(b@, r as int, c as int, color, knight, 8),
        all_on_board(final(out)@),
{
    let ghost start = out@;
    let mut k: usize = 0;
    while k < 8
        invariant
            k <= 8,
            r < 8,
            c < 8,
            out@ == start + step_moves(b@, r as int, c as int, color, knight, k as int),
            all_on_board(out@),
        decreases 8 - k,
    {
        let (dr, dc) = if knight { knight_offset_exec(k) } else { compass_exec(k) };
        push_target(b, r, c, color, r as i32 + dr, c as i32 + dc, out);
        assert(out@ =~= start + step_moves(b@, r as int, c as int, color, knight, k + 1));
        k = k + 1;
    }
}

fn push_ray(b: &Board, r: usize, c: usize, dr: i32, dc: i32, color: Color, out: &mut Vec<Move>)
    requires
        r < 8,
        c < 8,
        unit_dir(dr as int, dc as int),
        all_on_board(old(out)@),
    ensures
        final(out)@ == old(out)@ + ray_moves(
            b@,
            r as int,
            c as int,
            r + dr,
            c + dc,
            dr as int,
            dc as int,
            color,
        ),
        all_on_board(final(out)@),
{
    let ghost start = out@;
    let ghost whole = ray_moves(b@, r as int, c as int, r + dr, c + dc, dr as int, dc as int, color);
    let mut nr: i32 = r as i32 + dr;
    let mut nc: i32 = c as i32 + dc;
    while 0 <= nr && nr < 8 && 0 <= nc && nc < 8
        invariant
            -1 <= nr <= 8,
            -1 <= nc <= 8,
            r < 8,
            c < 8,
            unit_dir(dr as int, dc as int),
            start == old(out)@,
            whole == ray_moves(b@, r as int, c as int, r + dr, c + dc, dr as int, dc as int, color),
            out@ + ray_moves(b@, r as int, c as int, nr as int, nc as int, dr as int, dc as int, color)
                == start + whole,
            all_on_board(out@),
        decreases ray_measure(nr as int, nc as int, dr as int, dc as int),
    {
        let ghost rest = ray_moves(b@, r as int, c as int, nr + dr, nc + dc, dr as int, dc as int, color);
        let ghost before = out@;
        let m = Move { from_row: r, from_col: c, to_row: nr as usize, to_col: nc as usize };
        match b.get_piece(nr as usize, nc as usize) {
            None => {
                out.push(m);
                assert(before + (seq![m] + rest) =~= out@ + rest);
            },
            Some(t) => {
                assert(ray_moves(b@, r as int, c as int, nr as int, nc as int, dr as int, dc as int, color)
                    == if t.color != color { seq![m] } else { seq![] });
                if t.color != color {
                    out.push(m);
                    assert(before + seq![m] =~= out@);
                } else {
                    assert(before + seq![] =~= out@);
                }
                assert(out@ =~= start + whole);
                return;
            },
        }
        nr = nr + dr;
        nc = nc + dc;
    }
    assert(out@ =~= start + whole);
}

fn slide_dir_exec(kind: PieceType, k: usize) -> (r: (i32, i32))
    requires
        k < 8,
        kind != PieceType::Queen ==> k < 4,
    ensures
        r.0 as int == slide_dir(kind, k as int).0,
        r.1 as int == slide_dir(kind, k as int).1,
{
    match kind {
        PieceType::Bishop => line_dir_exec(k + 4),
        PieceType::Rook => line_dir_exec(k),
        _ => compass_exec(k),
    }
}

fn push_slides(b: &Board, r: usize, c: usize, color: Color, kind: PieceType, out: &mut Vec<Move>)
    requires
        r < 8,
        c < 8,
        all_on_board(old(out)@),
    ensures
        final(out)@ == old(out)@ + slide_moves(b@, r as int, c as int, color, kind, slide_count(kind)),
        all_on_board(final(out)@),
{
    let ghost start = out@;
    let count: usize = match kind {
        PieceType::Queen => 8,
        _ => 4,
    };
    let mut k: usize = 0;
    while k < count
        invariant
            k <= count,
            count as int == slide_count(kind),
            r < 8,
            c < 8,
            out@ == start + slide_moves(b@, r as int, c as int, color, kind, k as int),
            all_on_board(out@),
        decreases count - k,
    {
        let (dr, dc) = slide_dir_exec(kind, k);
        push_ray(b, r, c, dr, dc, color, out);
        assert(out@ =~= start + slide_moves(b@, r as int, c as int, color, kind, k + 1));
        k = k + 1;
    }
}

fn push_pawn_capture(b: &Board, r: usize, c: usize, color: Color, dc: i32, out: &mut Vec<Move>)
    requires
        r < 8,
        c < 8,
        dc == -1 || dc == 1,
        all_on_board(old(out)@),
    ensures
        final(out)@ == old(out)@ + pawn_capture(b@, r as int, c as int, color, dc as int),
        all_on_board(final(out)@),
{
    let dir: i32 = match color {
        Color::White => -1,
        Color::Black => 1,
    };
    let tr = r as i32 + dir;
    let tc = c as i32 + dc;
    if 0 <= tr && tr < 8 && 0 <= tc && tc < 8 {
        if let Some(t) = b.get_piece(tr as usize, tc as usize) {
            if t.color != color {
                out.push(Move { from_row: r, from_col: c, to_row: tr as usize, to_col: tc as usize });
                assert(final(out)@ =~= old(out)@ + pawn_capture(b@, r as int, c as int, color, dc as int));
                return;
            }
        }
    }
    assert(old(out)@ =~= old(out)@ + pawn_capture(b@, r as int, c as int, color, dc as int));
}

fn push_pawn_pushes(b: &Board, r: usize, c: usize, color: Color, out: &mut Vec<Move>)
    requires
        r < 8,
        c < 8,
        all_on_board(old(out)@),
    ensures
        final(out)@ == old(out)@ + pawn_pushes(b@, r as int, c as int, color),
        all_on_board(final(out)@),
{
    let dir: i32 = match color {
        Color::White => -1,
        Color::Black => 1,
    };
    let start_row: usize = match color {
        Color::White => 6,
        Color::Black => 1,
    };
    let r1 = r as i32 + dir;
    if 0 <= r1 && r1 < 8 && b.get_piece(r1 as usize, c).is_none() {
        let m1 = Move { from_row: r, from_col: c, to_row: r1 as usize, to_col: c };
        out.push(m1);
        if r == start_row {
            let r2 = r as i32 + 2 * dir;
            let m2 = Move { from_row: r, from_col: c, to_row: r2 as usize, to_col: c };
            if b.get_piece(r2 as usize, c).is_none() {
                out.push(m2);
                assert(final(out)@ =~= old(out)@ + (seq![m1] + seq![m2]));
                return;
            }
        }
        assert(final(out)@ =~= old(out)@ + (seq![m1] + seq![]));
        return;
    }
    assert(old(out)@ =~= old(out)@ + seq![]);
}

fn push_pawn(b: &Board, r: usize, c: usize, color: Color, out: &mut Vec<Move>)
    requires
        r < 8,
        c < 8,
        all_on_board(old(out)@),
    ensures
        final(out)@ == old(out)@ + pawn_moves(b@, r as int, c as int, color),
        all_on_board(final(out)@),
{
    let ghost start = out@;
    let ghost a = pawn_pushes(b@, r as int, c as int, color);
    let ghost x = pawn_capture(b@, r as int, c as int, color, -1);
    let ghost y = pawn_capture(b@, r as int, c as int, color, 1);
    push_pawn_pushes(b, r, c, color, out);
    push_pawn_capture(b, r, c, color, -1, out);
    push_pawn_capture(b, r, c, color, 1, out);
    assert(out@ == start + a + x + y);
    assert(start + a + x + y =~= start + (a + x + y));
}

fn push_square_moves(b: &Board, r: usize, c: usize, out: &mut Vec<Move>)
    requires
        r < 8,
        c < 8,
        all_on_board(old(out)@),
    ensures
        final(out)@ == old(out)@ + square_moves(b@, r as int, c as int),
        all_on_board(final(out)@),
{
    match b.get_piece(r, c) {
        Some(pc) => {
            if pc.color == b.turn {
                match pc.piece_type {
                    PieceType::Pawn => push_pawn(b, r, c, pc.color, out),
                    PieceType::Knight => push_steps(b, r, c, pc.color, true, out),
                    PieceType::King => push_steps(b, r, c, pc.color, false, out),
                    _ => push_slides(b, r, c, pc.color, pc.piece_type, out),
                }
                return;
            }
        },
        None => {},
    }
    assert(old(out)@ =~= old(out)@ + square_moves(b@, r as int, c as int));
}

/// All pseudo-legal moves of the side to move, in board scan order.
pub fn pseudo_legal_moves(b: &Board) -> (r: Vec<Move>)
    ensures
        r@ == pseudo_moves(b@),
        all_on_board(r@),
{
    let mut moves: Vec<Move> = Vec::new();
    let mut r: usize = 0;
    while r < 8
        invariant
            r <= 8,
            moves@ == board_moves(b@, r as int),
            all_on_board(moves@),
        decreases 8 - r,
    {
        let mut c: usize = 0;
        while c < 8
            invariant
                r < 8,
                c <= 8,
                moves@ == board_moves(b@, r as int) + row_moves(b@, r as int, c as int),
                all_on_board(moves@),
            decreases 8 - c,
        {
            push_square_moves(b, r, c, &mut moves);
            assert(moves@ =~= board_moves(b@, r as int) + row_moves(b@, r as int, c + 1));
            c = c + 1;
        }
        r = r + 1;
    }
    moves
}

/// The legal moves of the side to move: the pseudo-legal ones, in the same
/// order, that do not leave the mover's king attacked.
pub fn generate_moves(b: &Board) -> (r: Vec<Move>)
    ensures
        r@ == legal_moves(b@),
        all_on_board(r@),
{
    let pseudo = pseudo_legal_moves(b);
    let ghost keep = king_safe_pred(b@);
    let mut moves: Vec<Move> = Vec::new();
    let mut i: usize = 0;
    while i < pseudo.len()
        invariant
            i <= pseudo@.len(),
            pseudo@ == pseudo_moves(b@),
            all_on_board(pseudo@),
            all_on_board(moves@),
            keep == king_safe_pred(b@),
            moves@ == pseudo@.subrange(0, i as int).filter(keep),
        decreases pseudo.len() - i,
    {
        let m = pseudo[i];
        let mut after = *b;
        after.make_move(&m);
        assert(pseudo@.subrange(0, i + 1).drop_last() =~= pseudo@.subrange(0, i as int));
        assert(pseudo@.subrange(0, i + 1).last() == m);
        proof {
            reveal(Seq::filter);
        }
        let ghost prefix = pseudo@.subrange(0, i + 1);
        assert(prefix.filter(keep) == if keep(m) {
            pseudo@.subrange(0, i as int).filter(keep).push(m)
        } else {
            pseudo@.subrange(0, i as int).filter(keep)
        });
        if !is_in_check(&after, b.turn) {
            assert(keep(m));
            moves.push(m);
        } else {
            assert(!keep(m));
        }
        i = i + 1;
    }
    assert(pseudo@.subrange(0, pseudo@.len() as int) =~= pseudo@);
    moves
}

/// Every move that the generator returns leaves the mover's own king
/// unattacked once it is made.
pub proof fn lemma_legal_moves_keep_king_safe(p: Position, m: Move)
    requires
        legal_moves(p).contains(m),
    ensures
        !in_check_spec(apply_spec(p, m), p.turn),
{
    broadcast use vstd::seq_lib::group_filter_ensures;

    let keep = king_safe_pred(p);
    let k = choose|k: int| 0 <= k < legal_moves(p).len() && legal_moves(p)[k] == m;
    assert(keep(legal_moves(p)[k]));
}

} // verus!
