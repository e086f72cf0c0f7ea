use vstd::prelude::*;
use crate::attack::{in_check_spec, is_in_check};
use crate::board::{apply_spec, Board, Color, Move, Position};
use crate::eval::{evaluate, evaluation, lemma_material_bounds};
use crate::movegen::{all_on_board, generate_moves, legal_moves};

verus! {

/// Score of a side that is checkmated with `depth` plies left: `-MATE_SCORE + depth`.
pub const MATE_SCORE: i32 = 100000;

/// No score, mate or material, lies outside `[-SCORE_BOUND, SCORE_BOUND]`.
pub const SCORE_BOUND: i32 = 1280000;

/// Below every score: the value of a node before any child was searched.
pub const NO_SCORE: i32 = -20000000;

/// The widest search window: it holds every score with room to spare.
pub const WINDOW: i32 = 10000000;

/// Material balance from the side to move's point of view.
pub open spec fn side_score(p: Position) -> int {
    if p.turn == Color::White {
        evaluation(p)
    } else {
        -evaluation(p)
    }
}

/// The negamax value of `p` searched `d` plies deep, for the side to move.
pub open spec fn negamax(p: Position, d: nat) -> int
    decreases d, 1nat, 0nat,
{
    if d == 0 {
        side_score(p)
    } else {
        let ms = legal_moves(p);
        if ms.len() == 0 {
            if in_check_spec(p, p.turn) {
                -(MATE_SCORE as int) + d
            } else {
                0
            }
        } else {
            best_child(p, ms, d, ms.len())
        }
    }
}

/// The best value that the side to move gets from the first `n` moves of `ms`.
pub open spec fn best_child(p: Position, ms: Seq<Move>, d: nat, n: nat) -> int
    decreases d, 0nat, n,
{
    if d == 0 || n == 0 {
        NO_SCORE as int
    } else {
        let prev = best_child(p, ms, d, (n - 1) as nat);
        let v = -negamax(apply_spec(p, ms[n - 1]), (d - 1) as nat);
        if v > prev {
            v
        } else {
            prev
        }
    }
}

pub proof fn lemma_negamax_bounds(p: Position, d: nat)
    requires
        d <= 255,
    ensures
        -(SCORE_BOUND as int) <= negamax(p, d) <= SCORE_BOUND as int,
    decreases d, 1nat, 0nat,
{
    if d == 0 {
        lemma_material_bounds(p, 64);
    } else {
        let ms = legal_moves(p);
        if ms.len() > 0 {
            lemma_best_child_bounds(p, ms, d, ms.len());
        }
    }
}

pub proof fn lemma_best_child_bounds(p: Position, ms: Seq<Move>, d: nat, n: nat)
    requires
        0 < d <= 255,
        n > 0,
    ensures
        -(SCORE_BOUND as int) <= best_child(p, ms, d, n) <= SCORE_BOUND as int,
    decreases d, 0nat, n,
{
    lemma_negamax_bounds(apply_spec(p, ms[n - 1]), (d - 1) as nat);
    if n > 1 {
        lemma_best_child_bounds(p, ms, d, (n - 1) as nat);
    }
}

pub proof fn lemma_best_child_monotone(p: Position, ms: Seq<Move>, d: nat, k: nat, n: nat)
    requires
        k <= n,
    ensures
        best_child(p, ms, d, k) <= best_child(p, ms, d, n),
    decreases n,
{
    if k < n {
        lemma_best_child_monotone(p, ms, d, k, (n - 1) as nat);
    }
}

/// The score that the alpha-beta procedure computes for `p` searched `d`
/// plies deep with window (`alpha`, `beta`): White's material at depth 0.
pub open spec fn ab_value(p: Position, d: nat, alpha: int, beta: int) -> int
    decreases d, 1nat, 0nat,
{
    if d == 0 {
        evaluation(p)
    } else {
        let ms = legal_moves(p);
        if ms.len() == 0 {
            if in_check_spec(p, p.turn) {
                -(MATE_SCORE as int) + d
            } else {
                0
            }
        } else {
            ab_scan(p, ms, d, 0, NO_SCORE as int, alpha, beta)
        }
    }
}

/// `ab_value` with the depth-0 score turned to the side to move.
pub open spec fn mover_value(p: Position, d: nat, alpha: int, beta: int) -> int
    decreases d, 2nat, 0nat,
{
    if d == 0 {
        side_score(p)
    } else {
        ab_value(p, d, alpha, beta)
    }
}

/// The scan of the moves of `ms` from the `i`-th on, with the best score
/// `best` and lower bound `a` so far; it stops once `a` reaches `beta`.
pub open spec fn ab_scan(p: Position, ms: Seq<Move>, d: nat, i: nat, best: int, a: int, beta: int) -> int
    decreases d, 0nat, ms.len() - i,
{
    if d == 0 || i >= ms.len() {
        best
    } else {
        let v = -mover_value(apply_spec(p, ms[i as int]), (d - 1) as nat, -beta, -a);
        let best2 = if v > best {
            v
        } else {
            best
        };
        let a2 = if v > a {
            v
        } else {
            a
        };
        if a2 >= beta {
            best2
        } else {
            ab_scan(p, ms, d, i + 1, best2, a2, beta)
        }
    }
}

/// `alpha_beta` with the depth-0 score turned to the side to move, as a
/// negamax caller needs it.
fn score_for_mover(board: &Board, depth: u8, alpha: i32, beta: i32) -> (r: i32)
    requires
        -WINDOW <= alpha < beta <= WINDOW,
    ensures
        -SCORE_BOUND <= r <= SCORE_BOUND,
        r == mover_value(board@, depth as nat, alpha as int, beta as int),
        depth == 0 ==> r == negamax(board@, 0),
        r <= alpha ==> negamax(board@, depth as nat) <= r,
        r >= beta ==> negamax(board@, depth as nat) >= r,
        alpha < r < beta ==> negamax(board@, depth as nat) == r,
    decreases depth, 1nat,
{
    let r = alpha_beta(board, depth, alpha, beta);
    if depth == 0 {
        match board.turn {
            Color::White => r,
            Color::Black => -r,
        }
    } else {
        r
    }
}

/// Alpha-beta search in negamax form. At depth 0 the score is `evaluate`, the
/// material balance from White's side. Deeper, the score is for the side to
/// move: a position without legal moves scores 0, or the mate score when the
/// side to move is in check; otherwise the search is fail-soft, equal to the
/// negamax value strictly inside the window and bounding it from the correct
/// side outside it. The result is `ab_value` of the inputs, so equal inputs
/// give equal results; a caller negates a depth-0 child's score for Black.
pub fn alpha_beta(board: &Board, depth: u8, alpha: i32, beta: i32) -> (r: i32)
    requires
        -WINDOW <= alpha < beta <= WINDOW,
    ensures
        -SCORE_BOUND <= r <= SCORE_BOUND,
        r == ab_value(board@, depth as nat, alpha as int, beta as int),
        depth == 0 ==> r == evaluation(board@),
        depth > 0 && legal_moves(board@).len() == 0 ==> r == if in_check_spec(board@, board@.turn) {
            -(MATE_SCORE as int) + depth
        } else {
            0
        },
        depth > 0 ==> (r <= alpha ==> negamax(board@, depth as nat) <= r),
        depth > 0 ==> (r >= beta ==> negamax(board@, depth as nat) >= r),
        depth > 0 ==> (alpha < r < beta ==> negamax(board@, depth as nat) == r),
    decreases depth, 0nat,
{
    proof {
        lemma_negamax_bounds(board@, depth as nat);
        lemma_material_bounds(board@, 64);
    }
    if depth == 0 {
        return evaluate(board);
    }
    let moves = generate_moves(board);
    if moves.len() == 0 {
        if is_in_check(board, board.turn) {
            return -MATE_SCORE + depth as i32;
        }
        return 0;
    }
    let ghost p = board@;
    let ghost ms = moves@;
    let ghost d = depth as nat;
    let mut best: i32 = NO_SCORE;
    let mut a: i32 = alpha;
    let mut i: usize = 0;
    while i < moves.len()
        invariant
            p == board@,
            ms == moves@,
            d == depth as nat,
            d > 0,
            ms == legal_moves(p),
            ms.len() > 0,
            all_on_board(ms),
            negamax(p, d) == best_child(p, ms, d, ms.len()),
            -WINDOW <= alpha < beta <= WINDOW,
            i <= ms.len(),
            a == if best > alpha { best } else { alpha },
            best < beta,
            i == 0 ==> best == NO_SCORE,
            i > 0 ==> -SCORE_BOUND <= best <= SCORE_BOUND,
            best_child(p, ms, d, i as nat) <= best,
            best > alpha ==> best_child(p, ms, d, i as nat) == best,
            ab_value(p, d, alpha as int, beta as int) == ab_scan(
                p,
                ms,
                d,
                i as nat,
                best as int,
                a as int,
                beta as int,
            ),
        decreases ms.len() - i,
    {
        let m = moves[i];
        let mut child = *board;
        child.make_move(&m);
        let v = -score_for_mover(&child, depth - 1, -beta, -a);
        proof {
            assert(best_child(p, ms, d, (i + 1) as nat) == if v_true(p, ms, d, i as int) > best_child(
                p,
                ms,
                d,
                i as nat,
            ) {
                v_true(p, ms, d, i as int)
            } else {
                best_child(p, ms, d, i as nat)
            });
        }
        if v > best {
            best = v;
        }
        if v > a {
            a = v;
        }
        if a >= beta {
            proof {
                lemma_best_child_monotone(p, ms, d, (i + 1) as nat, ms.len());
            }
            return best;
        }
        i = i + 1;
    }
    best
}

/// The value to the side to move of the `i`-th move of `ms`.
pub open spec fn v_true(p: Position, ms: Seq<Move>, d: nat, i: int) -> int {
    -negamax(apply_spec(p, ms[i]), (d - 1) as nat)
}

pub open spec fn not_excluded(ex: Seq<Move>) -> spec_fn(Move) -> bool {
    |m: Move| !ex.contains(m)
}

/// The legal moves that the search may choose, in generation order.
pub open spec fn candidates(p: Position, ex: Seq<Move>) -> Seq<Move> {
    legal_moves(p).filter(not_excluded(ex))
}

/// Whether the `k`-th candidate has the highest value, and no earlier one has it.
pub open spec fn is_first_best(p: Position, cands: Seq<Move>, d: nat, k: int) -> bool {
    &&& 0 <= k < cands.len()
    &&& forall|j: int| 0 <= j < cands.len() ==> v_true(p, cands, d, j) <= v_true(p, cands, d, k)
    &&& forall|j: int| 0 <= j < k ==> v_true(p, cands, d, j) < v_true(p, cands, d, k)
}

/// What the search may answer: `None` exactly when there is no candidate,
/// otherwise the first candidate of highest value.
pub open spec fn search_choice(p: Position, ex: Seq<Move>, d: nat, r: Option<Move>) -> bool {
    &&& r is None <==> candidates(p, ex).len() == 0
    &&& r matches Some(m) ==> exists|k: int|
        #![trigger candidates(p, ex)[k]]
        is_first_best(p, candidates(p, ex), d, k) && candidates(p, ex)[k] == m
}

fn contains_move(v: &Vec<Move>, m: &Move) -> (r: bool)
    ensures
        r == v@.contains(*m),
{
    let mut i: usize = 0;
    while i < v.len()
        invariant
            i <= v@.len(),
            forall|j: int| 0 <= j < i ==> v@[j] != *m,
        decreases v.len() - i,
    {
        if v[i] == *m {
            return true;
        }
        i = i + 1;
    }
    false
}

/// The searched value of making `m`: the child is searched `depth - 1` plies
/// with a window wide enough to make the result exact.
fn move_value(board: &Board, m: &Move, depth: u8) -> (r: i32)
    requires
        depth >= 1,
        crate::board::move_on_board(*m),
    ensures
        r == -negamax(apply_spec(board@, *m), (depth - 1) as nat),
        -SCORE_BOUND <= r <= SCORE_BOUND,
{
    let mut child = *board;
    child.make_move(m);
    -score_for_mover(&child, depth - 1, -WINDOW, WINDOW)
}

/// The best move for the side to move among the legal moves not listed in
/// `excluded`, searched `depth` plies deep; the first of equally good moves
/// wins. `None` exactly when no such move exists.
pub fn best_move(board: &Board, depth: u8, excluded: &Vec<Move>) -> (r: Option<Move>)
    requires
        depth >= 1,
    ensures
        search_choice(board@, excluded@, depth as nat, r),
        r matches Some(m) ==> crate::board::move_on_board(m),
{
    let legal = generate_moves(board);
    let ghost keep = not_excluded(excluded@);
    let mut cands: Vec<Move> = Vec::new();
    let mut i: usize = 0;
    while i < legal.len()
        invariant
            i <= legal@.len(),
            legal@ == legal_moves(board@),
            all_on_board(legal@),
            keep == not_excluded(excluded@),
            cands@ == legal@.subrange(0, i as int).filter(keep),
        decreases legal.len() - i,
    {
        let m = legal[i];
        assert(legal@.subrange(0, i + 1).drop_last() =~= legal@.subrange(0, i as int));
        assert(legal@.subrange(0, i + 1).last() == m);
        proof {
            reveal(Seq::filter);
        }
        if !contains_move(excluded, &m) {
            cands.push(m);
        }
        i = i + 1;
    }
    assert(legal@.subrange(0, legal@.len() as int) =~= legal@);
    proof {
        broadcast use vstd::seq_lib::group_filter_ensures;

        assert forall|k: int| 0 <= k < cands@.len() implies crate::board::move_on_board(
            #[trigger] cands@[k],
        ) by {
            assert(cands@.contains(cands@[k]));
            legal@.lemma_filter_contains_rev(keep, cands@[k]);
            let x = choose|x: int| 0 <= x < legal@.len() && legal@[x] == cands@[k];
            assert(crate::board::move_on_board(legal@[x]));
        }
    }
    if cands.len() == 0 {
        return None;
    }
    let ghost p = board@;
    let ghost cs = cands@;
    let ghost d = depth as nat;
    let mut best_idx: usize = 0;
    let mut best_val: i32 = move_value(board, &cands[0], depth);
    let mut j: usize = 1;
    while j < cands.len()
        invariant
            p == board@,
            cs == cands@,
            d == depth as nat,
            depth >= 1,
            cs == candidates(p, excluded@),
            forall|k: int| 0 <= k < cs.len() ==> crate::board::move_on_board(#[trigger] cs[k]),
            1 <= j <= cs.len(),
            best_idx < j,
            best_val == v_true(p, cs, d, best_idx as int),
            forall|k: int| 0 <= k < j ==> v_true(p, cs, d, k) <= best_val,
            forall|k: int| 0 <= k < best_idx ==> v_true(p, cs, d, k) < best_val,
        decreases cs.len() - j,
    {
        let v = move_value(board, &cands[j], depth);
        if v > best_val {
            best_val = v;
            best_idx = j;
        }
        j = j + 1;
    }
    assert(is_first_best(p, cs, d, best_idx as int));
    Some(cands[best_idx])
}

/// In a position with exactly two legal moves, excluding the one the search
/// picks makes the search pick the other.
pub proof fn lemma_exclude_best_of_two(
    p: Position,
    d: nat,
    m1: Move,
    m2: Move,
    r: Option<Move>,
)
    requires
        legal_moves(p) == seq![m1, m2],
        m1 != m2,
        search_choice(p, Seq::empty(), d, Some(m1)),
        search_choice(p, seq![m1], d, r),
    ensures
        r == Some(m2),
{
    let ms = legal_moves(p);
    let keep = not_excluded(seq![m1]);
    assert(seq![m1].contains(m1)) by {
        assert(seq![m1][0] == m1);
    }
    assert(!seq![m1].contains(m2)) by {
        if seq![m1].contains(m2) {
            let k = choose|k: int| 0 <= k < 1 && seq![m1][k] == m2;
            assert(k == 0);
        }
    }
    assert(ms.drop_last() =~= seq![m1]);
    assert(ms.drop_last().drop_last() =~= Seq::<Move>::empty());
    reveal_with_fuel(Seq::filter, 3);
    assert(candidates(p, seq![m1]) =~= seq![m2]);
}

/// A position without legal moves is scored as stalemate (0) or, when the side
/// to move is in check, as checkmate; the root search then returns no move.
pub proof fn lemma_terminal_position(p: Position, d: nat, ex: Seq<Move>, r: Option<Move>)
    requires
        d > 0,
        legal_moves(p).len() == 0,
        search_choice(p, ex, d, r),
    ensures
        negamax(p, d) == if in_check_spec(p, p.turn) {
            -(MATE_SCORE as int) + d
        } else {
            0
        },
        r is None,
{
    broadcast use vstd::seq_lib::group_filter_ensures;

}

/// The search's answer is unique: two moves that both meet `search_choice`
/// are the same move.
pub proof fn lemma_search_choice_unique(p: Position, ex: Seq<Move>, d: nat, m1: Move, m2: Move)
    requires
        search_choice(p, ex, d, Some(m1)),
        search_choice(p, ex, d, Some(m2)),
    ensures
        m1 == m2,
{
    let cs = candidates(p, ex);
    let k1 = choose|k: int| #![trigger cs[k]] is_first_best(p, cs, d, k) && cs[k] == m1;
    let k2 = choose|k: int| #![trigger cs[k]] is_first_best(p, cs, d, k) && cs[k] == m2;
    if k1 < k2 {
        assert(v_true(p, cs, d, k1) < v_true(p, cs, d, k2));
        assert(v_true(p, cs, d, k2) <= v_true(p, cs, d, k1));
    } else if k2 < k1 {
        assert(v_true(p, cs, d, k2) < v_true(p, cs, d, k1));
        assert(v_true(p, cs, d, k1) <= v_true(p, cs, d, k2));
    }
}

/// Whether `p` is one of the boards in `recent`.
pub open spec fn seen_before(p: Position, recent: Seq<Board>) -> bool {
    exists|i: int| 0 <= i < recent.len() && (#[trigger] recent[i])@ == p
}

/// How many times the search is asked again when its move repeats a recent board.
pub const REPEAT_TRIES: usize = 5;

/// The search's answer as a value: the first candidate of highest value, if any.
pub open spec fn chosen_move(p: Position, ex: Seq<Move>, d: nat) -> Option<Move> {
    let cs = candidates(p, ex);
    if exists|k: int| is_first_best(p, cs, d, k) {
        Some(cs[choose|k: int| is_first_best(p, cs, d, k)])
    } else {
        None
    }
}

/// The move picked with at most `n` searches: each search excludes the moves
/// found before, and a move that brings back a board of `recent` is passed over.
pub open spec fn bot_choice(p: Position, recent: Seq<Board>, d: nat, ex: Seq<Move>, n: nat) -> Option<
    Move,
>
    decreases n,
{
    if n == 0 {
        None
    } else {
        match chosen_move(p, ex, d) {
            None => None,
            Some(m) => if seen_before(apply_spec(p, m), recent) {
                bot_choice(p, recent, d, ex.push(m), (n - 1) as nat)
            } else {
                Some(m)
            },
        }
    }
}

/// What `best_move` returns is `chosen_move`.
pub proof fn lemma_search_choice_is_chosen(p: Position, ex: Seq<Move>, d: nat, r: Option<Move>)
    requires
        search_choice(p, ex, d, r),
    ensures
        chosen_move(p, ex, d) == r,
{
    let cs = candidates(p, ex);
    match r {
        None => {
            assert(!exists|k: int| is_first_best(p, cs, d, k));
        },
        Some(m) => {
            let k1 = choose|k: int| #![trigger cs[k]] is_first_best(p, cs, d, k) && cs[k] == m;
            let k2 = choose|k: int| is_first_best(p, cs, d, k);
            assert(search_choice(p, ex, d, Some(cs[k2])));
            lemma_search_choice_unique(p, ex, d, m, cs[k2]);
        },
    }
}

/// Picks a move with `best_move`, asking again without it, up to
/// `REPEAT_TRIES` searches in all, while the move would bring back a board of
/// `recent`. The move returned is legal and does not repeat a recent board.
pub fn choose_move(board: &Board, depth: u8, recent: &Vec<Board>) -> (r: Option<Move>)
    requires
        depth >= 1,
    ensures
        r == bot_choice(board@, recent@, depth as nat, Seq::empty(), REPEAT_TRIES as nat),
        r matches Some(m) ==> legal_moves(board@).contains(m) && !seen_before(
            apply_spec(board@, m),
            recent@,
        ),
        legal_moves(board@).len() == 0 ==> r is None,
{
    let mut excluded: Vec<Move> = Vec::new();
    let mut tries: usize = 0;
    while tries < REPEAT_TRIES
        invariant
            depth >= 1,
            tries <= REPEAT_TRIES,
            bot_choice(board@, recent@, depth as nat, Seq::empty(), REPEAT_TRIES as nat)
                == bot_choice(board@, recent@, depth as nat, excluded@, (REPEAT_TRIES - tries) as nat),
        decreases REPEAT_TRIES - tries,
    {
        let choice = best_move(board, depth, &excluded);
        proof {
            lemma_search_choice_is_chosen(board@, excluded@, depth as nat, choice);
        }
        let m = match choice {
            Some(m) => m,
            None => {
                return None;
            },
        };
        proof {
            let cs = candidates(board@, excluded@);
            let k = choose|k: int|
                #![trigger cs[k]]
                is_first_best(board@, cs, depth as nat, k) && cs[k] == m;
            assert(cs.contains(m));
            legal_moves(board@).lemma_filter_contains_rev(not_excluded(excluded@), m);
        }
        let mut after = *board;
        after.make_move(&m);
        let mut repeated = false;
        let mut i: usize = 0;
        while i < recent.len()
            invariant
                i <= recent@.len(),
                !repeated ==> forall|j: int| 0 <= j < i ==> (#[trigger] recent@[j])@ != after@,
                repeated ==> seen_before(after@, recent@),
            decreases recent.len() - i,
        {
            if recent[i].same_position(&after) {
                repeated = true;
            }
            i = i + 1;
        }
        if !repeated {
            return Some(m);
        }
        excluded.push(m);
        tries = tries + 1;
    }
    None
}

} // verus!
