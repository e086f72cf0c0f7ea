use vstd::prelude::*;
use crate::board::{piece_at_spec, Board, Color, Move, Piece, PieceType, Position};

verus! {

/// Why a position text was refused.
#[derive(Clone, Copy, PartialEq, Eq, Structural, Debug)]
pub enum FenError {
    /// Not eight rank groups, a rank group that does not cover eight squares,
    /// or a character that is neither a digit nor a piece letter.
    MalformedInput,
}

/// The characters with the Unicode `White_Space` property, as `char::is_whitespace`
/// accepts them.
pub open spec fn is_space(ch: char) -> bool {
    ||| ch == '\u{0009}' || ch == '\u{000A}' || ch == '\u{000B}' || ch == '\u{000C}' || ch == '\u{000D}'
    ||| ch == '\u{0020}' || ch == '\u{0085}' || ch == '\u{00A0}' || ch == '\u{1680}'
    ||| ch == '\u{2000}' || ch == '\u{2001}' || ch == '\u{2002}' || ch == '\u{2003}' || ch == '\u{2004}'
    ||| ch == '\u{2005}' || ch == '\u{2006}' || ch == '\u{2007}' || ch == '\u{2008}' || ch == '\u{2009}'
    ||| ch == '\u{200A}' || ch == '\u{2028}' || ch == '\u{2029}' || ch == '\u{202F}' || ch == '\u{205F}'
    ||| ch == '\u{3000}'
}

/// The first index at or after `i` that does not hold a space.
pub open spec fn skip_spaces(s: Seq<char>, i: int) -> int
    decreases s.len() - i,
{
    if i < 0 || i >= s.len() || !is_space(s[i]) {
        i
    } else {
        skip_spaces(s, i + 1)
    }
}

/// The first index at or after `i` that holds a space, or the end.
pub open spec fn token_end(s: Seq<char>, i: int) -> int
    decreases s.len() - i,
{
    if i < 0 || i >= s.len() || is_space(s[i]) {
        i
    } else {
        token_end(s, i + 1)
    }
}

/// The first whitespace-separated field: the piece placement.
pub open spec fn placement_field(s: Seq<char>) -> Seq<char> {
    let start = skip_spaces(s, 0);
    s.subrange(start, token_end(s, start))
}

/// The second whitespace-separated field: the side to move (empty if absent).
pub open spec fn side_field(s: Seq<char>) -> Seq<char> {
    let start = skip_spaces(s, token_end(s, skip_spaces(s, 0)));
    s.subrange(start, token_end(s, start))
}

/// White moves when the side field is absent or `w`; any other value gives Black.
pub open spec fn side_of(f: Seq<char>) -> Color {
    if f.len() == 0 || f == seq!['w'] {
        Color::White
    } else {
        Color::Black
    }
}

pub open spec fn digit_value(ch: char) -> Option<int> {
    if ch == '0' { Some(0) }
    else if ch == '1' { Some(1) }
    else if ch == '2' { Some(2) }
    else if ch == '3' { Some(3) }
    else if ch == '4' { Some(4) }
    else if ch == '5' { Some(5) }
    else if ch == '6' { Some(6) }
    else if ch == '7' { Some(7) }
    else if ch == '8' { Some(8) }
    else if ch == '9' { Some(9) }
    else { None }
}

pub open spec fn kind_of_letter(ch: char) -> Option<PieceType> {
    if ch == 'p' || ch == 'P' { Some(PieceType::Pawn) }
    else if ch == 'n' || ch == 'N' { Some(PieceType::Knight) }
    else if ch == 'b' || ch == 'B' { Some(PieceType::Bishop) }
    else if ch == 'r' || ch == 'R' { Some(PieceType::Rook) }
    else if ch == 'q' || ch == 'Q' { Some(PieceType::Queen) }
    else if ch == 'k' || ch == 'K' { Some(PieceType::King) }
    else { None }
}

/// The piece that a letter stands for: upper case for White, lower case for Black.
pub open spec fn piece_of_char(ch: char) -> Option<Piece> {
    match kind_of_letter(ch) {
        Some(k) => Some(Piece {
            piece_type: k,
            color: if ch == 'P' || ch == 'N' || ch == 'B' || ch == 'R' || ch == 'Q' || ch == 'K' {
                Color::White
            } else {
                Color::Black
            },
        }),
        None => None,
    }
}

/// Where reading a placement field has got to.
pub struct PlaceState {
    pub row: int,
    pub col: int,
    pub squares: Seq<Option<Piece>>,
    pub ok: bool,
}

pub open spec fn place_start() -> PlaceState {
    PlaceState { row: 0, col: 0, squares: Seq::new(64, |i: int| None), ok: true }
}

pub open spec fn place_fail(s: PlaceState) -> PlaceState {
    PlaceState { ok: false, ..s }
}

/// Reads one character of a placement field. `/` closes a full rank, a digit
/// skips that many squares, a letter places a piece.
pub open spec fn place_step(s: PlaceState, ch: char) -> PlaceState {
    if !s.ok {
        s
    } else if ch == '/' {
        if s.col == 8 && s.row < 7 {
            PlaceState { row: s.row + 1, col: 0, ..s }
        } else {
            place_fail(s)
        }
    } else if digit_value(ch) is Some {
        let n = s.col + digit_value(ch).unwrap();
        if n <= 8 {
            PlaceState { col: n, ..s }
        } else {
            place_fail(s)
        }
    } else if piece_of_char(ch) is Some {
        if s.col < 8 {
            PlaceState {
                col: s.col + 1,
                squares: s.squares.update(s.row * 8 + s.col, piece_of_char(ch)),
                ..s
            }
        } else {
            place_fail(s)
        }
    } else {
        place_fail(s)
    }
}

/// The state after reading the first `n` characters of `f`.
pub open spec fn place_run(f: Seq<char>, n: int) -> PlaceState
    decreases n,
{
    if n <= 0 {
        place_start()
    } else {
        place_step(place_run(f, n - 1), f[n - 1])
    }
}

/// The position that a text describes, or why it is refused.
pub open spec fn decode_spec(s: Seq<char>) -> Result<Position, FenError> {
    let f = placement_field(s);
    let st = place_run(f, f.len() as int);
    if st.ok && st.row == 7 && st.col == 8 {
        Ok(Position { squares: st.squares, turn: side_of(side_field(s)) })
    } else {
        Err(FenError::MalformedInput)
    }
}

fn is_space_exec(ch: char) -> (r: bool)
    ensures
        r == is_space(ch),
{
    match ch {
        '\u{0009}' | '\u{000A}' | '\u{000B}' | '\u{000C}' | '\u{000D}' | '\u{0020}' | '\u{0085}'
        | '\u{00A0}' | '\u{1680}' | '\u{2000}' | '\u{2001}' | '\u{2002}' | '\u{2003}' | '\u{2004}'
        | '\u{2005}' | '\u{2006}' | '\u{2007}' | '\u{2008}' | '\u{2009}' | '\u{200A}' | '\u{2028}'
        | '\u{2029}' | '\u{202F}' | '\u{205F}' | '\u{3000}' => true,
        _ => false,
    }
}

fn digit_value_exec(ch: char) -> (r: Option<usize>)
    ensures
        r matches Some(n) ==> digit_value(ch) == Some(n as int),
        r is None ==> digit_value(ch) is None,
{
    match ch {
        '0' => Some(0),
        '1' => Some(1),
        '2' => Some(2),
        '3' => Some(3),
        '4' => Some(4),
        '5' => Some(5),
        '6' => Some(6),
        '7' => Some(7),
        '8' => Some(8),
        '9' => Some(9),
        _ => None,
    }
}

fn piece_of_char_exec(ch: char) -> (r: Option<Piece>)
    ensures
        r == piece_of_char(ch),
{
    let kind = match ch {
        'p' | 'P' => PieceType::Pawn,
        'n' | 'N' => PieceType::Knight,
        'b' | 'B' => PieceType::Bishop,
        'r' | 'R' => PieceType::Rook,
        'q' | 'Q' => PieceType::Queen,
        'k' | 'K' => PieceType::King,
        _ => {
            return None;
        },
    };
    let color = match ch {
        'P' | 'N' | 'B' | 'R' | 'Q' | 'K' => Color::White,
        _ => Color::Black,
    };
    Some(Piece { piece_type: kind, color })
}

fn chars_of(s: &str) -> (r: Vec<char>)
    ensures
        r@ == s@,
{
    let n = s.unicode_len();
    let mut v: Vec<char> = Vec::new();
    let mut i: usize = 0;
    while i < n
        invariant
            n == s@.len(),
            i <= n,
            v@ == s@.subrange(0, i as int),
        decreases n - i,
    {
        v.push(s.get_char(i));
        i = i + 1;
        assert(v@ =~= s@.subrange(0, i as int));
    }
    assert(v@ =~= s@);
    v
}

fn skip_spaces_exec(s: &Vec<char>, i: usize) -> (r: usize)
    requires
        i <= s@.len(),
    ensures
        r as int == skip_spaces(s@, i as int),
        i <= r <= s@.len(),
{
    let mut j = i;
    while j < s.len() && is_space_exec(s[j])
        invariant
            i <= j <= s@.len(),
            skip_spaces(s@, j as int) == skip_spaces(s@, i as int),
        decreases s.len() - j,
    {
        j = j + 1;
    }
    j
}

fn token_end_exec(s: &Vec<char>, i: usize) -> (r: usize)
    requires
        i <= s@.len(),
    ensures
        r as int == token_end(s@, i as int),
        i <= r <= s@.len(),
{
    let mut j = i;
    while j < s.len() && !is_space_exec(s[j])
        invariant
            i <= j <= s@.len(),
            token_end(s@, j as int) == token_end(s@, i as int),
        decreases s.len() - j,
    {
        j = j + 1;
    }
    j
}

impl Board {
    /// Reads a position text: piece placement, then an optional side to move;
    /// further fields are accepted and ignored.
    pub fn from_fen(fen: &str) -> (r: Result<Board, FenError>)
        ensures
            match decode_spec(fen@) {
                Ok(p) => r matches Ok(b) && b@ == p,
                Err(e) => r == Err::<Board, FenError>(e),
            },
    {
        let s = chars_of(fen);
        let f_start = skip_spaces_exec(&s, 0);
        let f_end = token_end_exec(&s, f_start);
        let side_start = skip_spaces_exec(&s, f_end);
        let side_end = token_end_exec(&s, side_start);
        let ghost f = s@.subrange(f_start as int, f_end as int);
        let mut board = Board::new();
        let mut row: usize = 0;
        let mut col: usize = 0;
        let mut ok = true;
        proof {
            assert(board.squares@ =~= place_start().squares);
        }
        let mut k: usize = f_start;
        while k < f_end
            invariant
                f_start <= k <= f_end,
                f_end <= s@.len(),
                f == s@.subrange(f_start as int, f_end as int),
                row <= 7,
                col <= 8,
                place_run(f, k - f_start) == (PlaceState {
                    row: row as int,
                    col: col as int,
                    squares: board.squares@,
                    ok,
                }),
            decreases f_end - k,
        {
            let ch = s[k];
            assert(f[k - f_start] == ch);
            if ok {
                if ch == '/' {
                    if col == 8 && row < 7 {
                        row = row + 1;
                        col = 0;
                    } else {
                        ok = false;
                    }
                } else {
                    match digit_value_exec(ch) {
                        Some(n) => {
                            if col + n <= 8 {
                                col = col + n;
                            } else {
                                ok = false;
                            }
                        },
                        None => {
                            match piece_of_char_exec(ch) {
                                Some(pc) => {
                                    if col < 8 {
                                        board.squares[row * 8 + col] = Some(pc);
                                        col = col + 1;
                                    } else {
                                        ok = false;
                                    }
                                },
                                None => {
                                    ok = false;
                                },
                            }
                        },
                    }
                }
            }
            k = k + 1;
        }
        if !(ok && row == 7 && col == 8) {
            return Err(FenError::MalformedInput);
        }
        let white = side_start == side_end || (side_end == side_start + 1 && s[side_start] == 'w');
        proof {
            let sf = s@.subrange(side_start as int, side_end as int);
            if side_end == side_start + 1 {
                if s@[side_start as int] == 'w' {
                    assert(sf =~= seq!['w']);
                } else {
                    assert(sf[0] != seq!['w'][0]);
                }
            } else if side_start != side_end {
                assert(sf.len() != 1);
            }
        }
        board.turn = if white {
            Color::White
        } else {
            Color::Black
        };
        Ok(board)
    }
}

/// The letter of a piece: upper case for White, lower case for Black.
pub open spec fn piece_char(pc: Piece) -> char {
    match (pc.color, pc.piece_type) {
        (Color::White, PieceType::Pawn) => 'P',
        (Color::White, PieceType::Knight) => 'N',
        (Color::White, PieceType::Bishop) => 'B',
        (Color::White, PieceType::Rook) => 'R',
        (Color::White, PieceType::Queen) => 'Q',
        (Color::White, PieceType::King) => 'K',
        (Color::Black, PieceType::Pawn) => 'p',
        (Color::Black, PieceType::Knight) => 'n',
        (Color::Black, PieceType::Bishop) => 'b',
        (Color::Black, PieceType::Rook) => 'r',
        (Color::Black, PieceType::Queen) => 'q',
        (Color::Black, PieceType::King) => 'k',
    }
}

/// The decimal digit of `n`, for `0 <= n <= 9`.
pub open spec fn digit_char(n: int) -> char {
    if n == 0 { '0' }
    else if n == 1 { '1' }
    else if n == 2 { '2' }
    else if n == 3 { '3' }
    else if n == 4 { '4' }
    else if n == 5 { '5' }
    else if n == 6 { '6' }
    else if n == 7 { '7' }
    else if n == 8 { '8' }
    else { '9' }
}

/// The count of a run of empty squares, written only when there is one.
pub open spec fn run_text(empty: int) -> Seq<char> {
    if empty > 0 {
        seq![digit_char(empty)]
    } else {
        seq![]
    }
}

/// The text of row `r` from column `c` on, after `empty` empty squares.
pub open spec fn rank_text(p: Position, r: int, c: int, empty: int) -> Seq<char>
    decreases 8 - c,
{
    if c >= 8 {
        run_text(empty)
    } else {
        match piece_at_spec(p, r, c) {
            None => rank_text(p, r, c + 1, empty + 1),
            Some(pc) => run_text(empty) + seq![piece_char(pc)] + rank_text(p, r, c + 1, 0),
        }
    }
}

/// The first `n` rows, each followed by `/` but the last.
pub open spec fn ranks_text(p: Position, n: int) -> Seq<char>
    decreases n,
{
    if n <= 0 {
        seq![]
    } else {
        ranks_text(p, n - 1) + rank_text(p, n - 1, 0, 0) + if n < 8 {
            seq!['/']
        } else {
            seq![]
        }
    }
}

pub open spec fn side_char(c: Color) -> char {
    match c {
        Color::White => 'w',
        Color::Black => 'b',
    }
}

/// The text of a position: placement, side to move, and fixed fields for the
/// castling, en-passant and clock data that the model does not keep.
pub open spec fn encode_spec(p: Position) -> Seq<char> {
    ranks_text(p, 8) + seq![' ', side_char(p.turn), ' ', '-', ' ', '-', ' ', '0', ' ', '1']
}

/// The letter of a piece: upper case for White, lower case for Black.
pub fn piece_letter(pc: Piece) -> (r: char)
    ensures
        r == piece_char(pc),
{
    match (pc.color, pc.piece_type) {
        (Color::White, PieceType::Pawn) => 'P',
        (Color::White, PieceType::Knight) => 'N',
        (Color::White, PieceType::Bishop) => 'B',
        (Color::White, PieceType::Rook) => 'R',
        (Color::White, PieceType::Queen) => 'Q',
        (Color::White, PieceType::King) => 'K',
        (Color::Black, PieceType::Pawn) => 'p',
        (Color::Black, PieceType::Knight) => 'n',
        (Color::Black, PieceType::Bishop) => 'b',
        (Color::Black, PieceType::Rook) => 'r',
        (Color::Black, PieceType::Queen) => 'q',
        (Color::Black, PieceType::King) => 'k',
    }
}

pub fn digit_char_exec(n: usize) -> (r: char)
    requires
        n <= 9,
    ensures
        r == digit_char(n as int),
{
    match n {
        0 => '0',
        1 => '1',
        2 => '2',
        3 => '3',
        4 => '4',
        5 => '5',
        6 => '6',
        7 => '7',
        8 => '8',
        _ => '9',
    }
}

/// Relies on `String`'s `FromIterator<&char>`: the string holds the characters
/// of `v`, in order.
#[verifier::external_body]
pub(crate) fn string_of_chars(v: &Vec<char>) -> (r: String)
    ensures
        r@ == v@,
{
    v.iter().collect()
}

fn push_run(out: &mut Vec<char>, empty: usize)
    requires
        empty <= 8,
    ensures
        final(out)@ == old(out)@ + run_text(empty as int),
{
    if empty > 0 {
        out.push(digit_char_exec(empty));
        assert(final(out)@ =~= old(out)@ + run_text(empty as int));
    } else {
        assert(old(out)@ =~= old(out)@ + run_text(empty as int));
    }
}

fn push_rank(b: &Board, r: usize, out: &mut Vec<char>)
    requires
        r < 8,
    ensures
        final(out)@ == old(out)@ + rank_text(b@, r as int, 0, 0),
{
    let ghost start = out@;
    let mut empty: usize = 0;
    let mut c: usize = 0;
    while c < 8
        invariant
            r < 8,
            c <= 8,
            empty <= c,
            start == old(out)@,
            out@ + rank_text(b@, r as int, c as int, empty as int) == start + rank_text(
                b@,
                r as int,
                0,
                0,
            ),
        decreases 8 - c,
    {
        let ghost before = out@;
        match b.get_piece(r, c) {
            Some(pc) => {
                push_run(out, empty);
                out.push(piece_letter(pc));
                assert(before + (run_text(empty as int) + seq![piece_char(pc)] + rank_text(
                    b@,
                    r as int,
                    c + 1,
                    0,
                )) =~= out@ + rank_text(b@, r as int, c + 1, 0));
                empty = 0;
            },
            None => {
                empty = empty + 1;
            },
        }
        c = c + 1;
    }
    push_run(out, empty);
}

/// Writes a position as text: the eight ranks separated by `/`, runs of empty
/// squares as digits, then the side to move and the fields `- - 0 1`.
pub fn board_to_fen(board: &Board) -> (r: String)
    ensures
        r@ == encode_spec(board@),
{
    let mut text: Vec<char> = Vec::new();
    let mut r: usize = 0;
    while r < 8
        invariant
            r <= 8,
            text@ == ranks_text(board@, r as int),
        decreases 8 - r,
    {
        push_rank(board, r, &mut text);
        if r < 7 {
            text.push('/');
        }
        r = r + 1;
        assert(text@ =~= ranks_text(board@, r as int));
    }
    text.push(' ');
    text.push(
        match board.turn {
            Color::White => 'w',
            Color::Black => 'b',
        },
    );
    text.push(' ');
    text.push('-');
    text.push(' ');
    text.push('-');
    text.push(' ');
    text.push('0');
    text.push(' ');
    text.push('1');
    assert(text@ =~= encode_spec(board@));
    string_of_chars(&text)
}

} // verus!
