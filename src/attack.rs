//! Attack and check detection, by generating the moves of each kind of piece from the
//! square under test and looking at what they could take.
use vstd::prelude::*;

use crate::board::{
    at, is_white_tag, on_board, piece_on_board, upper, GameData, Move, MoveType, Piece,
    PiecePlacements, BLACK_KING, GD_NO_CASTLE, WHITE_BISHOP, WHITE_KING, WHITE_KNIGHT,
    WHITE_PAWN, WHITE_QUEEN, WHITE_ROOK,
};
use crate::movegen::{
    add_knight_moves, add_linear_moves, add_pawn_captures, knight_moves, linear_moves,
    pawn_captures,
};

verus! {

/// `p` with its tag replaced by the piece of its own colour whose white tag is `white_tag`.
pub open spec fn as_kind(p: Piece, white_tag: u8) -> Piece {
    Piece {
        row: p.row,
        col: p.col,
        name: if is_white_tag(p.name) {
            white_tag
        } else {
            (white_tag + 32) as u8
        },
    }
}

/// The state used when moves are generated only to find attacks: with every castling
/// right withdrawn, castling never counts as a threat.
pub open spec fn attack_state() -> GameData {
    GameData { ply: 0, mask: GD_NO_CASTLE }
}

/// `m` takes a piece that is, in upper case, `k1` or `k2`.
pub open spec fn takes_kind(m: Move, b: PiecePlacements, k1: u8, k2: u8) -> bool {
    match m.typ {
        MoveType::Capture { row, col } => row < 9 && col < 9 && (upper(at(b, row as int, col as int))
            == k1 || upper(at(b, row as int, col as int)) == k2),
        _ => false,
    }
}

pub open spec fn threatens(moves: Set<Move>, b: PiecePlacements, k1: u8, k2: u8) -> bool {
    exists|m: Move| #[trigger] moves.contains(m) && takes_kind(m, b, k1, k2)
}

/// The square of `p` is attacked by the other side: a piece of each kind, of `p`'s colour,
/// put on that square, could take an enemy of the same kind (a rook or a queen along the
/// lines, a bishop or a queen along the diagonals, a knight, a pawn, a king).
pub open spec fn square_attacked(p: Piece, b: PiecePlacements) -> bool {
    let gd = attack_state();
    ||| threatens(
        linear_moves(as_kind(p, WHITE_ROOK), b, false, 8, gd),
        b,
        WHITE_ROOK,
        WHITE_QUEEN,
    )
    ||| threatens(
        linear_moves(as_kind(p, WHITE_BISHOP), b, true, 8, gd),
        b,
        WHITE_BISHOP,
        WHITE_QUEEN,
    )
    ||| threatens(knight_moves(as_kind(p, WHITE_KNIGHT), b, gd), b, WHITE_KNIGHT, WHITE_KNIGHT)
    ||| threatens(pawn_captures(as_kind(p, WHITE_PAWN), b, gd), b, WHITE_PAWN, WHITE_PAWN)
    ||| threatens(
        linear_moves(as_kind(p, WHITE_KING), b, false, 1, gd).union(
            linear_moves(as_kind(p, WHITE_KING), b, true, 1, gd),
        ),
        b,
        WHITE_KING,
        WHITE_KING,
    )
}

pub open spec fn own_king(p: Piece) -> u8 {
    if is_white_tag(p.name) {
        WHITE_KING
    } else {
        BLACK_KING
    }
}

/// No king of `p`'s colour on `b` is attacked (true when there is none).
pub open spec fn king_safe(p: Piece, b: PiecePlacements) -> bool {
    forall|r: int, c: int|
        on_board(r, c) && #[trigger] at(b, r, c) == own_king(p) ==> !square_attacked(
            Piece { row: r as u8, col: c as u8, name: own_king(p) },
            b,
        )
}

fn takes_any(acc: &Vec<Move>, pp: &PiecePlacements, k1: u8, k2: u8) -> (r: bool)
    ensures
        r == exists|m: Move| #[trigger] acc@.contains(m) && takes_kind(m, *pp, k1, k2),
{
    let mut i: usize = 0;
    while i < acc.len()
        invariant
            0 <= i <= acc@.len(),
            forall|j: int| 0 <= j < i ==> !takes_kind(#[trigger] acc@[j], *pp, k1, k2),
        decreases acc@.len() - i,
    {
        let m = acc[i];
        match m.typ {
            MoveType::Capture { row, col } => {
                if row < 9 && col < 9 {
                    let n = crate::board::to_upper(pp[row as usize][col as usize]);
                    if n == k1 || n == k2 {
                        assert(acc@.contains(m) && takes_kind(m, *pp, k1, k2));
                        return true;
                    }
                }
            },
            _ => {},
        }
        i += 1;
    }
    assert forall|m: Move| #[trigger] acc@.contains(m) implies !takes_kind(m, *pp, k1, k2) by {
        let j = choose|j: int| 0 <= j < acc@.len() && acc@[j] == m;
        assert(!takes_kind(acc@[j], *pp, k1, k2));
    }
    false
}

fn kind_of_colour(white: bool, white_tag: u8) -> (r: u8)
    requires
        white_tag <= 90,
    ensures
        r == if white {
            white_tag
        } else {
            (white_tag + 32) as u8
        },
{
    if white {
        white_tag
    } else {
        white_tag + 32
    }
}

/// Whether the square of `p` is attacked by a piece of the other colour.
pub fn piece_attacked(p: Piece, pp: &PiecePlacements) -> (r: bool)
    requires
        piece_on_board(p),
    ensures
        r == square_attacked(p, *pp),
{
    let gd = GameData { ply: 0, mask: GD_NO_CASTLE };
    let white = p.is_white();

    let mut acc: Vec<Move> = Vec::new();
    let rook = Piece { row: p.row, col: p.col, name: kind_of_colour(white, WHITE_ROOK) };
    add_linear_moves(rook, pp, &mut acc, false, 8, gd);
    if takes_any(&acc, pp, WHITE_ROOK, WHITE_QUEEN) {
        return true;
    }
    assert(rook == as_kind(p, WHITE_ROOK));
    assert forall|m: Move| #[trigger] linear_moves(as_kind(p, WHITE_ROOK), *pp, false, 8, gd).contains(m) implies !takes_kind(m, *pp, WHITE_ROOK, WHITE_QUEEN) by {
        assert(acc@.contains(m));
    }

    let mut acc: Vec<Move> = Vec::new();
    let bishop = Piece { row: p.row, col: p.col, name: kind_of_colour(white, WHITE_BISHOP) };
    add_linear_moves(bishop, pp, &mut acc, true, 8, gd);
    if takes_any(&acc, pp, WHITE_BISHOP, WHITE_QUEEN) {
        return true;
    }
    assert(bishop == as_kind(p, WHITE_BISHOP));
    assert forall|m: Move| #[trigger] linear_moves(as_kind(p, WHITE_BISHOP), *pp, true, 8, gd).contains(m) implies !takes_kind(m, *pp, WHITE_BISHOP, WHITE_QUEEN) by {
        assert(acc@.contains(m));
    }

    let mut acc: Vec<Move> = Vec::new();
    let knight = Piece { row: p.row, col: p.col, name: kind_of_colour(white, WHITE_KNIGHT) };
    add_knight_moves(knight, pp, &mut acc, gd);
    if takes_any(&acc, pp, WHITE_KNIGHT, WHITE_KNIGHT) {
        return true;
    }
    assert(knight == as_kind(p, WHITE_KNIGHT));
    assert forall|m: Move| #[trigger] knight_moves(as_kind(p, WHITE_KNIGHT), *pp, gd).contains(m) implies !takes_kind(m, *pp, WHITE_KNIGHT, WHITE_KNIGHT) by {
        assert(acc@.contains(m));
    }

    let mut acc: Vec<Move> = Vec::new();
    let pawn = Piece { row: p.row, col: p.col, name: kind_of_colour(white, WHITE_PAWN) };
    add_pawn_captures(pawn, pp, &mut acc, gd);
    if takes_any(&acc, pp, WHITE_PAWN, WHITE_PAWN) {
        return true;
    }
    assert(pawn == as_kind(p, WHITE_PAWN));
    assert forall|m: Move| #[trigger] pawn_captures(as_kind(p, WHITE_PAWN), *pp, gd).contains(m) implies !takes_kind(m, *pp, WHITE_PAWN, WHITE_PAWN) by {
        assert(acc@.contains(m));
    }

    let mut acc: Vec<Move> = Vec::new();
    let king = Piece { row: p.row, col: p.col, name: kind_of_colour(white, WHITE_KING) };
    add_linear_moves(king, pp, &mut acc, false, 1, gd);
    add_linear_moves(king, pp, &mut acc, true, 1, gd);
    let r = takes_any(&acc, pp, WHITE_KING, WHITE_KING);
    assert(king == as_kind(p, WHITE_KING));
    let ghost around = linear_moves(as_kind(p, WHITE_KING), *pp, false, 1, gd).union(
        linear_moves(as_kind(p, WHITE_KING), *pp, true, 1, gd),
    );
    if r {
        let ghost m = choose|m: Move| #[trigger] acc@.contains(m) && takes_kind(m, *pp, WHITE_KING, WHITE_KING);
        assert(around.contains(m));
    } else {
        assert forall|m: Move| #[trigger] around.contains(m) implies !takes_kind(m, *pp, WHITE_KING, WHITE_KING) by {
            assert(acc@.contains(m));
        }
    }
    r
}

/// Whether every king of `p`'s colour on `pp` is safe from attack.
pub fn king_not_attacked(p: Piece, pp: &PiecePlacements) -> (res: bool)
    ensures
        res == king_safe(p, *pp),
{
    let king = if p.is_white() {
        WHITE_KING
    } else {
        BLACK_KING
    };
    let mut r: usize = 1;
    while r <= 8
        invariant
            1 <= r <= 9,
            king == own_king(p),
            forall|r2: int, c2: int|
                on_board(r2, c2) && r2 < r && #[trigger] at(*pp, r2, c2) == king ==> !square_attacked(
                    Piece { row: r2 as u8, col: c2 as u8, name: king },
                    *pp,
                ),
        decreases 9 - r,
    {
        let mut c: usize = 1;
        while c <= 8
            invariant
                1 <= r <= 8,
                1 <= c <= 9,
                king == own_king(p),
                forall|r2: int, c2: int|
                    on_board(r2, c2) && (r2 < r || (r2 == r && c2 < c)) && #[trigger] at(*pp, r2, c2)
                        == king ==> !square_attacked(
                        Piece { row: r2 as u8, col: c2 as u8, name: king },
                        *pp,
                    ),
            decreases 9 - c,
        {
            if pp[r][c] == king && piece_attacked(Piece { row: r as u8, col: c as u8, name: king }, pp) {
                assert(at(*pp, r as int, c as int) == king);
                return false;
            }
            c += 1;
        }
        r += 1;
    }
    true
}

} // verus!
